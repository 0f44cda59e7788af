use trickshot::error::ApiError;
use trickshot::key_cli;
use trickshot::key_cli::KeysCmd;
use trickshot::keys::constant_time_eq;
use trickshot::keys::gen_key;
use trickshot::keys::hash_key;
use trickshot::keys::load_file;
use trickshot::keys::now_secs;
use trickshot::keys::secs_of;
use trickshot::keys::text_of;
use trickshot::keys::Bootstrap;
use trickshot::keys::FileRead;
use trickshot::keys::KeyEntry;
use trickshot::keys::KeyFile;
use trickshot::keys::KeyInfo;
use trickshot::keys::KeyStore;
use trickshot::keys::Role;
use trickshot::keys::Save;

fn store() -> KeyStore<String> {
    KeyStore::load("keys.json".to_string(), FileRead::Missing).unwrap()
}

fn create(s: &mut KeyStore<String>, label: &str, role: Role) -> (KeyInfo, String) {
    let staged = s.create(label, role);
    s.persist(staged.file, Ok(())).unwrap();
    staged.value
}

fn set_role(s: &mut KeyStore<String>, id: &str, role: Role) -> Result<KeyInfo, ApiError> {
    let staged = s.set_role(id, role)?;
    s.persist(staged.file, Ok(()))?;
    Ok(staged.value)
}

fn set_disabled(s: &mut KeyStore<String>, id: &str, disabled: bool) -> Result<KeyInfo, ApiError> {
    let staged = s.set_disabled(id, disabled)?;
    s.persist(staged.file, Ok(()))?;
    Ok(staged.value)
}

fn delete(s: &mut KeyStore<String>, id: &str) -> Result<(), ApiError> {
    let staged = s.delete(id)?;
    s.persist(staged.file, Ok(()))
}

fn entry(id: &str, hash: &str, role: Role, disabled: bool) -> KeyEntry {
    KeyEntry {
        id: id.to_string(),
        label: format!("label of {id}"),
        hash: hash.to_string(),
        role,
        created_at: 7,
        disabled,
    }
}

fn file(keys: Vec<KeyEntry>) -> KeyFile {
    KeyFile { keys }
}

fn with(keys: Vec<KeyEntry>) -> KeyStore<String> {
    KeyStore::load("k".to_string(), FileRead::Document(file(keys))).unwrap()
}

fn message(e: &ApiError) -> String {
    match e {
        ApiError::BadRequest(m) => format!("bad request: {m}"),
        ApiError::Unauthorized(m) => format!("unauthorized: {m}"),
        ApiError::Forbidden(m) => format!("forbidden: {m}"),
        ApiError::Internal(m) => format!("internal: {m}"),
        ApiError::Render(m) => format!("render: {m}"),
        ApiError::Timeout => "timeout".to_string(),
    }
}

#[test]
fn create_verify_role_roundtrip() {
    let mut s = store();
    let (info, secret) = create(&mut s, "admin-key", Role::Admin);
    assert_eq!(info.role, Role::Admin);
    let (id, _label, role) = s.verify(&secret).expect("verifies");
    assert_eq!(id, info.id);
    assert_eq!(role, Role::Admin);
    assert!(s.has_admin_key());
    assert!(s.verify("not-a-key").is_none());
}

#[test]
fn default_role_is_render() {
    let mut s = store();
    let (_info, secret) = create(&mut s, "r", Role::Render);
    assert_eq!(s.verify(&secret).unwrap().2, Role::Render);
    // a fresh render-only store has no admin key
    assert!(!s.has_admin_key());
}

#[test]
fn promote_disable_delete() {
    let mut s = store();
    let (info, secret) = create(&mut s, "k", Role::Render);
    set_role(&mut s, &info.id, Role::Admin).unwrap();
    assert_eq!(s.verify(&secret).unwrap().2, Role::Admin);
    set_disabled(&mut s, &info.id, true).unwrap();
    assert!(s.verify(&secret).is_none(), "disabled keys do not verify");
    set_disabled(&mut s, &info.id, false).unwrap();
    assert!(s.verify(&secret).is_some());
    delete(&mut s, &info.id).unwrap();
    assert!(s.verify(&secret).is_none());
    assert!(delete(&mut s, &info.id).is_err(), "deleting a missing id errors");
}

#[test]
fn create_with_secret_bootstrap() {
    let mut s = store();
    let staged = s.create_with_secret("bootstrap", Role::Admin, "fixed-secret");
    s.persist(staged.file, Ok(())).unwrap();
    let info = staged.value;
    assert_eq!(info.role, Role::Admin);
    assert_eq!(s.verify("fixed-secret").unwrap().2, Role::Admin);
}

#[test]
fn list_omits_secret_fields() {
    let mut s = store();
    create(&mut s, "a", Role::Render);
    let infos = s.list();
    assert_eq!(infos.len(), 1);
    // KeyInfo has no hash/secret field: write it as a document and confirm.
    let v = infos[0].to_json();
    assert!(v.get("hash").is_none());
    assert!(v.get("secret").is_none());
    assert_eq!(v.get_text("role").as_deref(), Some("render"));
}

#[test]
fn secret_is_told_once() {
    let mut s = store();
    let (info, secret) = create(&mut s, "a", Role::Admin);
    let v = info.to_json_with_secret(&secret);
    assert_eq!(v.get_text("secret"), Some(secret));
    assert_eq!(v.get_text("id"), Some(info.id.clone()));
    assert!(v.get("hash").is_none());
    assert!(v.to_pretty().contains("\"role\": \"admin\""));
}

#[test]
fn drawn_bytes_are_handed_out_in_base64() {
    assert_eq!(text_of(&[0xfb, 0xff, 0xfe, 0]), "-__-AA");
    assert_eq!(text_of(&[0; 16]), "AAAAAAAAAAAAAAAAAAAAAA");
    assert_ne!(text_of(&[1; 16]), text_of(&[2; 16]));
    assert_eq!(text_of(&[]), "");
}

#[test]
fn role_defaults_to_render() {
    assert_eq!(Role::default(), Role::Render);
    assert_eq!(Role::Render.to_text(), "render");
    assert_eq!(Role::Admin.to_text(), "admin");
}

#[test]
fn hash_is_sha256_in_hex() {
    assert_eq!(
        hash_key("abc"),
        "ba7816bf8f01cfea414140de5dae2223b00361a396177a9cb410ff61f20015ad"
    );
    assert_eq!(
        hash_key(""),
        "e3b0c44298fc1c149afbf4c8996fb92427ae41e4649b934ca495991b7852b855"
    );
}

#[test]
fn equality_in_constant_time() {
    assert!(constant_time_eq(b"abc", b"abc"));
    assert!(constant_time_eq(b"", b""));
    assert!(!constant_time_eq(b"abc", b"abd"));
    assert!(!constant_time_eq(b"abc", b"ab"));
}

#[test]
fn generated_keys_are_url_safe_and_differ() {
    let (id, secret) = gen_key();
    let (id2, secret2) = gen_key();
    assert_eq!(id.len(), 8);
    assert_eq!(secret.len(), 43);
    assert_ne!(id, id2);
    assert_ne!(secret, secret2);
    for c in id.chars().chain(secret.chars()) {
        assert!(c.is_ascii_alphanumeric() || c == '-' || c == '_');
    }
}

#[test]
fn clock_is_past_the_year_2020() {
    assert!(now_secs() > 1_577_836_800);
}

#[test]
fn clock_before_1970_counts_as_zero() {
    assert_eq!(secs_of(Some(1_700_000_000)), 1_700_000_000);
    assert_eq!(secs_of(None), 0);
}

#[test]
fn first_enabled_key_wins() {
    let h = hash_key("s");
    let s = with(vec![
        entry("off", &h, Role::Admin, true),
        entry("first", &h, Role::Render, false),
        entry("second", &h, Role::Admin, false),
    ]);
    let (id, label, role) = s.verify("s").unwrap();
    assert_eq!(id, "first");
    assert_eq!(label, "label of first");
    assert_eq!(role, Role::Render);
    assert_eq!(s.len(), 3);
}

#[test]
fn empty_store_refuses() {
    let s = store();
    assert!(s.verify("").is_none());
    assert!(s.verify("anything").is_none());
    assert!(!s.has_enabled_keys());
    assert!(!s.has_admin_key());
    assert_eq!(s.path(), "keys.json");
}

#[test]
fn disabled_admin_is_no_admin() {
    let s = with(vec![entry("a", "h", Role::Admin, true), entry("r", "g", Role::Render, false)]);
    assert!(!s.has_admin_key());
    assert!(s.has_enabled_keys());
    let s = with(vec![entry("a", "h", Role::Admin, true)]);
    assert!(!s.has_enabled_keys());
}

#[test]
fn unknown_ids_are_refused() {
    let s = with(vec![entry("a", "h", Role::Render, false)]);
    let e = s.set_disabled("b", true).err().unwrap();
    assert_eq!(message(&e), "bad request: no key with id b");
    let e = s.set_role("b", Role::Admin).err().unwrap();
    assert_eq!(message(&e), "bad request: no key with id b");
    let e = s.delete("b").err().unwrap();
    assert_eq!(message(&e), "bad request: no key with id b");
}

#[test]
fn an_edit_spares_the_other_keys() {
    let mut s = with(vec![
        entry("a", &hash_key("x"), Role::Render, false),
        entry("b", &hash_key("y"), Role::Render, false),
    ]);
    set_disabled(&mut s, "a", true).unwrap();
    assert!(s.verify("x").is_none());
    assert_eq!(s.verify("y").unwrap().0, "b");
    delete(&mut s, "a").unwrap();
    assert_eq!(s.len(), 1);
    assert_eq!(s.verify("y").unwrap().0, "b");
}

#[test]
fn failed_write_changes_nothing() {
    let mut s = store();
    let staged = s.create("a", Role::Admin);
    let failed = s.persist(staged.file, Err(ApiError::Internal("disk".to_string())));
    assert_eq!(message(&failed.unwrap_err()), "internal: disk");
    assert_eq!(s.len(), 0);
}

#[test]
fn loading_reports_what_is_wrong() {
    let e = load_file(FileRead::Malformed("line 1".to_string())).unwrap_err();
    assert_eq!(message(&e), "internal: parse keys file: line 1");
    let e = load_file(FileRead::Failed("denied".to_string())).unwrap_err();
    assert_eq!(message(&e), "internal: read keys file: denied");
    assert_eq!(load_file(FileRead::Missing).unwrap().keys.len(), 0);
}

#[test]
fn reload_takes_the_new_document() {
    let mut s = store();
    s.reload(FileRead::Document(file(vec![entry("a", &hash_key("x"), Role::Render, false)])))
        .unwrap();
    assert_eq!(s.verify("x").unwrap().0, "a");
    let e = s.reload(FileRead::Failed("gone".to_string())).unwrap_err();
    assert_eq!(message(&e), "internal: read keys file: gone");
    assert_eq!(s.verify("x").unwrap().0, "a");
}

#[test]
fn bootstrap_makes_an_admin_once() {
    let mut s = store();
    match s.bootstrap_admin(Some("given")) {
        Bootstrap::Seeded(staged) => s.persist(staged.file, Ok(())).unwrap(),
        _ => panic!("a key is seeded"),
    }
    assert_eq!(s.verify("given").unwrap().2, Role::Admin);
    assert!(matches!(s.bootstrap_admin(None), Bootstrap::NotNeeded));
    let mut t = store();
    match t.bootstrap_admin(None) {
        Bootstrap::Minted(staged) => {
            t.persist(staged.file, Ok(())).unwrap();
            let (id, label, role) = t.verify(&staged.value.1).unwrap();
            assert_eq!(id, staged.value.0.id);
            assert_eq!(label, "bootstrap");
            assert_eq!(role, Role::Admin);
        }
        _ => panic!("a key is minted"),
    }
}

#[test]
fn saving_goes_step_by_step() {
    let mut step = Save::start(false);
    assert!(matches!(step, Save::CreateDir));
    step = step.next(Ok(()));
    assert!(matches!(step, Save::Serialize));
    step = step.next(Ok(()));
    assert!(matches!(step, Save::WriteTemporary));
    step = step.next(Ok(()));
    assert!(matches!(step, Save::Rename));
    step = step.next(Ok(()));
    assert!(matches!(step, Save::Finished(Ok(()))));
    assert!(matches!(Save::start(true), Save::Serialize));
}

#[test]
fn saving_stops_at_the_first_failure() {
    for (step, said) in [
        (Save::CreateDir, "internal: create keys dir: x"),
        (Save::Serialize, "internal: serialize keys: x"),
        (Save::WriteTemporary, "internal: write keys tmp: x"),
        (Save::Rename, "internal: rename keys: x"),
    ] {
        match step.next(Err("x".to_string())) {
            Save::Finished(Err(e)) => assert_eq!(message(&e), said),
            other => panic!("{other:?}"),
        }
    }
}

#[test]
fn cli_lists_in_columns() {
    let mut old = entry("b", "h", Role::Admin, true);
    old.created_at = 1_700_000_000;
    let doc = file(vec![entry("a", "h", Role::Render, false), old]);
    let out = key_cli::run(&KeysCmd::List, doc).unwrap();
    assert!(out.save.is_none());
    assert_eq!(
        out.lines,
        vec![
            "a            label of a               render   created=7            active",
            "b            label of b               admin    created=1700000000   disabled",
        ]
    );
    let out = key_cli::run(&KeysCmd::List, file(vec![])).unwrap();
    assert_eq!(out.lines, vec!["(no keys)"]);
}

#[test]
fn cli_creates_a_key_that_verifies() {
    let cmd = KeysCmd::Create { label: "ci".to_string(), role: Role::Render };
    let out = key_cli::run(&cmd, file(vec![])).unwrap();
    let saved = out.save.unwrap();
    let id = saved.keys[0].id.clone();
    assert_eq!(out.lines[0], format!("Created key id={id} label=ci role=render"));
    let secret = out.lines[1].strip_prefix("Secret (shown once, store it now):\n").unwrap();
    let s = with(saved.keys);
    assert_eq!(s.verify(secret).unwrap().0, id);
}

#[test]
fn cli_changes_one_key() {
    let doc = || file(vec![entry("a", "h", Role::Render, false)]);
    let out = key_cli::run(&KeysCmd::Disable { id: "a".to_string() }, doc()).unwrap();
    assert_eq!(out.lines, vec!["Disabled key id=a"]);
    assert!(out.save.unwrap().keys[0].disabled);
    let out = key_cli::run(&KeysCmd::Enable { id: "a".to_string() }, doc()).unwrap();
    assert_eq!(out.lines, vec!["Enabled key id=a"]);
    assert!(!out.save.unwrap().keys[0].disabled);
    let out = key_cli::run(&KeysCmd::Delete { id: "a".to_string() }, doc()).unwrap();
    assert_eq!(out.lines, vec!["Deleted key id=a"]);
    assert_eq!(out.save.unwrap().keys.len(), 0);
    let e = key_cli::run(&KeysCmd::Delete { id: "z".to_string() }, doc()).unwrap_err();
    assert_eq!(message(&e), "bad request: no key with id z");
}
