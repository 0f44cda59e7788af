//! Laws on keys: which key a secret belongs to, what a change leaves in the file, and
//! what the command line writes and prints.

use vstd::prelude::*;

use crate::crypto;
use crate::error::ApiError;
use crate::error::ApiErrorView;
use crate::key_cli;
use crate::key_cli::CliOutcome;
use crate::key_cli::KeysCmd;
use crate::keys;
use crate::keys::Edit;
use crate::keys::FileRead;
use crate::keys::KeyEntryView;
use crate::keys::KeyInfo;
use crate::keys::KeyInfoView;
use crate::keys::Role;
use crate::keys::SaveView;
use crate::keys::Staged;
use crate::json::JsonView;
use crate::laws::json as members;
use crate::laws::text as reading;
use crate::text;

verus! {

// --- Holding a key ----------------------------------------------------------

/// Who holds a key is told from the first enabled entry with its hash.
pub proof fn law_holder_is_the_first_enabled(
    keys: Seq<KeyEntryView>,
    hash: Seq<char>,
    id: Seq<char>,
    label: Seq<char>,
    role: Role,
)
    requires
        keys::held_by(keys, hash, id, label, role),
    ensures
        exists|i: int|
            {
                &&& 0 <= i < keys.len()
                &&& (#[trigger] keys[i]).hash == hash
                &&& !keys[i].disabled
                &&& id == keys[i].id
                &&& label == keys[i].label
                &&& role == keys[i].role
                &&& forall|j: int|
                    0 <= j < i ==> (#[trigger] keys[j]).disabled || keys[j].hash != hash
            },
{
    let i = choose|i: int| #[trigger]
        keys::authenticates(keys, hash, i) && id == keys[i].id && label == keys[i].label && role
            == keys[i].role;
    assert(keys[i].hash == hash && !keys[i].disabled);
    assert forall|j: int| 0 <= j < i implies (#[trigger] keys[j]).disabled || keys[j].hash
        != hash by {
        assert(!keys::matches_hash(keys[j], hash));
    }
}

/// A hash is unknown exactly where no enabled entry has it.
pub proof fn law_unknown_means_no_enabled_key(keys: Seq<KeyEntryView>, hash: Seq<char>)
    ensures
        keys::unknown_hash(keys, hash) <==> forall|i: int|
            0 <= i < keys.len() ==> (#[trigger] keys[i]).disabled || keys[i].hash != hash,
{
    if keys::unknown_hash(keys, hash) {
        assert forall|i: int| 0 <= i < keys.len() implies (#[trigger] keys[i]).disabled
            || keys[i].hash != hash by {
            assert(!keys::matches_hash(keys[i], hash));
        }
    }
    if forall|i: int| 0 <= i < keys.len() ==> (#[trigger] keys[i]).disabled || keys[i].hash
        != hash {
        assert forall|i: int| 0 <= i < keys.len() implies !keys::matches_hash(
            #[trigger] keys[i],
            hash,
        ) by {}
    }
}

/// Secrets with different digests have different hashes: the whole secret counts, and
/// the whole digest.
pub proof fn law_hash_tells_secrets_apart(a: Seq<char>, b: Seq<char>)
    requires
        keys::key_hash(a) == keys::key_hash(b),
    ensures
        crypto::sha256(text::utf8(a)) == crypto::sha256(text::utf8(b)),
{
    reading::law_hex_tells_bytes_apart(
        crypto::sha256(text::utf8(a)),
        crypto::sha256(text::utf8(b)),
    );
}

/// Every byte of the digest of a secret is read back from its hash.
pub proof fn law_hash_holds_the_digest(secret: Seq<char>)
    ensures
        ({
            let d = crypto::sha256(text::utf8(secret));
            let h = keys::key_hash(secret);
            &&& h.len() == 2 * d.len()
            &&& forall|i: int|
                0 <= i < d.len() ==> #[trigger] d[i] == reading::digit_value(h[2 * i]) * 16
                    + reading::digit_value(h[2 * i + 1])
        }),
{
    reading::law_hex_is_read_back(crypto::sha256(text::utf8(secret)));
}

/// There is an enabled key exactly where some entry is not disabled, and an admin exactly
/// where such an entry has that role.
pub proof fn law_enabled_keys_and_admins(keys: Seq<KeyEntryView>)
    ensures
        keys::has_enabled(keys) <==> exists|i: int|
            0 <= i < keys.len() && !(#[trigger] keys[i]).disabled,
        keys::has_admin(keys) <==> exists|i: int|
            0 <= i < keys.len() && !(#[trigger] keys[i]).disabled && keys[i].role == Role::Admin,
{
}

/// An id is unknown exactly where no entry has it, and otherwise some entry is the first
/// one with it.
pub proof fn law_first_entry_with_an_id(keys: Seq<KeyEntryView>, id: Seq<char>, i: int)
    ensures
        keys::unknown_id(keys, id) <==> forall|k: int|
            0 <= k < keys.len() ==> (#[trigger] keys[k]).id != id,
        keys::first_with_id(keys, id, i) <==> 0 <= i < keys.len() && keys[i].id == id && forall|
            j: int,
        |
            0 <= j < i ==> (#[trigger] keys[j]).id != id,
{
}

// --- Roles and documents ----------------------------------------------------

/// The roles have these names, and no two have the same.
pub proof fn law_names_of_roles()
    ensures
        keys::role_name(Role::Render) == "render"@,
        keys::role_name(Role::Admin) == "admin"@,
        keys::role_name(Role::Render) != keys::role_name(Role::Admin),
{
    reveal_strlit("render");
    reveal_strlit("admin");
    assert("render"@[0] != "admin"@[0]);
}

/// What is told of a key are the fields of its entry, but for the hash.
pub proof fn law_what_is_told_of_a_key(e: KeyEntryView)
    ensures
        ({
            let i = keys::info_of(e);
            &&& i.id == e.id
            &&& i.label == e.label
            &&& i.role == e.role
            &&& i.created_at == e.created_at
            &&& i.disabled == e.disabled
        }),
{
}

/// The document about a key holds its id, label, role, time and flag, each under its name,
/// and that of a new key its secret too.
pub proof fn law_documents_hold_what_is_told(i: KeyInfoView, secret: Seq<char>)
    ensures
        ({
            let v = keys::info_json(i);
            let w = keys::created_json(i, secret);
            let role = if i.role == Role::Admin {
                "admin"@
            } else {
                "render"@
            };
            &&& members::holds(v, "id"@, JsonView::Text(i.id))
            &&& members::holds(v, "label"@, JsonView::Text(i.label))
            &&& members::holds(v, "role"@, JsonView::Text(role))
            &&& members::holds(v, "created_at"@, JsonView::Number(Some(i.created_at)))
            &&& members::holds(v, "disabled"@, JsonView::Bool(i.disabled))
            &&& members::holds(w, "id"@, JsonView::Text(i.id))
            &&& members::holds(w, "label"@, JsonView::Text(i.label))
            &&& members::holds(w, "role"@, JsonView::Text(role))
            &&& members::holds(w, "created_at"@, JsonView::Number(Some(i.created_at)))
            &&& members::holds(w, "disabled"@, JsonView::Bool(i.disabled))
            &&& members::holds(w, "secret"@, JsonView::Text(secret))
        }),
{
    reveal_strlit("id");
    reveal_strlit("label");
    reveal_strlit("role");
    reveal_strlit("created_at");
    reveal_strlit("disabled");
    reveal_strlit("secret");
    assert("id"@.len() == 2 && "label"@.len() == 5 && "role"@.len() == 4 && "created_at"@.len()
        == 10 && "disabled"@.len() == 8 && "secret"@.len() == 6);
    let f = keys::info_json(i)->Object_0;
    let g = keys::created_json(i, secret)->Object_0;
    assert(f[0] == ("created_at"@, JsonView::Number(Some(i.created_at))));
    assert(f[1] == ("disabled"@, JsonView::Bool(i.disabled)));
    assert(f[2] == ("id"@, JsonView::Text(i.id)));
    assert(f[3] == ("label"@, JsonView::Text(i.label)));
    assert(f[4] == ("role"@, JsonView::Text(keys::role_name(i.role))));
    assert(g[0] == f[0] && g[1] == f[1] && g[2] == f[2] && g[3] == f[3] && g[4] == f[4]);
    assert(g[5] == ("secret"@, JsonView::Text(secret)));
}

/// The document about a key has no member for its hash, and one for its secret only when
/// the key is made.
pub proof fn law_documents_hide_hash_and_secret(i: KeyInfoView, secret: Seq<char>)
    ensures
        crate::json::member(keys::info_json(i), "hash"@) is None,
        crate::json::member(keys::info_json(i), "secret"@) is None,
        crate::json::member(keys::created_json(i, secret), "hash"@) is None,
{
    reveal_strlit("id");
    reveal_strlit("label");
    reveal_strlit("role");
    reveal_strlit("created_at");
    reveal_strlit("disabled");
    reveal_strlit("secret");
    reveal_strlit("hash");
    assert("id"@[0] == 'i' && "label"@[0] == 'l' && "role"@[0] == 'r' && "created_at"@[0] == 'c'
        && "disabled"@[0] == 'd' && "secret"@[0] == 's' && "hash"@[0] == 'h');
    reveal_with_fuel(crate::json::lookup, 7);
    let f0 = keys::info_json(i)->Object_0;
    let f1 = f0.skip(1);
    let f2 = f1.skip(1);
    let f3 = f2.skip(1);
    let f4 = f3.skip(1);
    assert(f1[0] == f0[1] && f2[0] == f0[2] && f3[0] == f0[3] && f4[0] == f0[4]);
    let g0 = keys::created_json(i, secret)->Object_0;
    let g1 = g0.skip(1);
    let g2 = g1.skip(1);
    let g3 = g2.skip(1);
    let g4 = g3.skip(1);
    let g5 = g4.skip(1);
    assert(g0[0] == f0[0] && g1[0] == f0[1] && g2[0] == f0[2] && g3[0] == f0[3] && g4[0] == f0[4]);
    assert(g5[0] == ("secret"@, crate::json::JsonView::Text(secret)));
}

/// The keys of a file are those of its document, a missing file has none, and any other
/// reading is an error on the server's side.
pub proof fn law_reading_of_the_file(read: FileRead)
    ensures
        match read {
            FileRead::Document(file) => keys::loaded(read) is Ok && keys::loaded(read)->Ok_0
                == file@,
            FileRead::Missing => keys::loaded(read) is Ok && keys::loaded(read)->Ok_0.len() == 0,
            FileRead::Malformed(e) => keys::loaded(read) == Err::<
                Seq<KeyEntryView>,
                ApiErrorView,
            >(ApiErrorView::Internal("parse keys file: "@ + e@)),
            FileRead::Failed(e) => keys::loaded(read) == Err::<Seq<KeyEntryView>, ApiErrorView>(
                ApiErrorView::Internal("read keys file: "@ + e@),
            ),
        },
{
}

// --- Changes ----------------------------------------------------------------

/// A new key stands behind the others, which are as they were. It is enabled, has the
/// label, the role and the hash of the secret, and that is told of it.
pub proof fn law_new_key_is_added(
    keys: Seq<KeyEntryView>,
    label: Seq<char>,
    role: Role,
    secret: Seq<char>,
    file: Seq<KeyEntryView>,
    info: KeyInfoView,
)
    requires
        keys::adds_key(keys, label, role, secret, file, info),
    ensures
        file.len() == keys.len() + 1,
        file.drop_last() == keys,
        file.last().label == label,
        file.last().role == role,
        file.last().hash == keys::key_hash(secret),
        !file.last().disabled,
        file.last().id.len() == 8,
        info.id == file.last().id,
        info.label == label,
        info.role == role,
        info.created_at == file.last().created_at,
        !info.disabled,
{
    let e = choose|e: KeyEntryView| #[trigger]
        keys::new_entry(e, label, role, secret) && file == keys.push(e) && info == keys::info_of(
            e,
        );
    keys::lemma_drawn(e.id, 6);
    assert(file.drop_last() =~= keys);
}

/// Whether `after` is `before` but for the flag and the role of the first key with an
/// id, which are these.
pub open spec fn changed_at_first(
    before: Seq<KeyEntryView>,
    id: Seq<char>,
    after: Seq<KeyEntryView>,
    disabled: Option<bool>,
    role: Option<Role>,
) -> bool {
    exists|i: int|
        {
            &&& 0 <= i < before.len()
            &&& (#[trigger] before[i]).id == id
            &&& forall|j: int| 0 <= j < i ==> (#[trigger] before[j]).id != id
            &&& after.len() == before.len()
            &&& forall|j: int| 0 <= j < before.len() && j != i ==> after[j] == #[trigger] before[j]
            &&& after[i].id == id
            &&& after[i].label == before[i].label
            &&& after[i].hash == before[i].hash
            &&& after[i].created_at == before[i].created_at
            &&& after[i].disabled == match disabled {
                Some(d) => d,
                None => before[i].disabled,
            }
            &&& after[i].role == match role {
                Some(r) => r,
                None => before[i].role,
            }
        }
}

/// A change to a key is a change of its flag or of its role, of nothing else and of no
/// other key, and is refused exactly where no key has the id.
pub proof fn law_change_is_to_one_key(
    keys: Seq<KeyEntryView>,
    id: Seq<char>,
    edit: Edit,
    r: Result<Staged<KeyInfo>, ApiError>,
)
    requires
        keys::edit_staged(keys, id, edit, r),
    ensures
        r matches Ok(staged) ==> changed_at_first(
            keys,
            id,
            staged.file@,
            match edit {
                Edit::Disabled(d) => Some(d),
                Edit::Role(_) => None,
            },
            match edit {
                Edit::Disabled(_) => None,
                Edit::Role(role) => Some(role),
            },
        ) && staged.value@.id == id && (edit matches Edit::Disabled(d) ==> staged.value@.disabled
            == d) && (edit matches Edit::Role(role) ==> staged.value@.role == role),
        r is Err <==> forall|k: int| 0 <= k < keys.len() ==> (#[trigger] keys[k]).id != id,
        r matches Err(e) ==> e@ == ApiErrorView::BadRequest("no key with id "@ + id),
{
    if let Ok(staged) = r {
        let i = choose|i: int| #[trigger]
            keys::first_with_id(keys, id, i) && staged.file@ == keys.update(
                i,
                keys::edited(keys[i], edit),
            ) && staged.value@ == keys::info_of(keys::edited(keys[i], edit));
        assert(keys[i].id == id);
    }
}

proof fn lemma_cli_edit(
    keys: Seq<KeyEntryView>,
    id: Seq<char>,
    disabled: bool,
    r: Result<CliOutcome, ApiError>,
)
    requires
        key_cli::edit_decided(keys, id, disabled, r),
    ensures
        r matches Ok(outcome) ==> outcome@.save is Some && changed_at_first(
            keys,
            id,
            outcome@.save->0,
            Some(disabled),
            None,
        ),
        r is Err <==> forall|k: int| 0 <= k < keys.len() ==> (#[trigger] keys[k]).id != id,
{
    if let Ok(outcome) = r {
        let i = choose|i: int| #[trigger]
            keys::first_with_id(keys, id, i) && outcome@ == key_cli::edit_outcome(
                keys,
                id,
                disabled,
                i,
            );
        assert(keys[i].id == id);
        let after = outcome@.save->0;
        assert(after == keys.update(i, keys::edited(keys[i], Edit::Disabled(disabled))));
    }
}

/// After a key was enabled on the command line, the first key with its id in the file that
/// is written is not disabled; after it was disabled, it is. Nothing else in the file has
/// changed, and it is refused exactly where no key has the id.
pub proof fn law_command_line_sets_the_flag(
    keys: Seq<KeyEntryView>,
    cmd: KeysCmd,
    r: Result<CliOutcome, ApiError>,
)
    requires
        key_cli::decided(cmd, keys, r),
    ensures
        cmd matches KeysCmd::Enable { id } ==> {
            &&& r matches Ok(outcome) ==> outcome@.save is Some && changed_at_first(
                keys,
                id@,
                outcome@.save->0,
                Some(false),
                None,
            ) && outcome@.lines == seq!["Enabled key id="@ + id@]
            &&& r is Err <==> forall|k: int| 0 <= k < keys.len() ==> (#[trigger] keys[k]).id != id@
        },
        cmd matches KeysCmd::Disable { id } ==> {
            &&& r matches Ok(outcome) ==> outcome@.save is Some && changed_at_first(
                keys,
                id@,
                outcome@.save->0,
                Some(true),
                None,
            ) && outcome@.lines == seq!["Disabled key id="@ + id@]
            &&& r is Err <==> forall|k: int| 0 <= k < keys.len() ==> (#[trigger] keys[k]).id != id@
        },
{
    reveal_strlit("Enabled");
    reveal_strlit("Disabled");
    reveal_strlit(" key id=");
    reveal_strlit("Enabled key id=");
    reveal_strlit("Disabled key id=");
    assert("Enabled"@ + " key id="@ =~= "Enabled key id="@);
    assert("Disabled"@ + " key id="@ =~= "Disabled key id="@);
    match cmd {
        KeysCmd::Enable { id } => lemma_cli_edit(keys, id@, false, r),
        KeysCmd::Disable { id } => lemma_cli_edit(keys, id@, true, r),
        _ => {},
    }
}

/// Once a key was enabled on the command line, its secret is accepted; once the only key
/// with a secret was disabled, it is refused.
pub proof fn law_enabled_secret_is_accepted(
    keys: Seq<KeyEntryView>,
    id: Seq<char>,
    r: Result<CliOutcome, ApiError>,
    cmd: KeysCmd,
    i: int,
)
    requires
        key_cli::decided(cmd, keys, r),
        r is Ok,
        keys::first_with_id(keys, id, i),
    ensures
        cmd matches KeysCmd::Enable { id: of } && of@ == id ==> !keys::unknown_hash(
            r->Ok_0@.save->0,
            keys[i].hash,
        ),
        cmd matches KeysCmd::Disable { id: of } && of@ == id && (forall|j: int|
            0 <= j < keys.len() && j != i ==> (#[trigger] keys[j]).hash != keys[i].hash)
            ==> keys::unknown_hash(r->Ok_0@.save->0, keys[i].hash),
{
    law_command_line_sets_the_flag(keys, cmd, r);
    let file = r->Ok_0@.save->0;
    match cmd {
        KeysCmd::Enable { id: of } => {
            if of@ == id {
                assert(changed_at_first(keys, id, file, Some(false), None));
                let k = choose|k: int|
                    {
                        &&& 0 <= k < keys.len()
                        &&& (#[trigger] keys[k]).id == id
                        &&& forall|j: int| 0 <= j < k ==> (#[trigger] keys[j]).id != id
                        &&& file.len() == keys.len()
                        &&& file[k].hash == keys[k].hash
                        &&& file[k].disabled == false
                    };
                assert(k == i);
                assert(keys::matches_hash(file[i], keys[i].hash));
            }
        },
        KeysCmd::Disable { id: of } => {
            if of@ == id && (forall|j: int|
                0 <= j < keys.len() && j != i ==> (#[trigger] keys[j]).hash != keys[i].hash) {
                assert(changed_at_first(keys, id, file, Some(true), None));
                let k = choose|k: int|
                    {
                        &&& 0 <= k < keys.len()
                        &&& (#[trigger] keys[k]).id == id
                        &&& forall|j: int| 0 <= j < k ==> (#[trigger] keys[j]).id != id
                        &&& file.len() == keys.len()
                        &&& file[k].disabled == true
                        &&& forall|j: int|
                            0 <= j < keys.len() && j != k ==> file[j] == #[trigger] keys[j]
                    };
                assert(k == i);
                assert forall|j: int| 0 <= j < file.len() implies !keys::matches_hash(
                    #[trigger] file[j],
                    keys[i].hash,
                ) by {
                    if j != i {
                        assert(file[j] == keys[j]);
                    }
                }
            }
        },
        _ => {},
    }
}

/// A key that was made on the command line stands behind the others in the file, enabled,
/// with the label and the role; its id and its secret are printed, and the secret that is
/// printed is accepted.
pub proof fn law_command_line_makes_a_key(
    keys: Seq<KeyEntryView>,
    label: String,
    role: Role,
    r: Result<CliOutcome, ApiError>,
)
    requires
        key_cli::decided(KeysCmd::Create { label, role }, keys, r),
    ensures
        r is Ok,
        r->Ok_0@.save is Some,
        ({
            let file = r->Ok_0@.save->0;
            let lines = r->Ok_0@.lines;
            &&& file.len() == keys.len() + 1
            &&& file.drop_last() == keys
            &&& file.last().label == label@
            &&& file.last().role == role
            &&& !file.last().disabled
            &&& lines.len() == 2
            &&& lines[0] == "Created key id="@ + file.last().id + " label="@ + label@ + " role="@ + (
            if role == Role::Admin {
                "admin"@
            } else {
                "render"@
            })
            &&& exists|secret: Seq<char>|
                lines[1] == #[trigger] ("Secret (shown once, store it now):\n"@ + secret)
                    && secret.len() == 43 && file.last().hash == keys::key_hash(secret)
                    && !keys::unknown_hash(file, keys::key_hash(secret))
        }),
{
    let (id, secret, at) = choose|id: Seq<char>, secret: Seq<char>, at: u64| #[trigger]
        key_cli::created(keys, label@, role, id, secret, at) == r->Ok_0@ && keys::drawn(id, 6)
            && keys::drawn(secret, 32);
    let c = key_cli::created(keys, label@, role, id, secret, at);
    let file = c.save->0;
    keys::lemma_drawn(secret, 32);
    assert(file.drop_last() =~= keys);
    assert(keys::matches_hash(file[keys.len() as int], keys::key_hash(secret)));
    assert(c.lines[1] == "Secret (shown once, store it now):\n"@ + secret);
}

/// A key that was deleted on the command line is gone from the file, with all that have its
/// id, and no other is; it is refused exactly where no key has the id.
pub proof fn law_command_line_deletes(
    keys: Seq<KeyEntryView>,
    id: String,
    r: Result<CliOutcome, ApiError>,
)
    requires
        key_cli::decided(KeysCmd::Delete { id }, keys, r),
    ensures
        r is Err <==> forall|k: int| 0 <= k < keys.len() ==> (#[trigger] keys[k]).id != id@,
        r matches Ok(outcome) ==> outcome@.save is Some && outcome@.lines == seq![
            "Deleted key id="@ + id@,
        ] && forall|e: KeyEntryView| #[trigger]
            outcome@.save->0.contains(e) <==> keys.contains(e) && e.id != id@,
        r matches Err(e) ==> e@ == ApiErrorView::BadRequest("no key with id "@ + id@),
{
    law_deletion_keeps_the_others(keys, id@);
}

/// Deleting an id keeps exactly the keys with other ids, in their order.
pub proof fn law_deletion_keeps_the_others(keys: Seq<KeyEntryView>, id: Seq<char>)
    ensures
        forall|e: KeyEntryView| #[trigger]
            keys::without_id(keys, id).contains(e) <==> keys.contains(e) && e.id != id,
        keys.len() == 0 ==> keys::without_id(keys, id).len() == 0,
        keys.len() > 0 ==> keys::without_id(keys, id) == if keys.last().id == id {
            keys::without_id(keys.drop_last(), id)
        } else {
            keys::without_id(keys.drop_last(), id).push(keys.last())
        },
    decreases keys.len(),
{
    reveal(Seq::filter);
    let kept = keys::without_id(keys, id);
    if keys.len() > 0 {
        let front = keys.drop_last();
        law_deletion_keeps_the_others(front, id);
        let kf = keys::without_id(front, id);
        assert forall|e: KeyEntryView| #[trigger] kept.contains(e) <==> keys.contains(e) && e.id
            != id by {
            assert(keys =~= front.push(keys.last()));
            if keys.contains(e) {
                let k = choose|k: int| 0 <= k < keys.len() && keys[k] == e;
                if k < front.len() {
                    assert(front[k] == e);
                    assert(front.contains(e));
                }
            }
            if front.contains(e) {
                let k = choose|k: int| 0 <= k < front.len() && front[k] == e;
                assert(keys[k] == e);
            }
            if keys.last().id != id {
                assert(kept == kf.push(keys.last()));
                if kf.contains(e) {
                    let k = choose|k: int| 0 <= k < kf.len() && kf[k] == e;
                    assert(kept[k] == e);
                }
                if e == keys.last() {
                    assert(kept[kf.len() as int] == e);
                    assert(keys[keys.len() - 1] == e);
                }
                if kept.contains(e) {
                    let k = choose|k: int| 0 <= k < kept.len() && kept[k] == e;
                    if k < kf.len() {
                        assert(kf[k] == e);
                    }
                }
            }
        }
    }
}

/// A list on the command line writes nothing and has one line for each key, in their order,
/// or says that there are none.
pub proof fn law_command_line_lists(keys: Seq<KeyEntryView>, r: Result<CliOutcome, ApiError>)
    requires
        key_cli::decided(KeysCmd::List, keys, r),
    ensures
        r is Ok,
        r->Ok_0@.save is None,
        keys.len() == 0 ==> r->Ok_0@.lines == seq!["(no keys)"@],
        keys.len() > 0 ==> r->Ok_0@.lines.len() == keys.len() && forall|i: int|
            0 <= i < keys.len() ==> #[trigger] r->Ok_0@.lines[i] == key_cli::list_line(
                keys[i].id,
                keys[i].label,
                if keys[i].role == Role::Admin {
                    "admin"@
                } else {
                    "render"@
                },
                keys[i].created_at,
                keys[i].disabled,
            ),
{
}

/// Where the column behind a text starts that is at least so wide.
pub open spec fn column_end(start: int, s: Seq<char>, width: int) -> int {
    if s.len() < width {
        start + width
    } else {
        start + s.len()
    }
}

/// The line about a key has its id, label and role in columns, whole however long they are,
/// then its time, which is read back, and its status.
pub proof fn law_columns_of_a_line(
    id: Seq<char>,
    label: Seq<char>,
    role: Seq<char>,
    created_at: u64,
    disabled: bool,
)
    ensures
        ({
            let line = key_cli::list_line(id, label, role, created_at, disabled);
            let b = column_end(0, id, 12) + 1;
            let c = column_end(b, label, 24) + 1;
            let d = column_end(c, role, 8);
            let time = line.skip(d + 9);
            let status = if disabled {
                "disabled"@
            } else {
                "active"@
            };
            &&& line.len() > d + 9
            &&& line.subrange(0, id.len() as int) == id
            &&& forall|i: int| id.len() <= i < b ==> #[trigger] line[i] == ' '
            &&& line.subrange(b, b + label.len()) == label
            &&& forall|i: int| b + label.len() <= i < c ==> #[trigger] line[i] == ' '
            &&& line.subrange(c, c + role.len()) == role
            &&& forall|i: int| c + role.len() <= i < d ==> #[trigger] line[i] == ' '
            &&& line.subrange(d, d + 9) == " created="@
            &&& exists|n: int|
                0 < n <= time.len() && #[trigger] reading::number_value(time.take(n), 10)
                    == created_at && reading::all_decimal(time.take(n)) && time[n] == ' '
                    && time.skip(
                    if n < 12 {
                        13
                    } else {
                        n + 1
                    },
                ) == status
        }),
{
    let line = key_cli::list_line(id, label, role, created_at, disabled);
    let t = text::decimal_text(created_at as nat);
    let p1 = text::padded(id, 12);
    let p2 = text::padded(label, 24);
    let p3 = text::padded(role, 8);
    let p4 = text::padded(t, 12);
    let status = if disabled {
        "disabled"@
    } else {
        "active"@
    };
    let b = column_end(0, id, 12) + 1;
    let c = column_end(b, label, 24) + 1;
    let d = column_end(c, role, 8);
    reveal_strlit(" ");
    reveal_strlit(" created=");
    reading::law_decimal_is_read_back(created_at as nat);
    assert(p1.len() == b - 1 && p2.len() == c - 1 - b && p3.len() == d - c);
    assert(line == p1 + " "@ + p2 + " "@ + p3 + " created="@ + p4 + " "@ + status);
    assert(line.subrange(0, id.len() as int) =~= id);
    assert(line.subrange(b, b + label.len()) =~= label);
    assert(line.subrange(c, c + role.len()) =~= role);
    assert(line.subrange(d, d + 9) =~= " created="@);
    let time = line.skip(d + 9);
    assert(time =~= p4 + " "@ + status);
    let n = t.len() as int;
    assert(time.take(n) =~= t);
    assert(time[n] == ' ');
    assert(reading::number_value(time.take(n), 10) == created_at);
    assert(time.skip(p4.len() as int + 1) =~= status);
}

// --- Writing the file -------------------------------------------------------

/// The steps of writing the file follow one another: the directory, the text, the temporary
/// file, and last the move over the file; the first that fails ends it, and is told with
/// the reason.
pub proof fn law_steps_of_saving(e: Seq<char>)
    ensures
        keys::save_after(SaveView::CreateDir, None) is Serialize,
        keys::save_after(SaveView::Serialize, None) is WriteTemporary,
        keys::save_after(SaveView::WriteTemporary, None) is Rename,
        keys::save_after(SaveView::Rename, None) == SaveView::Finished(Ok(())),
        keys::save_after(SaveView::CreateDir, Some(e)) == SaveView::Finished(
            Err(ApiErrorView::Internal("create keys dir: "@ + e)),
        ),
        keys::save_after(SaveView::Serialize, Some(e)) == SaveView::Finished(
            Err(ApiErrorView::Internal("serialize keys: "@ + e)),
        ),
        keys::save_after(SaveView::WriteTemporary, Some(e)) == SaveView::Finished(
            Err(ApiErrorView::Internal("write keys tmp: "@ + e)),
        ),
        keys::save_after(SaveView::Rename, Some(e)) == SaveView::Finished(
            Err(ApiErrorView::Internal("rename keys: "@ + e)),
        ),
{
}

/// Once writing has ended, nothing changes any more.
pub proof fn law_end_of_saving_stays(
    done: Result<(), ApiErrorView>,
    failed: Option<Seq<char>>,
)
    ensures
        keys::save_after(SaveView::Finished(done), failed) == SaveView::Finished(done),
{
}

/// What is drawn can stand in a URL as it is: it has letters, digits, hyphens and
/// underscores, and no two draws of as many bytes have the same text.
pub proof fn law_drawn_texts(a: Seq<u8>, b: Seq<u8>)
    requires
        a.len() == b.len(),
        crypto::base64url(a) == crypto::base64url(b),
    ensures
        a == b,
        keys::drawn(crypto::base64url(a), a.len()),
        forall|i: int|
            0 <= i < crypto::base64url(a).len() ==> {
                let c = #[trigger] crypto::base64url(a)[i];
                'A' <= c <= 'Z' || 'a' <= c <= 'z' || '0' <= c <= '9' || c == '-' || c == '_'
            },
{
    crypto::law_base64url_keeps_every_byte(a, b);
    assert forall|i: int| 0 <= i < crypto::base64url(a).len() implies {
        let c = #[trigger] crypto::base64url(a)[i];
        'A' <= c <= 'Z' || 'a' <= c <= 'z' || '0' <= c <= '9' || c == '-' || c == '_'
    } by {
        crypto::lemma_base64url_alphabet(a, i);
    }
}

/// A text can stand in a URL as it is exactly where it has no other characters.
pub proof fn law_url_safe_texts(s: Seq<char>)
    ensures
        keys::url_safe(s) <==> forall|i: int|
            0 <= i < s.len() ==> {
                let c = #[trigger] s[i];
                ||| 'A' <= c <= 'Z'
                ||| 'a' <= c <= 'z'
                ||| '0' <= c <= '9'
                ||| c == '-'
                ||| c == '_'
            },
{
}

} // verus!
