use trickshot::client::admin;
use trickshot::client::admin::KeysCmd;
use trickshot::client::admin::Method;
use trickshot::client::admin::Status;
use trickshot::client::config::auth;
use trickshot::client::config::config_base;
use trickshot::client::config::read_arg;
use trickshot::client::config::reads_stdin;
use trickshot::client::config::resolve;
use trickshot::client::config::resolve_admin;
use trickshot::client::config::servers;
use trickshot::client::config::set_default;
use trickshot::client::config::Config;
use trickshot::client::config::ConfigBase;
use trickshot::client::config::Listing;
use trickshot::client::shot::checked_shot_url;
use trickshot::client::shot::endpoint;
use trickshot::client::shot::fetch_shot;
use trickshot::client::shot::output_target;
use trickshot::client::shot::page;
use trickshot::client::shot::shot_pairs;
use trickshot::client::shot::shot_url;
use trickshot::client::shot::wrote;
use trickshot::client::shot::Output;
use trickshot::client::shot::Shot;
use trickshot::client::ClientError;
use trickshot::json::Json;
use trickshot::target::Url;

fn pair(a: &str, b: &str) -> (String, String) {
    (a.to_string(), b.to_string())
}

fn some(s: &str) -> Option<String> {
    Some(s.to_string())
}

// --- JSON -------------------------------------------------------------------

#[test]
fn documents_are_read() {
    let v = Json::parse(br#"{"a":"x","n":7,"m":-1,"b":true,"l":[null,"y"],"o":{"p":"q"}}"#).unwrap();
    assert_eq!(v.get_text("a"), some("x"));
    assert_eq!(v.get_text("n"), None);
    assert_eq!(v.get_number("n"), Some(7));
    assert_eq!(v.get_number("m"), None);
    assert_eq!(v.get_bool("b"), Some(true));
    assert_eq!(v.get_bool("a"), None);
    assert_eq!(v.get("o").unwrap().get_text("p"), some("q"));
    match v.get("l") {
        Some(Json::List(items)) => {
            assert!(matches!(items[0], Json::Null));
            assert!(matches!(&items[1], Json::Text(t) if t == "y"));
        }
        other => panic!("{other:?}"),
    }
    assert!(v.get("zz").is_none());
    assert!(Json::parse(b"[1]").unwrap().get("a").is_none());
    assert_eq!(Json::parse(b"").unwrap_err(), "EOF while parsing a value at line 1 column 0");
}

#[test]
fn documents_are_written() {
    let v = Json::Object(vec![
        ("a".to_string(), Json::Text("q\"\n\u{e9}".to_string())),
        ("b".to_string(), Json::List(vec![Json::Null, Json::Bool(true), Json::Number(Some(3))])),
        ("c".to_string(), Json::Object(vec![])),
    ]);
    let text = v.to_pretty();
    assert_eq!(
        text,
        "{\n  \"a\": \"q\\\"\\n\u{e9}\",\n  \"b\": [\n    null,\n    true,\n    3\n  ],\n  \"c\": {}\n}"
    );
    assert_eq!(format!("{:?}", Json::parse(text.as_bytes()).unwrap()), format!("{v:?}"));
}

// --- Configuration ----------------------------------------------------------

fn two_servers() -> Config {
    let c = Config::load(None, "p").unwrap();
    let (c, _) = auth(c, "https://prod.example.com//", "k1".to_string(), Some("prod"));
    let (c, _) = auth(c, "http://dev:8900", "k2".to_string(), Some("dev"));
    c
}

fn lines(c: &Config) -> Vec<String> {
    match servers(c) {
        Listing::Lines(lines) => lines,
        Listing::Empty(said) => vec![said],
    }
}

#[test]
fn saved_servers_are_loaded_again() {
    let c = two_servers();
    let text = c.save();
    let again = Config::load(Some(&text), "p").unwrap();
    assert_eq!(again.default_server(), Some("prod"));
    assert_eq!(lines(&again), lines(&c));
    assert_eq!(again.select(Some("dev")).unwrap(), pair("http://dev:8900", "k2"));
    assert_eq!(again.save(), text);
    assert_eq!(
        text,
        "{\n  \"default\": \"prod\",\n  \"servers\": {\n    \"dev\": {\n      \"key\": \"k2\",\n      \
         \"url\": \"http://dev:8900\"\n    },\n    \"prod\": {\n      \"key\": \"k1\",\n      \"url\": \
         \"https://prod.example.com\"\n    }\n  }\n}"
    );
}

#[test]
fn no_name_of_a_server_is_special() {
    for name in ["$serde_json::private::RawValue", "$serde_json::private::Number", "", "\"\n"] {
        let (c, _) = auth(two_servers(), "http://r", "k9".to_string(), Some(name));
        let again = Config::load(Some(&c.save()), "p").unwrap();
        assert_eq!(again.len(), 3);
        assert_eq!(again.select(Some(name)).unwrap(), pair("http://r", "k9"));
        assert_eq!(again.select(Some("dev")).unwrap(), pair("http://dev:8900", "k2"));
        assert_eq!(lines(&again), lines(&c));
    }
    let v = Json::parse(br#"{"$serde_json::private::RawValue":"1"}"#).unwrap();
    assert_eq!(v.get_text("$serde_json::private::RawValue"), some("1"));
}

#[test]
fn documents_may_not_be_nested_too_deep() {
    let deep = |n: usize| format!("{}{}", "[".repeat(n), "]".repeat(n));
    assert!(Json::parse(deep(127).as_bytes()).is_ok());
    assert!(Json::parse(deep(128).as_bytes()).unwrap_err().starts_with("recursion limit exceeded"));
    assert!(Json::parse(deep(100_000).as_bytes()).is_err());
    let inner = deep(120).replace('"', "\\\"");
    let doc = format!("{{\"$serde_json::private::RawValue\":\"{inner}\"}}");
    assert!(matches!(Json::parse(doc.as_bytes()), Ok(Json::Object(_))));
}

#[test]
fn servers_are_listed_in_order() {
    assert_eq!(
        lines(&two_servers()),
        vec!["  dev          http://dev:8900", "* prod         https://prod.example.com"]
    );
    assert_eq!(
        lines(&Config::empty()),
        vec!["(no servers configured \u{2014} run `ts auth URL KEY`)"]
    );
}

#[test]
fn unusable_servers_are_left_out() {
    let text = r#"{"default":1,"servers":{"a":{"url":"u"},"b":{"url":"u","key":"k"},"c":7}}"#;
    let c = Config::load(Some(text), "p").unwrap();
    assert_eq!(c.default_server(), None);
    assert_eq!(c.len(), 1);
    // The only server needs no name.
    assert_eq!(c.select(None).unwrap(), pair("u", "k"));
    let c = Config::load(Some("[]"), "p").unwrap();
    assert_eq!(c.len(), 0);
    let e = Config::load(Some("{"), "/c.json").err().unwrap();
    assert_eq!(
        e.0,
        "invalid JSON in /c.json: EOF while parsing an object at line 1 column 1"
    );
}

#[test]
fn servers_are_selected() {
    let c = two_servers();
    assert_eq!(c.select(None).unwrap(), pair("https://prod.example.com", "k1"));
    assert_eq!(c.select(Some("dev")).unwrap(), pair("http://dev:8900", "k2"));
    assert_eq!(
        c.select(Some("x")).unwrap_err().0,
        "no server named 'x': run `ts auth URL KEY x`"
    );
    assert_eq!(
        Config::empty().select(None).unwrap_err().0,
        "no server selected: set a default with `ts default NAME`, pass --server, or set \
         TRICKSHOT_URL/TRICKSHOT_API_KEY"
    );
}

#[test]
fn saving_replaces_a_server() {
    let (c, said) = auth(two_servers(), "http://new/", "k3".to_string(), Some("dev"));
    assert_eq!(said, "ts: saved server 'dev'");
    assert_eq!(c.len(), 2);
    assert_eq!(c.default_server(), Some("prod"));
    assert_eq!(c.select(Some("dev")).unwrap(), pair("http://new", "k3"));
    assert_eq!(c.select(Some("prod")).unwrap(), pair("https://prod.example.com", "k1"));
    let (c, said) = auth(Config::empty(), "u", "k".to_string(), None);
    assert_eq!(said, "ts: saved server 'default'");
    assert_eq!(c.default_server(), Some("default"));
    assert_eq!(c.select(None).unwrap(), pair("u", "k"));
}

#[test]
fn default_is_set() {
    let (c, said) = set_default(two_servers(), "dev").unwrap();
    assert_eq!(said, "ts: default server is now 'dev'");
    assert_eq!(c.select(None).unwrap(), pair("http://dev:8900", "k2"));
    let e = set_default(two_servers(), "x").err().unwrap();
    assert_eq!(e.0, "no server named 'x': run `ts auth URL KEY x`");
}

#[test]
fn flags_go_before_the_configuration() {
    let broken = || Err(ClientError::new("broken"));
    assert_eq!(resolve(None, some("u"), some("k"), broken()).unwrap(), pair("u", "k"));
    assert_eq!(resolve(None, some("u"), None, broken()).unwrap_err().0, "broken");
    assert_eq!(
        resolve(Some("dev"), some("u"), some("k"), Ok(two_servers())).unwrap(),
        pair("u", "k")
    );
    assert_eq!(
        resolve(Some("dev"), some("u"), None, Ok(two_servers())).unwrap(),
        pair("u", "k2")
    );
    assert_eq!(
        resolve(None, None, some("k"), Ok(two_servers())).unwrap(),
        pair("https://prod.example.com", "k")
    );
    assert!(resolve(Some("x"), some("u"), some("k"), Ok(two_servers())).is_err());
}

#[test]
fn environment_goes_before_the_configuration() {
    let broken = || Err(ClientError::new("broken"));
    assert_eq!(resolve_admin(None, some("u"), some("k"), broken()).unwrap(), pair("u", "k"));
    assert_eq!(
        resolve_admin(None, some("u"), None, Ok(two_servers())).unwrap(),
        pair("https://prod.example.com", "k1")
    );
    assert_eq!(
        resolve_admin(Some("dev"), some("u"), some("k"), Ok(two_servers())).unwrap(),
        pair("http://dev:8900", "k2")
    );
}

#[test]
fn configuration_file_is_looked_for() {
    assert!(matches!(config_base(Some("x"), Some("h")), ConfigBase::Directory("x")));
    assert!(matches!(config_base(None, Some("h")), ConfigBase::Home("h")));
    assert!(matches!(config_base::<&str>(None, None), ConfigBase::Current));
}

#[test]
fn arguments_come_from_stdin() {
    assert!(reads_stdin("-") && !reads_stdin("--"));
    assert_eq!(read_arg("k", Err("closed".to_string())).unwrap(), "k");
    assert_eq!(read_arg("-", Ok(" \tsecret\n".to_string())).unwrap(), "secret");
    assert_eq!(
        read_arg("-", Err("closed".to_string())).unwrap_err().0,
        "reading stdin: closed"
    );
}

// --- Managing keys ----------------------------------------------------------

fn status(code: u16, text: &str) -> Status {
    Status { code, text: text.to_string() }
}

fn id() -> String {
    "k7".to_string()
}

#[test]
fn subcommands_make_requests() {
    let r = admin::request("https://h/", &KeysCmd::List);
    assert_eq!((r.method, r.url.as_str()), (Method::Get, "https://h/admin/keys"));
    assert!(r.body.is_none());
    let create = KeysCmd::Create { label: "ci".to_string(), role: "admin".to_string() };
    let r = admin::request("https://h", &create);
    assert_eq!((r.method, r.url.as_str()), (Method::Post, "https://h/admin/keys"));
    let body = r.body.unwrap();
    assert_eq!(body.get_text("label"), some("ci"));
    assert_eq!(body.get_text("role"), some("admin"));
    let cases = [
        (KeysCmd::Disable { id: id() }, Method::Post, "https://h/admin/keys/k7/disable", None),
        (KeysCmd::Enable { id: id() }, Method::Post, "https://h/admin/keys/k7/enable", None),
        (KeysCmd::Delete { id: id() }, Method::Delete, "https://h/admin/keys/k7", None),
        (KeysCmd::Promote { id: id() }, Method::Post, "https://h/admin/keys/k7/role", some("admin")),
        (KeysCmd::Demote { id: id() }, Method::Post, "https://h/admin/keys/k7/role", some("render")),
    ];
    for (cmd, method, url, role) in cases {
        let r = admin::request("https://h//", &cmd);
        assert_eq!((r.method, r.url.as_str()), (method, url));
        assert_eq!(r.body.and_then(|b| b.get_text("role")), role);
    }
}

#[test]
fn answers_are_read() {
    let ok = status(200, "200 OK");
    let v = admin::response(&ok, br#"{"id":"a"}"#).unwrap();
    assert_eq!(v.get_text("id"), some("a"));
    assert!(matches!(admin::response(&ok, b""), Ok(Json::Null)));
    let e = admin::response(&status(403, "403 Forbidden"), br#"{"error":"x"}"#).unwrap_err();
    assert_eq!(e.0, "insufficient permission: needs an admin key");
    let e = admin::response(&status(400, "400 Bad Request"), br#"{"error":"no key"}"#).unwrap_err();
    assert_eq!(e.0, "server returned 400 Bad Request: no key");
    let e = admin::response(&status(502, "502 Bad Gateway"), b"oh \xff").unwrap_err();
    assert_eq!(e.0, "server returned 502 Bad Gateway: oh \u{fffd}");
    let e = admin::response(&status(500, "500 X"), br#"{"error":5}"#).unwrap_err();
    assert_eq!(e.0, "server returned 500 X: {\"error\":5}");
}

#[test]
fn answers_are_reported() {
    let create = KeysCmd::Create { label: "ci".to_string(), role: "render".to_string() };
    let v = Json::parse(br#"{"id":"a","label":"ci","role":"render","secret":"s"}"#).unwrap();
    assert_eq!(
        admin::report(&create, &v),
        vec!["Created key id=a label=ci role=render", "Secret (shown once, store it now):\ns"]
    );
    assert_eq!(
        admin::report(&create, &Json::Null),
        vec!["Created key id=? label=? role=?", "Secret (shown once, store it now):\n?"]
    );
    let v = Json::parse(
        br#"[{"id":"a","label":"ci","role":"admin","created_at":5,"disabled":true},{}]"#,
    )
    .unwrap();
    assert_eq!(
        admin::report(&KeysCmd::List, &v),
        vec![
            "a            ci                       admin    created=5            disabled",
            "?            ?                        ?        created=0            active",
        ]
    );
    assert_eq!(admin::report(&KeysCmd::List, &Json::Null), vec!["(no keys)"]);
    assert_eq!(admin::report(&KeysCmd::List, &Json::List(vec![])), vec!["(no keys)"]);
    let said = |cmd: KeysCmd| admin::report(&cmd, &Json::Null).remove(0);
    assert_eq!(said(KeysCmd::Disable { id: id() }), "Disabled key id=k7");
    assert_eq!(said(KeysCmd::Enable { id: id() }), "Enabled key id=k7");
    assert_eq!(said(KeysCmd::Delete { id: id() }), "Deleted key id=k7");
    assert_eq!(said(KeysCmd::Promote { id: id() }), "Promoted key id=k7 to admin");
    assert_eq!(said(KeysCmd::Demote { id: id() }), "Demoted key id=k7 to render");
}

// --- Shots ------------------------------------------------------------------

fn shot() -> Shot {
    Shot {
        url: "https://a.b/?q=1&r=2".to_string(),
        server: "http://h:8900/".to_string(),
        api_key: "k".to_string(),
        width: None,
        height: None,
        dpr: None,
        timeout: None,
        output: None,
        tunnel: false,
    }
}

#[test]
fn shot_urls() {
    let mut s = shot();
    assert_eq!(
        shot_url(&s, None).unwrap(),
        "http://h:8900/shot?url=https%3A%2F%2Fa.b%2F%3Fq%3D1%26r%3D2"
    );
    s.url = "u".to_string();
    s.width = Some(1920);
    s.height = Some(1080);
    s.dpr = some("2");
    s.timeout = Some(9);
    assert_eq!(
        shot_url(&s, Some("t-1")).unwrap(),
        "http://h:8900/shot?url=u&w=1920&height=1080&dpr=2&timeout=9&tunnel=t-1"
    );
    assert_eq!(shot_pairs(&s, None).len(), 5);
    assert_eq!(shot_pairs(&s, Some("t"))[5], pair("tunnel", "t"));
    assert_eq!(endpoint("http://x//"), "http://x/shot");
    s.server = "nowhere".to_string();
    assert_eq!(
        shot_url(&s, None).unwrap_err().0,
        "invalid server url: relative URL without a base"
    );
}

#[test]
fn shot_urls_that_fit_are_the_same() {
    let mut s = shot();
    s.url = "x".repeat(0x10_0000);
    let url = checked_shot_url(&s, Some("t")).unwrap().unwrap();
    assert_eq!(url, shot_url(&s, Some("t")).unwrap());
    assert!(url.len() > 0x10_0000);
    s.server = "nowhere".to_string();
    assert!(checked_shot_url(&s, None).unwrap().is_err());
}

#[test]
fn shots_are_fetched() {
    assert_eq!(fetch_shot(&status(200, "200 OK"), vec![1, 2]).unwrap(), vec![1, 2]);
    let e = fetch_shot(&status(401, "401 Unauthorized"), br#"{"error":"invalid api key"}"#.to_vec())
        .unwrap_err();
    assert_eq!(e.0, "server returned 401 Unauthorized: invalid api key");
    let e = fetch_shot(&status(403, "403 Forbidden"), b"no".to_vec()).unwrap_err();
    assert_eq!(e.0, "server returned 403 Forbidden: no");
}

#[test]
fn pages_are_needed() {
    assert_eq!(page(Some("http://h")).unwrap().href, "http://h/");
    assert_eq!(
        page(Some("h")).unwrap_err().0,
        "invalid url: h: relative URL without a base"
    );
    assert_eq!(
        page(None).unwrap_err().0,
        "missing <url>: `ts <url>` or a subcommand (see `ts --help`)"
    );
}

#[test]
fn images_go_somewhere() {
    let file = |o: Output| match o {
        Output::File(path) => path,
        Output::Stdout => "stdout".to_string(),
    };
    let p = Url::parse("http://example.com/x").unwrap();
    assert_eq!(file(output_target(None, &p)), "example.com.png");
    assert_eq!(file(output_target(Some("a.png"), &p)), "a.png");
    assert_eq!(file(output_target(Some("-"), &p)), "stdout");
    let p = Url::parse("data:,x").unwrap();
    assert_eq!(file(output_target(None, &p)), "shot.png");
    assert_eq!(wrote("a.png", 1234), "ts: wrote a.png (1234 bytes)");
}
