//! The servers that the client knows, with their keys, as they stand in its
//! configuration file:
//!
//! ```json
//! {"default":"prod","servers":{"prod":{"url":"https://…","key":"…"}}}
//! ```

use vstd::prelude::*;

use crate::client;
use crate::client::ClientError;
use crate::json;
use crate::json::Json;
use crate::json::JsonView;
use crate::text;

verus! {

/// A server with its key.
#[derive(Debug)]
pub struct Server {
    pub name: String,
    pub url: String,
    pub key: String,
}

/// A [`Server`] with its texts as character sequences.
pub struct ServerView {
    pub name: Seq<char>,
    pub url: Seq<char>,
    pub key: Seq<char>,
}

impl View for Server {
    type V = ServerView;

    open spec fn view(&self) -> ServerView {
        ServerView { name: self.name@, url: self.url@, key: self.key@ }
    }
}

/// The views of a list of servers.
pub open spec fn servers_view(servers: Seq<Server>) -> Seq<ServerView> {
    servers.map_values(|s: Server| s@)
}

/// The configuration of the client.
#[derive(Debug)]
pub struct Config {
    /// The server that is used where none is named.
    default: Option<String>,
    /// The servers in the order of their names.
    servers: Vec<Server>,
}

impl Config {
    #[verifier::type_invariant]
    spec fn in_order(self) -> bool {
        sorted(servers_view(self.servers@))
    }
}

/// A [`Config`] over sequences.
#[verifier::ext_equal]
pub struct ConfigView {
    pub default: Option<Seq<char>>,
    pub servers: Seq<ServerView>,
}

impl View for Config {
    type V = ConfigView;

    closed spec fn view(&self) -> ConfigView {
        ConfigView { default: text::opt_text(self.default), servers: servers_view(self.servers@) }
    }
}

/// Whether servers are in the order of their names, and no name occurs twice.
pub open spec fn sorted(servers: Seq<ServerView>) -> bool {
    forall|i: int, j: int|
        0 <= i < j < servers.len() ==> text::precedes(
            (#[trigger] servers[i]).name,
            (#[trigger] servers[j]).name,
        )
}

impl ConfigView {
    /// Whether the servers are in order.
    pub open spec fn wf(self) -> bool {
        sorted(self.servers)
    }
}

/// Whether `servers[i]` has this name.
pub open spec fn named(servers: Seq<ServerView>, name: Seq<char>, i: int) -> bool {
    0 <= i < servers.len() && servers[i].name == name
}

/// The URL and the key of the server with a name.
pub open spec fn entry(servers: Seq<ServerView>, name: Seq<char>) -> Option<
    (Seq<char>, Seq<char>),
> {
    if exists|i: int| named(servers, name, i) {
        let i = choose|i: int| named(servers, name, i);
        Some((servers[i].url, servers[i].key))
    } else {
        None
    }
}

proof fn lemma_entry(servers: Seq<ServerView>, name: Seq<char>, i: int)
    requires
        sorted(servers),
        named(servers, name, i),
    ensures
        entry(servers, name) == Some((servers[i].url, servers[i].key)),
{
    let k = choose|k: int| named(servers, name, k);
    text::lemma_precedes_irreflexive(name);
    assert(k == i);
}

/// The servers with one more, or another one in the place of the one with its
/// name.
pub open spec fn with_server(
    before: Seq<ServerView>,
    s: ServerView,
    after: Seq<ServerView>,
) -> bool {
    &&& sorted(after)
    &&& forall|name: Seq<char>| #[trigger]
        entry(after, name) == if name == s.name {
            Some((s.url, s.key))
        } else {
            entry(before, name)
        }
}

fn insert_server(servers: &mut Vec<Server>, s: Server)
    requires
        sorted(servers_view(old(servers)@)),
    ensures
        with_server(servers_view(old(servers)@), s@, servers_view(final(servers)@)),
{
    let ghost before = servers_view(servers@);
    let ghost list = servers@;
    let ghost sv = s@;
    let mut i: usize = 0;
    while i < servers.len() && text::before(&servers[i].name, &s.name)
        invariant
            i <= servers@.len(),
            servers@ == list,
            before == servers_view(list),
            sv == s@,
            forall|k: int| 0 <= k < i ==> text::precedes((#[trigger] before[k]).name, sv.name),
        ensures
            i <= servers@.len(),
            servers@ == list,
            forall|k: int| 0 <= k < i ==> text::precedes((#[trigger] before[k]).name, sv.name),
            i < servers@.len() ==> !text::precedes(before[i as int].name, sv.name),
        decreases servers@.len() - i,
    {
        assert(before[i as int] == servers@[i as int]@);
        i = i + 1;
    }
    if i < servers.len() && text::str_eq(&servers[i].name, &s.name) {
        servers.set(i, s);
        let ghost after = servers_view(servers@);
        proof {
            assert(after =~= before.update(i as int, sv));
            assert forall|a: int, b: int| 0 <= a < b < after.len() implies text::precedes(
                (#[trigger] after[a]).name,
                (#[trigger] after[b]).name,
            ) by {
                assert(before[a].name == after[a].name && before[b].name == after[b].name);
            }
            lemma_replaced(before, sv, i as int, after);
        }
    } else {
        servers.insert(i, s);
        let ghost after = servers_view(servers@);
        proof {
            assert(after =~= before.insert(i as int, sv));
            if i < list.len() {
                text::lemma_precedes_total(before[i as int].name, sv.name);
            }
            lemma_inserted(before, sv, i as int, after);
        }
    }
}

proof fn lemma_replaced(before: Seq<ServerView>, s: ServerView, i: int, after: Seq<ServerView>)
    requires
        sorted(before),
        sorted(after),
        0 <= i < before.len(),
        before[i].name == s.name,
        after == before.update(i, s),
    ensures
        with_server(before, s, after),
{
    assert forall|name: Seq<char>| #[trigger]
        entry(after, name) == if name == s.name {
            Some((s.url, s.key))
        } else {
            entry(before, name)
        } by {
        if name == s.name {
            assert(named(after, name, i));
            lemma_entry(after, name, i);
        } else if exists|k: int| named(before, name, k) {
            let k = choose|k: int| named(before, name, k);
            assert(named(after, name, k));
            lemma_entry(after, name, k);
            lemma_entry(before, name, k);
        } else if exists|k: int| named(after, name, k) {
            let k = choose|k: int| named(after, name, k);
            assert(named(before, name, k));
        }
    }
}

proof fn lemma_inserted(before: Seq<ServerView>, s: ServerView, i: int, after: Seq<ServerView>)
    requires
        sorted(before),
        0 <= i <= before.len(),
        forall|k: int| 0 <= k < i ==> text::precedes((#[trigger] before[k]).name, s.name),
        i < before.len() ==> text::precedes(s.name, before[i].name),
        after == before.insert(i, s),
    ensures
        with_server(before, s, after),
{
    assert forall|k: int| i <= k < before.len() implies text::precedes(
        s.name,
        (#[trigger] before[k]).name,
    ) by {
        if k > i {
            text::lemma_precedes_transitive(s.name, before[i].name, before[k].name);
        }
    }
    assert forall|a: int, b: int| 0 <= a < b < after.len() implies text::precedes(
        (#[trigger] after[a]).name,
        (#[trigger] after[b]).name,
    ) by {
        let x = if a < i {
            a
        } else {
            a - 1
        };
        let y = if b < i {
            b
        } else {
            b - 1
        };
        if a != i {
            assert(after[a] == before[x]);
        }
        if b != i {
            assert(after[b] == before[y]);
        }
    }
    assert forall|name: Seq<char>| #[trigger]
        entry(after, name) == if name == s.name {
            Some((s.url, s.key))
        } else {
            entry(before, name)
        } by {
        if name == s.name {
            assert(named(after, name, i));
            lemma_entry(after, name, i);
        } else if exists|k: int| named(before, name, k) {
            let k = choose|k: int| named(before, name, k);
            let m = if k < i {
                k
            } else {
                k + 1
            };
            assert(named(after, name, m));
            lemma_entry(after, name, m);
            lemma_entry(before, name, k);
        } else if exists|k: int| named(after, name, k) {
            let k = choose|k: int| named(after, name, k);
            let m = if k < i {
                k
            } else {
                k - 1
            };
            assert(named(before, name, m));
        }
    }
}

// --- The file ---------------------------------------------------------------

/// The URL and the key of a server in the file, if both are there.
pub open spec fn usable(v: JsonView) -> Option<(Seq<char>, Seq<char>)> {
    match (json::text_member(v, "url"@), json::text_member(v, "key"@)) {
        (Some(url), Some(key)) => Some((url, key)),
        _ => None,
    }
}

/// The last usable server with a name.
pub open spec fn found(members: Seq<(Seq<char>, JsonView)>, name: Seq<char>) -> Option<
    (Seq<char>, Seq<char>),
>
    decreases members.len(),
{
    if members.len() == 0 {
        None
    } else if members.last().0 == name && usable(members.last().1) is Some {
        usable(members.last().1)
    } else {
        found(members.drop_last(), name)
    }
}

/// The servers in the file.
pub open spec fn server_members(v: JsonView) -> Seq<(Seq<char>, JsonView)> {
    match json::member(v, "servers"@) {
        Some(JsonView::Object(members)) => members,
        _ => seq![],
    }
}

/// Whether `c` is the configuration that stands in the file. A server without a
/// URL or without a key is left out.
pub open spec fn read_as(v: JsonView, c: ConfigView) -> bool {
    &&& c.wf()
    &&& c.default == json::text_member(v, "default"@)
    &&& forall|name: Seq<char>| #[trigger]
        entry(c.servers, name) == found(server_members(v), name)
}

/// A server as it stands in the file.
pub open spec fn server_json(s: ServerView) -> (Seq<char>, JsonView) {
    (
        s.name,
        JsonView::Object(
            seq![("key"@, JsonView::Text(s.key)), ("url"@, JsonView::Text(s.url))],
        ),
    )
}

/// A configuration as it stands in the file.
pub open spec fn config_json(c: ConfigView) -> JsonView {
    JsonView::Object(
        seq![
            (
                "default"@,
                match c.default {
                    Some(name) => JsonView::Text(name),
                    None => JsonView::Null,
                },
            ),
            ("servers"@, JsonView::Object(c.servers.map_values(|s: ServerView| server_json(s)))),
        ],
    )
}

fn read_servers(members: &Vec<(String, Json)>) -> (r: Vec<Server>)
    ensures
        sorted(servers_view(r@)),
        forall|name: Seq<char>| #[trigger]
            entry(servers_view(r@), name) == found(json::members_view(members@), name),
{
    let ghost all = json::members_view(members@);
    let mut servers: Vec<Server> = Vec::new();
    let mut i: usize = 0;
    proof {
        assert forall|name: Seq<char>| #[trigger]
            entry(servers_view(servers@), name) == found(all.take(0), name) by {}
    }
    while i < members.len()
        invariant
            i <= members@.len(),
            all == json::members_view(members@),
            sorted(servers_view(servers@)),
            forall|name: Seq<char>| #[trigger]
                entry(servers_view(servers@), name) == found(all.take(i as int), name),
        decreases members@.len() - i,
    {
        let ghost taken = all.take(i + 1);
        assert(taken.drop_last() =~= all.take(i as int));
        assert(taken.last() == (members@[i as int].0@, members@[i as int].1@));
        let name = &members[i].0;
        let v = &members[i].1;
        match (v.get_text("url"), v.get_text("key")) {
            (Some(url), Some(key)) => {
                let s = Server { name: name.clone(), url, key };
                insert_server(&mut servers, s);
            },
            _ => {},
        }
        i = i + 1;
    }
    assert(all.take(i as int) =~= all);
    servers
}

impl Config {
    /// A configuration without servers.
    pub fn empty() -> (r: Config)
        ensures
            r@ == (ConfigView { default: None, servers: seq![] }),
            r@.wf(),
    {
        let r = Config { default: None, servers: Vec::new() };
        assert(r@ =~= (ConfigView { default: None, servers: seq![] }));
        r
    }

    /// The configuration that stands in the file.
    pub fn from_json(v: &Json) -> (r: Config)
        ensures
            read_as(v@, r@),
    {
        let default = v.get_text("default");
        match v.get("servers") {
            Some(Json::Object(members)) => {
                let servers = read_servers(members);
                proof {
                    json::lemma_object_view(*members);
                }
                Config { default, servers }
            },
            _ => {
                let servers: Vec<Server> = Vec::new();
                let r = Config { default, servers };
                assert(r@.servers =~= seq![]);
                r
            },
        }
    }

    /// The configuration that the file was parsed to, or what is wrong with it.
    pub fn load_parsed(parsed: Result<Json, String>, path: &str) -> (r: Result<Config, ClientError>)
        ensures
            loaded(json::parsed_view(parsed), path@, r),
    {
        match parsed {
            Ok(v) => Ok(Config::from_json(&v)),
            Err(e) => {
                let what = text::cat2("invalid JSON in ", path);
                Err(ClientError::context(&what, &e))
            },
        }
    }

    /// The configuration in the text of the file at `path`. Without a file it is
    /// empty.
    pub fn load(file: Option<&str>, path: &str) -> (r: Result<Config, ClientError>)
        ensures
            match file {
                None => r is Ok && r->Ok_0@ == (ConfigView { default: None, servers: seq![] }),
                Some(t) => loaded(json::json_parse(text::utf8(t@)), path@, r),
            },
            r is Ok ==> r->Ok_0@.wf(),
    {
        match file {
            None => Ok(Config::empty()),
            Some(t) => Config::load_parsed(Json::parse(t.as_bytes()), path),
        }
    }
}

/// Whether `r` is the configuration that the file at `path` was parsed to.
pub open spec fn loaded(
    parsed: Result<JsonView, Seq<char>>,
    path: Seq<char>,
    r: Result<Config, ClientError>,
) -> bool {
    match parsed {
        Ok(v) => r is Ok && read_as(v, r->Ok_0@),
        Err(e) => r is Err && r->Err_0@ == client::in_context("invalid JSON in "@ + path, e),
    }
}

fn pair(name: &str, value: Json) -> (r: (String, Json))
    ensures
        r.0@ == name@,
        r.1 == value,
{
    (text::owned(name), value)
}

fn write_server(s: &Server) -> (r: (String, Json))
    ensures
        (r.0@, r.1@) == server_json(s@),
{
    let mut fields: Vec<(String, Json)> = Vec::new();
    fields.push(pair("key", Json::Text(s.key.clone())));
    fields.push(pair("url", Json::Text(s.url.clone())));
    proof {
        json::lemma_object_view(fields);
        assert(json::members_view(fields@) =~= seq![
            ("key"@, JsonView::Text(s.key@)),
            ("url"@, JsonView::Text(s.url@)),
        ]);
    }
    (s.name.clone(), Json::Object(fields))
}

fn write_servers(servers: &Vec<Server>) -> (r: Vec<(String, Json)>)
    ensures
        json::members_view(r@) == servers_view(servers@).map_values(|s: ServerView| server_json(s)),
{
    let ghost all = servers_view(servers@).map_values(|s: ServerView| server_json(s));
    let mut r: Vec<(String, Json)> = Vec::new();
    let mut i: usize = 0;
    while i < servers.len()
        invariant
            i <= servers@.len(),
            all == servers_view(servers@).map_values(|s: ServerView| server_json(s)),
            json::members_view(r@) == all.take(i as int),
        decreases servers@.len() - i,
    {
        let ghost before = r@;
        let m = write_server(&servers[i]);
        assert(servers_view(servers@)[i as int] == servers@[i as int]@);
        r.push(m);
        i = i + 1;
        assert(json::members_view(r@) =~= json::members_view(before).push((m.0@, m.1@)));
        assert(json::members_view(r@) =~= all.take(i as int));
    }
    assert(all.take(i as int) =~= all);
    r
}

proof fn lemma_config_order(c: ConfigView)
    requires
        c.wf(),
    ensures
        json::ordered(config_json(c)->Object_0),
        json::ordered(c.servers.map_values(|s: ServerView| server_json(s))),
        forall|s: ServerView| json::ordered((#[trigger] server_json(s)).1->Object_0),
{
    reveal_strlit("default");
    reveal_strlit("servers");
    reveal_strlit("key");
    reveal_strlit("url");
    assert(text::precedes("default"@, "servers"@));
    assert(text::precedes("key"@, "url"@));
    let servers = c.servers.map_values(|s: ServerView| server_json(s));
    assert forall|i: int, j: int| 0 <= i < j < servers.len() implies text::precedes(
        (#[trigger] servers[i]).0,
        (#[trigger] servers[j]).0,
    ) by {
        assert(text::precedes(c.servers[i].name, c.servers[j].name));
    }
}

proof fn lemma_config_is_canonical(c: ConfigView)
    requires
        c.wf(),
    ensures
        json::canonical(config_json(c), json::MAX_DEPTH as nat),
{
    reveal_with_fuel(json::canonical, 4);
    lemma_config_order(c);
    let servers = c.servers.map_values(|s: ServerView| server_json(s));
    let n = json::MAX_DEPTH as nat;
    assert forall|i: int| 0 <= i < servers.len() implies json::canonical(
        (#[trigger] servers[i]).1,
        (n - 2) as nat,
    ) by {
        assert(servers[i] == server_json(c.servers[i]));
        assert(servers[i].1->Object_0.len() == 2);
    }
    assert(json::canonical(JsonView::Object(servers), (n - 1) as nat));
    assert(config_json(c)->Object_0.len() == 2);
}

impl Config {
    /// The configuration as it stands in the file.
    pub fn to_json(&self) -> (r: Json)
        ensures
            r@ == config_json(self@),
    {
        let default = match &self.default {
            Some(name) => Json::Text(name.clone()),
            None => Json::Null,
        };
        let servers = write_servers(&self.servers);
        let mut fields: Vec<(String, Json)> = Vec::new();
        proof {
            json::lemma_object_view(servers);
        }
        fields.push(pair("default", default));
        fields.push(pair("servers", Json::Object(servers)));
        proof {
            json::lemma_object_view(fields);
            assert(json::members_view(fields@) =~= config_json(self@)->Object_0);
        }
        Json::Object(fields)
    }

    /// The text of the file. It is read as the configuration again.
    pub fn save(&self) -> (r: String)
        ensures
            self@.wf(),
            r@ == json::json_pretty(config_json(self@)),
            json::read_back(r@, config_json(self@)),
    {
        proof {
            use_type_invariant(self);
            lemma_config_is_canonical(self@);
        }
        self.to_json().to_pretty()
    }
}

proof fn lemma_server_json(s: ServerView)
    ensures
        usable(server_json(s).1) == Some((s.url, s.key)),
{
    reveal_strlit("key");
    reveal_strlit("url");
    let fields = server_json(s).1->Object_0;
    assert("key"@[0] != "url"@[0]);
    assert(fields.skip(1)[0] == fields[1]);
    reveal_with_fuel(json::lookup, 3);
}

proof fn lemma_written_servers(servers: Seq<ServerView>, name: Seq<char>)
    requires
        sorted(servers),
    ensures
        found(servers.map_values(|s: ServerView| server_json(s)), name) == entry(servers, name),
    decreases servers.len(),
{
    let all = servers.map_values(|s: ServerView| server_json(s));
    if servers.len() == 0 {
    } else {
        let rest = servers.drop_last();
        let last = servers.len() - 1;
        assert(all.drop_last() =~= rest.map_values(|s: ServerView| server_json(s)));
        assert forall|i: int, j: int| 0 <= i < j < rest.len() implies text::precedes(
            (#[trigger] rest[i]).name,
            (#[trigger] rest[j]).name,
        ) by {
            assert(rest[i] == servers[i] && rest[j] == servers[j]);
        }
        lemma_written_servers(rest, name);
        lemma_server_json(servers[last]);
        if servers[last].name == name {
            assert(named(servers, name, last));
            lemma_entry(servers, name, last);
        } else if exists|i: int| named(servers, name, i) {
            let i = choose|i: int| named(servers, name, i);
            assert(named(rest, name, i));
            lemma_entry(rest, name, i);
            lemma_entry(servers, name, i);
        } else if exists|i: int| named(rest, name, i) {
            let i = choose|i: int| named(rest, name, i);
            assert(named(servers, name, i));
        }
    }
}

proof fn lemma_same_servers(a: Seq<ServerView>, b: Seq<ServerView>)
    requires
        sorted(a),
        sorted(b),
        forall|name: Seq<char>| #[trigger] entry(a, name) == entry(b, name),
    ensures
        a == b,
    decreases a.len(),
{
    if a.len() == 0 {
        if b.len() > 0 {
            assert(named(b, b[0].name, 0));
            lemma_entry(b, b[0].name, 0);
            assert(entry(a, b[0].name) is Some);
            assert(false);
        }
        assert(a =~= b);
    } else {
        let x = a[0].name;
        assert(named(a, x, 0));
        lemma_entry(a, x, 0);
        assert(entry(b, x) is Some);
        let j = choose|j: int| named(b, x, j);
        let y = b[0].name;
        assert(named(b, y, 0));
        lemma_entry(b, y, 0);
        assert(entry(a, y) is Some);
        let i = choose|i: int| named(a, y, i);
        if j > 0 {
            assert(text::precedes(y, x));
            text::lemma_precedes_irreflexive(x);
            assert(i > 0);
            assert(text::precedes(x, y));
            text::lemma_precedes_transitive(x, y, x);
        }
        assert(a[0] == b[0]);
        let a1 = a.skip(1);
        let b1 = b.skip(1);
        lemma_sorted_rest(a);
        lemma_sorted_rest(b);
        assert forall|name: Seq<char>| #[trigger] entry(a1, name) == entry(b1, name) by {
            lemma_entry_rest(a, name);
            lemma_entry_rest(b, name);
            assert(entry(a, name) == entry(b, name));
        }
        lemma_same_servers(a1, b1);
        assert(a =~= seq![a[0]] + a1);
        assert(b =~= seq![b[0]] + b1);
    }
}

proof fn lemma_sorted_rest(s: Seq<ServerView>)
    requires
        sorted(s),
        s.len() > 0,
    ensures
        sorted(s.skip(1)),
{
    let rest = s.skip(1);
    assert forall|i: int, j: int| 0 <= i < j < rest.len() implies text::precedes(
        (#[trigger] rest[i]).name,
        (#[trigger] rest[j]).name,
    ) by {
        assert(rest[i] == s[i + 1] && rest[j] == s[j + 1]);
    }
}

proof fn lemma_entry_rest(s: Seq<ServerView>, name: Seq<char>)
    requires
        sorted(s),
        s.len() > 0,
    ensures
        entry(s.skip(1), name) == if name == s[0].name {
            None
        } else {
            entry(s, name)
        },
{
    let rest = s.skip(1);
    lemma_sorted_rest(s);
    if exists|i: int| named(rest, name, i) {
        let i = choose|i: int| named(rest, name, i);
        assert(rest[i] == s[i + 1]);
        assert(text::precedes(s[0].name, s[i + 1].name));
        text::lemma_precedes_irreflexive(name);
        assert(named(s, name, i + 1));
        lemma_entry(s, name, i + 1);
        lemma_entry(rest, name, i);
    } else if name != s[0].name && exists|i: int| named(s, name, i) {
        let i = choose|i: int| named(s, name, i);
        assert(rest[i - 1] == s[i]);
        assert(named(rest, name, i - 1));
    }
}

proof fn lemma_config_members(c: ConfigView)
    ensures
        json::member(config_json(c), "servers"@) == Some(
            JsonView::Object(c.servers.map_values(|s: ServerView| server_json(s))),
        ),
        json::text_member(config_json(c), "default"@) == c.default,
{
    reveal_strlit("default");
    reveal_strlit("servers");
    assert("default"@[0] != "servers"@[0]);
    let fields = config_json(c)->Object_0;
    assert(fields.skip(1)[0] == fields[1]);
    reveal_with_fuel(json::lookup, 3);
}

/// What is saved is loaded again: the configuration that is read from what a
/// configuration is written as is that configuration, and no other.
pub proof fn law_saved_config_is_loaded(saved: ConfigView, read: ConfigView)
    requires
        saved.wf(),
    ensures
        read_as(config_json(saved), read) <==> read == saved,
{
    let v = config_json(saved);
    lemma_config_members(saved);
    assert forall|name: Seq<char>| #[trigger]
        entry(saved.servers, name) == found(server_members(v), name) by {
        lemma_written_servers(saved.servers, name);
    }
    assert(read_as(v, saved));
    if read_as(v, read) {
        assert forall|name: Seq<char>| #[trigger]
            entry(read.servers, name) == entry(saved.servers, name) by {
            assert(entry(read.servers, name) == found(server_members(v), name));
            assert(entry(saved.servers, name) == found(server_members(v), name));
        }
        lemma_same_servers(read.servers, saved.servers);
        assert(read =~= saved);
    }
}

// --- Choosing a server ------------------------------------------------------

/// What is said where no server is named and none stands out.
pub open spec fn none_selected() -> Seq<char> {
    "no server selected: set a default with `ts default NAME`, pass --server, or set TRICKSHOT_URL/TRICKSHOT_API_KEY"@
}

/// What is said of a server that is not known.
pub open spec fn unknown_server(name: Seq<char>) -> Seq<char> {
    "no server named '"@ + name + "': run `ts auth URL KEY "@ + name + "`"@
}

/// The name of the server to use: the one that is named, else the default, else
/// the only one.
pub open spec fn chosen(c: ConfigView, server: Option<Seq<char>>) -> Option<Seq<char>> {
    match server {
        Some(name) => Some(name),
        None => match c.default {
            Some(name) => Some(name),
            None => if c.servers.len() == 1 {
                Some(c.servers[0].name)
            } else {
                None
            },
        },
    }
}

/// The URL and the key of the server to use, or why there is none.
pub open spec fn selected(c: ConfigView, server: Option<Seq<char>>) -> Result<
    (Seq<char>, Seq<char>),
    Seq<char>,
> {
    match chosen(c, server) {
        None => Err(none_selected()),
        Some(name) => match entry(c.servers, name) {
            Some(e) => Ok(e),
            None => Err(unknown_server(name)),
        },
    }
}

/// The view of the URL and the key of a server, or of an error.
pub open spec fn access_view(r: Result<(String, String), ClientError>) -> Result<
    (Seq<char>, Seq<char>),
    Seq<char>,
> {
    match r {
        Ok(access) => Ok((access.0@, access.1@)),
        Err(e) => Err(e@),
    }
}

fn find_server<'a>(servers: &'a Vec<Server>, name: &str) -> (r: Option<&'a Server>)
    requires
        sorted(servers_view(servers@)),
    ensures
        entry(servers_view(servers@), name@) == (match r {
            Some(s) => Some((s.url@, s.key@)),
            None => None,
        }),
{
    let ghost all = servers_view(servers@);
    let mut i: usize = 0;
    while i < servers.len()
        invariant
            i <= servers@.len(),
            all == servers_view(servers@),
            sorted(all),
            forall|k: int| 0 <= k < i ==> !named(all, name@, k),
        decreases servers@.len() - i,
    {
        assert(all[i as int] == servers@[i as int]@);
        if text::str_eq(&servers[i].name, name) {
            proof {
                assert(named(all, name@, i as int));
                lemma_entry(all, name@, i as int);
            }
            return Some(&servers[i]);
        }
        assert(!named(all, name@, i as int));
        i = i + 1;
    }
    None
}

fn no_server_named(name: &str) -> (r: ClientError)
    ensures
        r@ == unknown_server(name@),
{
    ClientError(text::cat5("no server named '", name, "': run `ts auth URL KEY ", name, "`"))
}

impl Config {
    /// The server that is used where none is named.
    pub fn default_server(&self) -> (r: Option<&str>)
        ensures
            text::opt_str(r) == self@.default,
    {
        match &self.default {
            Some(name) => Some(name.as_str()),
            None => None,
        }
    }

    /// How many servers there are.
    pub fn len(&self) -> (r: usize)
        ensures
            r == self@.servers.len(),
    {
        self.servers.len()
    }

    fn choose_name(&self, server: Option<&str>) -> (r: Option<String>)
        ensures
            text::opt_text(r) == chosen(self@, text::opt_str(server)),
    {
        if let Some(name) = server {
            return Some(text::owned(name));
        }
        if let Some(name) = &self.default {
            return Some(name.clone());
        }
        if self.servers.len() == 1 {
            assert(self@.servers[0] == self.servers@[0]@);
            Some(self.servers[0].name.clone())
        } else {
            None
        }
    }

    /// The URL and the key of the server that is named, or of the default, or of the
    /// only one.
    pub fn select(&self, server: Option<&str>) -> (r: Result<(String, String), ClientError>)
        ensures
            access_view(r) == selected(self@, text::opt_str(server)),
    {
        proof {
            use_type_invariant(self);
        }
        let name = match self.choose_name(server) {
            Some(name) => name,
            None => return Err(
                ClientError::new(
                    "no server selected: set a default with `ts default NAME`, pass --server, or set TRICKSHOT_URL/TRICKSHOT_API_KEY",
                ),
            ),
        };
        match find_server(&self.servers, &name) {
            Some(s) => Ok((s.url.clone(), s.key.clone())),
            None => Err(no_server_named(&name)),
        }
    }
}

/// The view of a configuration that was loaded, or could not be.
pub open spec fn loaded_view(loaded: Result<Config, ClientError>) -> Result<ConfigView, Seq<char>> {
    match loaded {
        Ok(c) => Ok(c@),
        Err(e) => Err(e@),
    }
}

/// The URL and the key of the server in the configuration, or why there is none.
pub open spec fn configured(
    loaded: Result<ConfigView, Seq<char>>,
    server: Option<Seq<char>>,
) -> Result<(Seq<char>, Seq<char>), Seq<char>> {
    match loaded {
        Ok(c) => selected(c, server),
        Err(e) => Err(e),
    }
}

/// The URL and the key to use for a shot. What is given directly goes before the
/// configuration, which is not even looked at where both are given and no server is
/// named.
pub open spec fn resolved(
    loaded: Result<ConfigView, Seq<char>>,
    server: Option<Seq<char>>,
    url: Option<Seq<char>>,
    key: Option<Seq<char>>,
) -> Result<(Seq<char>, Seq<char>), Seq<char>> {
    if server is None && url is Some && key is Some {
        Ok((url->0, key->0))
    } else {
        match configured(loaded, server) {
            Err(e) => Err(e),
            Ok((u, k)) => Ok(
                (
                    match url {
                        Some(given) => given,
                        None => u,
                    },
                    match key {
                        Some(given) => given,
                        None => k,
                    },
                ),
            ),
        }
    }
}

/// The URL and the key to use for managing keys. Both together go before the
/// configuration where no server is named, and neither does alone.
pub open spec fn resolved_admin(
    loaded: Result<ConfigView, Seq<char>>,
    server: Option<Seq<char>>,
    url: Option<Seq<char>>,
    key: Option<Seq<char>>,
) -> Result<(Seq<char>, Seq<char>), Seq<char>> {
    if server is None && url is Some && key is Some {
        Ok((url->0, key->0))
    } else {
        configured(loaded, server)
    }
}

fn select_loaded(loaded: Result<Config, ClientError>, server: Option<&str>) -> (r: Result<
    (String, String),
    ClientError,
>)
    ensures
        access_view(r) == configured(loaded_view(loaded), text::opt_str(server)),
{
    match loaded {
        Ok(c) => c.select(server),
        Err(e) => Err(e),
    }
}

/// The URL and the key to use for a shot: those that are given, and for the rest
/// those of the server in the configuration.
pub fn resolve(
    server: Option<&str>,
    flag_url: Option<String>,
    flag_key: Option<String>,
    loaded: Result<Config, ClientError>,
) -> (r: Result<(String, String), ClientError>)
    ensures
        access_view(r) == resolved(
            loaded_view(loaded),
            text::opt_str(server),
            text::opt_text(flag_url),
            text::opt_text(flag_key),
        ),
{
    match (server, flag_url, flag_key) {
        (None, Some(u), Some(k)) => Ok((u, k)),
        (server, flag_url, flag_key) => match select_loaded(loaded, server) {
            Err(e) => Err(e),
            Ok((u, k)) => {
                let url = match flag_url {
                    Some(given) => given,
                    None => u,
                };
                let key = match flag_key {
                    Some(given) => given,
                    None => k,
                };
                Ok((url, key))
            },
        },
    }
}

/// The URL and the key to use for managing keys: those of the environment, where
/// both are there and no server is named, else those in the configuration.
pub fn resolve_admin(
    server: Option<&str>,
    env_url: Option<String>,
    env_key: Option<String>,
    loaded: Result<Config, ClientError>,
) -> (r: Result<(String, String), ClientError>)
    ensures
        access_view(r) == resolved_admin(
            loaded_view(loaded),
            text::opt_str(server),
            text::opt_text(env_url),
            text::opt_text(env_key),
        ),
{
    if server.is_none() {
        if let (Some(u), Some(k)) = (env_url, env_key) {
            return Ok((u, k));
        }
    }
    select_loaded(loaded, server)
}

/// What is given for a shot goes before what is configured: the key, the URL, and
/// both without any configuration.
pub proof fn law_what_is_given_goes_first(
    loaded: Result<ConfigView, Seq<char>>,
    server: Option<Seq<char>>,
    url: Option<Seq<char>>,
    key: Option<Seq<char>>,
)
    ensures
        resolved(loaded, server, url, key) matches Ok((u, k)) ==> (url matches Some(given) ==> u
            == given) && (key matches Some(given) ==> k == given),
        server is None && url is Some && key is Some ==> resolved(loaded, server, url, key) == Ok::<
            (Seq<char>, Seq<char>),
            Seq<char>,
        >((url->0, key->0)),
{
}

// --- Changing the configuration ---------------------------------------------

/// Where the configuration file is looked for.
#[derive(Debug)]
pub enum ConfigBase<P> {
    /// In this directory.
    Directory(P),
    /// In `.config` below this directory.
    Home(P),
    /// In the current directory.
    Current,
}

/// Where the configuration file is looked for, from `XDG_CONFIG_HOME` and `HOME`.
pub fn config_base<P>(xdg_config_home: Option<P>, home: Option<P>) -> (r: ConfigBase<P>)
    ensures
        r == (match xdg_config_home {
            Some(dir) => ConfigBase::Directory(dir),
            None => match home {
                Some(dir) => ConfigBase::Home(dir),
                None => ConfigBase::Current,
            },
        }),
{
    match xdg_config_home {
        Some(dir) => ConfigBase::Directory(dir),
        None => match home {
            Some(dir) => ConfigBase::Home(dir),
            None => ConfigBase::Current,
        },
    }
}

/// Whether an argument is read from the standard input.
pub fn reads_stdin(value: &str) -> (r: bool)
    ensures
        r == (value@ == "-"@),
{
    text::str_eq(value, "-")
}

/// The value of an argument, where `stdin` is what was read from the standard
/// input, if the argument is read from there.
pub fn read_arg(value: &str, stdin: Result<String, String>) -> (r: Result<String, ClientError>)
    ensures
        if value@ == "-"@ {
            match stdin {
                Ok(t) => r is Ok && r->Ok_0@ == text::trimmed(t@),
                Err(e) => r is Err && r->Err_0@ == client::in_context("reading stdin"@, e@),
            }
        } else {
            r is Ok && r->Ok_0@ == value@
        },
{
    if reads_stdin(value) {
        match stdin {
            Ok(t) => Ok(text::trim(&t)),
            Err(e) => Err(ClientError::context("reading stdin", &e)),
        }
    } else {
        Ok(text::owned(value))
    }
}

/// Whether `after` is the configuration with this server, which is the default if
/// there was none.
pub open spec fn authenticated(before: ConfigView, s: ServerView, after: ConfigView) -> bool {
    &&& with_server(before.servers, s, after.servers)
    &&& after.default == match before.default {
        Some(name) => Some(name),
        None => Some(s.name),
    }
}

/// The name of a server, where none is given.
pub open spec fn name_or_default(name: Option<Seq<char>>) -> Seq<char> {
    match name {
        Some(name) => name,
        None => "default"@,
    }
}

/// Save a server with its key. Returns what is said then.
pub fn auth(config: Config, url: &str, key: String, name: Option<&str>) -> (r: (Config, String))
    ensures
        ({
            let saved = name_or_default(text::opt_str(name));
            &&& r.0@.wf()
            &&& authenticated(
                config@,
                ServerView { name: saved, url: text::no_trailing_slash(url@), key: key@ },
                r.0@,
            )
            &&& r.1@ == "ts: saved server '"@ + saved + "'"@
        }),
{
    let saved = match name {
        Some(name) => text::owned(name),
        None => text::owned("default"),
    };
    let said = text::cat3("ts: saved server '", &saved, "'");
    proof {
        use_type_invariant(&config);
    }
    let Config { default, mut servers } = config;
    let s = Server { name: saved.clone(), url: text::trim_slashes(url), key };
    insert_server(&mut servers, s);
    let default = match default {
        Some(name) => Some(name),
        None => Some(saved),
    };
    (Config { default, servers }, said)
}

/// A list of the servers.
#[derive(Debug)]
pub enum Listing {
    /// There are none, and this is said of it.
    Empty(String),
    /// A line for each server.
    Lines(Vec<String>),
}

/// The line of a server. The default has a mark.
pub open spec fn server_line(s: ServerView, default: Option<Seq<char>>) -> Seq<char> {
    (if default == Some(s.name) {
        "*"@
    } else {
        " "@
    }) + " "@ + text::padded(s.name, 12) + " "@ + s.url
}

/// The lines of all servers.
pub open spec fn server_lines(c: ConfigView) -> Seq<Seq<char>> {
    c.servers.map_values(|s: ServerView| server_line(s, c.default))
}

fn is_default(default: &Option<String>, name: &str) -> (r: bool)
    ensures
        r == (text::opt_text(*default) == Some(name@)),
{
    match default {
        Some(d) => text::str_eq(d, name),
        None => false,
    }
}

/// A list of the servers, with a mark at the default.
pub fn servers(config: &Config) -> (r: Listing)
    ensures
        match r {
            Listing::Empty(said) => config@.servers.len() == 0 && said@
                == "(no servers configured — run `ts auth URL KEY`)"@,
            Listing::Lines(lines) => config@.servers.len() > 0 && text::texts(lines@)
                == server_lines(config@),
        },
{
    if config.servers.len() == 0 {
        return Listing::Empty(text::owned("(no servers configured — run `ts auth URL KEY`)"));
    }
    Listing::Lines(list_servers(config))
}

fn list_servers(config: &Config) -> (r: Vec<String>)
    ensures
        text::texts(r@) == server_lines(config@),
{
    let ghost all = server_lines(config@);
    let mut lines: Vec<String> = Vec::new();
    let mut i: usize = 0;
    while i < config.servers.len()
        invariant
            i <= config.servers@.len(),
            all == server_lines(config@),
            text::texts(lines@) == all.take(i as int),
        decreases config.servers@.len() - i,
    {
        let ghost before = lines@;
        let s = &config.servers[i];
        assert(config@.servers[i as int] == s@);
        let mark = if is_default(&config.default, &s.name) {
            "*"
        } else {
            " "
        };
        let name = text::pad(&s.name, 12);
        let line = text::cat5(mark, " ", &name, " ", &s.url);
        lines.push(line);
        i = i + 1;
        assert(text::texts(lines@) =~= text::texts(before).push(line@));
        assert(text::texts(lines@) =~= all.take(i as int));
    }
    assert(all.take(i as int) =~= all);
    lines
}

/// Make a server the default. Returns what is said then.
pub fn set_default(config: Config, name: &str) -> (r: Result<(Config, String), ClientError>)
    ensures
        match r {
            Ok((after, said)) => entry(config@.servers, name@) is Some && after@ == (ConfigView {
                default: Some(name@),
                ..config@
            }) && said@ == "ts: default server is now '"@ + name@ + "'"@,
            Err(e) => entry(config@.servers, name@) is None && e@ == unknown_server(name@),
        },
{
    proof {
        use_type_invariant(&config);
    }
    let known = find_server(&config.servers, name).is_some();
    if !known {
        return Err(no_server_named(name));
    }
    let said = text::cat3("ts: default server is now '", name, "'");
    let Config { default: _, servers } = config;
    Ok((Config { default: Some(text::owned(name)), servers }, said))
}

/// A server that was saved is found by its name, with its URL and its key. Where
/// it was the first, it is found without a name too.
pub proof fn law_saved_server_is_selected(before: ConfigView, s: ServerView, after: ConfigView)
    requires
        authenticated(before, s, after),
    ensures
        selected(after, Some(s.name)) == Ok::<(Seq<char>, Seq<char>), Seq<char>>((s.url, s.key)),
        before.default is None ==> selected(after, None) == Ok::<
            (Seq<char>, Seq<char>),
            Seq<char>,
        >((s.url, s.key)),
{
    assert(entry(after.servers, s.name) == Some((s.url, s.key)));
}

/// Saving a server leaves the others as they were.
pub proof fn law_other_servers_are_kept(
    before: ConfigView,
    s: ServerView,
    after: ConfigView,
    name: Seq<char>,
)
    requires
        authenticated(before, s, after),
        name != s.name,
    ensures
        selected(after, Some(name)) == selected(before, Some(name)),
{
    assert(entry(after.servers, name) == entry(before.servers, name));
}

} // verus!
