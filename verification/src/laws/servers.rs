//! Laws on the servers that the client knows: which one is used, and what is kept of them.

use vstd::prelude::*;

use crate::client::config;
use crate::client::config::ConfigView;
use crate::client::config::ServerView;
use crate::client::ClientError;
use crate::json;
use crate::json::JsonView;
use crate::laws::json as members;
use crate::text;

verus! {

/// What is given, or else what is configured.
pub open spec fn given_or(given: Option<Seq<char>>, configured: Seq<char>) -> Seq<char> {
    if given is Some {
        given->0
    } else {
        configured
    }
}

proof fn lemma_configured(c: ConfigView, i: int)
    requires
        c.wf(),
        0 <= i < c.servers.len(),
    ensures
        config::entry(c.servers, c.servers[i].name) == Some((c.servers[i].url, c.servers[i].key)),
{
    let name = c.servers[i].name;
    assert(config::named(c.servers, name, i));
    let k = choose|k: int| config::named(c.servers, name, k);
    text::lemma_precedes_irreflexive(name);
    assert(k == i);
}

proof fn lemma_not_configured(c: ConfigView, name: Seq<char>)
    requires
        forall|i: int| 0 <= i < c.servers.len() ==> (#[trigger] c.servers[i]).name != name,
    ensures
        config::entry(c.servers, name) is None,
{
    if exists|i: int| config::named(c.servers, name, i) {
        let i = choose|i: int| config::named(c.servers, name, i);
        assert(c.servers[i].name != name);
    }
}

/// Where a server is named, what is not given directly comes from the entry of that name:
/// the URL from its URL, the key from its key, whatever else is given and whatever the
/// default is.
pub proof fn law_named_server_is_used(
    c: ConfigView,
    i: int,
    url: Option<Seq<char>>,
    key: Option<Seq<char>>,
)
    requires
        c.wf(),
        0 <= i < c.servers.len(),
    ensures
        config::resolved(Ok(c), Some(c.servers[i].name), url, key) == Ok::<
            (Seq<char>, Seq<char>),
            Seq<char>,
        >((given_or(url, c.servers[i].url), given_or(key, c.servers[i].key))),
        config::resolved(Ok(c), Some(c.servers[i].name), None, None) == config::selected(
            c,
            Some(c.servers[i].name),
        ),
        config::resolved_admin(Ok(c), Some(c.servers[i].name), url, key) == Ok::<
            (Seq<char>, Seq<char>),
            Seq<char>,
        >((c.servers[i].url, c.servers[i].key)),
        config::selected(c, Some(c.servers[i].name)) == Ok::<(Seq<char>, Seq<char>), Seq<char>>(
            (c.servers[i].url, c.servers[i].key),
        ),
{
    lemma_configured(c, i);
}

/// Where a server is named that is not configured, there is none to use, whatever is
/// given.
pub proof fn law_unknown_server_is_refused(
    c: ConfigView,
    name: Seq<char>,
    url: Option<Seq<char>>,
    key: Option<Seq<char>>,
)
    requires
        forall|i: int| 0 <= i < c.servers.len() ==> (#[trigger] c.servers[i]).name != name,
    ensures
        ({
            let refused = Err::<(Seq<char>, Seq<char>), Seq<char>>(
                "no server named '"@ + name + "': run `ts auth URL KEY "@ + name + "`"@,
            );
            &&& config::resolved(Ok(c), Some(name), url, key) == refused
            &&& config::resolved_admin(Ok(c), Some(name), url, key) == refused
            &&& config::selected(c, Some(name)) == refused
        }),
{
    lemma_not_configured(c, name);
}

/// Without a name, what is not given comes from the default, or else from the only
/// server.
pub proof fn law_default_or_only_server_is_used(
    c: ConfigView,
    i: int,
    url: Option<Seq<char>>,
    key: Option<Seq<char>>,
)
    requires
        c.wf(),
        0 <= i < c.servers.len(),
        c.default == Some(c.servers[i].name) || c.default is None && c.servers.len() == 1,
    ensures
        config::resolved(Ok(c), None, url, key) == Ok::<(Seq<char>, Seq<char>), Seq<char>>(
            (given_or(url, c.servers[i].url), given_or(key, c.servers[i].key)),
        ),
        url is None || key is None ==> config::resolved_admin(Ok(c), None, url, key) == Ok::<
            (Seq<char>, Seq<char>),
            Seq<char>,
        >((c.servers[i].url, c.servers[i].key)),
        config::selected(c, None) == Ok::<(Seq<char>, Seq<char>), Seq<char>>(
            (c.servers[i].url, c.servers[i].key),
        ),
{
    lemma_configured(c, i);
}

/// Without a name, a default that is not configured is refused as if it were named, and
/// without a default too there is a server to use only where there is exactly one.
pub proof fn law_no_server_stands_out(
    c: ConfigView,
    url: Option<Seq<char>>,
    key: Option<Seq<char>>,
)
    requires
        url is None || key is None,
    ensures
        c.default is None && c.servers.len() != 1 ==> config::resolved(Ok(c), None, url, key)
            == Err::<(Seq<char>, Seq<char>), Seq<char>>(
            "no server selected: set a default with `ts default NAME`, pass --server, or set TRICKSHOT_URL/TRICKSHOT_API_KEY"@,
        ) && config::resolved_admin(Ok(c), None, url, key) == config::resolved(
            Ok(c),
            None,
            url,
            key,
        ) && config::selected(c, None) is Err,
        c.default is Some && (forall|i: int|
            0 <= i < c.servers.len() ==> (#[trigger] c.servers[i]).name != c.default->0)
            ==> config::resolved(Ok(c), None, url, key) == Err::<(Seq<char>, Seq<char>), Seq<char>>(
            "no server named '"@ + c.default->0 + "': run `ts auth URL KEY "@ + c.default->0 + "`"@,
        ) && config::resolved_admin(Ok(c), None, url, key) == config::resolved(
            Ok(c),
            None,
            url,
            key,
        ) && config::selected(c, None) == config::resolved(Ok(c), None, url, key),
{
    if c.default is Some && (forall|i: int|
        0 <= i < c.servers.len() ==> (#[trigger] c.servers[i]).name != c.default->0) {
        lemma_not_configured(c, c.default->0);
    }
}

/// Where both the URL and the key are given, and no server is named, those are used,
/// whatever is configured; else a configuration that could not be loaded is an error.
pub proof fn law_configuration_is_needed(
    e: Seq<char>,
    loaded: Result<ConfigView, Seq<char>>,
    server: Option<Seq<char>>,
    url: Option<Seq<char>>,
    key: Option<Seq<char>>,
)
    ensures
        server is None && url is Some && key is Some ==> config::resolved(
            loaded,
            server,
            url,
            key,
        ) == Ok::<(Seq<char>, Seq<char>), Seq<char>>((url->0, key->0)) && config::resolved_admin(
            loaded,
            server,
            url,
            key,
        ) == Ok::<(Seq<char>, Seq<char>), Seq<char>>((url->0, key->0)),
        !(server is None && url is Some && key is Some) ==> config::resolved(
            Err(e),
            server,
            url,
            key,
        ) == Err::<(Seq<char>, Seq<char>), Seq<char>>(e) && config::resolved_admin(
            Err(e),
            server,
            url,
            key,
        ) == Err::<(Seq<char>, Seq<char>), Seq<char>>(e),
{
}

/// For managing keys, a URL without a key, or a key without a URL, counts for nothing.
pub proof fn law_half_an_access_counts_for_nothing(
    c: ConfigView,
    server: Option<Seq<char>>,
    url: Option<Seq<char>>,
    key: Option<Seq<char>>,
)
    requires
        url is None || key is None || server is Some,
    ensures
        config::resolved_admin(Ok(c), server, url, key) == config::resolved_admin(
            Ok(c),
            server,
            None,
            None,
        ),
{
}

// --- Saving -----------------------------------------------------------------

/// A server that is saved is there with its URL and its key, and the others are there as
/// they were; no other server is there. The default stays, and is the new server where
/// there was none.
pub proof fn law_saved_server_is_added(before: ConfigView, s: ServerView, after: ConfigView)
    requires
        before.wf(),
        config::authenticated(before, s, after),
    ensures
        after.wf(),
        after.servers.contains(s),
        forall|o: ServerView|
            o.name != s.name ==> (#[trigger] before.servers.contains(o)
                <==> after.servers.contains(o)),
        forall|o: ServerView| #[trigger]
            after.servers.contains(o) && o.name == s.name ==> o == s,
        before.default is Some ==> after.default == before.default,
        before.default is None ==> after.default == Some(s.name),
{
    lemma_contains(after, s.name);
    assert(config::entry(after.servers, s.name) == Some((s.url, s.key)));
    let k = choose|k: int| config::named(after.servers, s.name, k);
    lemma_configured(after, k);
    assert(after.servers[k] == s);
    assert forall|o: ServerView| o.name != s.name implies (#[trigger] before.servers.contains(o)
        <==> after.servers.contains(o)) by {
        lemma_contains(before, o.name);
        lemma_contains(after, o.name);
        assert(config::entry(after.servers, o.name) == config::entry(before.servers, o.name));
    }
}

proof fn lemma_contains(c: ConfigView, name: Seq<char>)
    requires
        c.wf(),
    ensures
        forall|o: ServerView|
            o.name == name ==> (#[trigger] c.servers.contains(o) <==> config::entry(
                c.servers,
                name,
            ) == Some((o.url, o.key))),
{
    assert forall|o: ServerView| o.name == name implies (#[trigger] c.servers.contains(o)
        <==> config::entry(c.servers, name) == Some((o.url, o.key))) by {
        if c.servers.contains(o) {
            let i = choose|i: int| 0 <= i < c.servers.len() && c.servers[i] == o;
            lemma_configured(c, i);
        }
        if config::entry(c.servers, name) == Some((o.url, o.key)) {
            let i = choose|i: int| config::named(c.servers, name, i);
            assert(config::named(c.servers, name, i));
            assert(c.servers[i] == o);
        }
    }
}

/// A server is saved under its name, and under `default` where none is given.
pub proof fn law_name_of_a_saved_server(name: Seq<char>)
    ensures
        config::name_or_default(Some(name)) == name,
        config::name_or_default(None) == "default"@,
{
}

// --- The file ---------------------------------------------------------------

/// In the file, a server has its URL under `url` and its key under `key`, each once.
pub proof fn law_server_in_the_file(s: ServerView)
    ensures
        config::server_json(s).0 == s.name,
        members::holds(config::server_json(s).1, "url"@, JsonView::Text(s.url)),
        members::holds(config::server_json(s).1, "key"@, JsonView::Text(s.key)),
{
    reveal_strlit("key");
    reveal_strlit("url");
    assert("key"@[0] != "url"@[0]);
    let m = config::server_json(s).1->Object_0;
    assert(m[0] == ("key"@, JsonView::Text(s.key)));
    assert(m[1] == ("url"@, JsonView::Text(s.url)));
}

/// In the file, the servers stand under `servers` by their names, in their order, and the
/// default under `default`, null where there is none.
pub proof fn law_configuration_in_the_file(c: ConfigView)
    ensures
        exists|m: Seq<(Seq<char>, JsonView)>| #[trigger]
            members::holds(config::config_json(c), "servers"@, JsonView::Object(m)) && m.len()
                == c.servers.len() && forall|i: int|
                0 <= i < m.len() ==> (#[trigger] m[i]).0 == c.servers[i].name && members::holds(
                    m[i].1,
                    "url"@,
                    JsonView::Text(c.servers[i].url),
                ) && members::holds(m[i].1, "key"@, JsonView::Text(c.servers[i].key)),
        c.default matches Some(name) ==> members::holds(
            config::config_json(c),
            "default"@,
            JsonView::Text(name),
        ),
        c.default is None ==> members::holds(
            config::config_json(c),
            "default"@,
            JsonView::Null,
        ),
{
    reveal_strlit("default");
    reveal_strlit("servers");
    assert("default"@[0] != "servers"@[0]);
    let f = config::config_json(c)->Object_0;
    let m = c.servers.map_values(|s: ServerView| config::server_json(s));
    assert(f[1] == ("servers"@, JsonView::Object(m)));
    assert(f[0].0 == "default"@);
    assert(members::holds(config::config_json(c), "servers"@, JsonView::Object(m)));
    assert forall|i: int| 0 <= i < m.len() implies (#[trigger] m[i]).0 == c.servers[i].name
        && members::holds(m[i].1, "url"@, JsonView::Text(c.servers[i].url)) && members::holds(
        m[i].1,
        "key"@,
        JsonView::Text(c.servers[i].key),
    ) by {
        law_server_in_the_file(c.servers[i]);
    }
    if let Some(name) = c.default {
        assert(f[0] == ("default"@, JsonView::Text(name)));
    } else {
        assert(f[0] == ("default"@, JsonView::Null));
    }
}

/// What is read from the file is there with both a URL and a key, each a text under its
/// name; a server without one of them is not usable.
pub proof fn law_usable_server(v: JsonView)
    ensures
        config::usable(v) matches Some((url, key)) ==> members::holds(
            v,
            "url"@,
            JsonView::Text(url),
        ) && members::holds(v, "key"@, JsonView::Text(key)),
        config::usable(v) is None ==> !(json::member(v, "url"@) matches Some(JsonView::Text(_)))
            || !(json::member(v, "key"@) matches Some(JsonView::Text(_))),
{
    members::law_member_is_found(v, "url"@);
    members::law_member_is_found(v, "key"@);
    members::law_kinds_of_members(v, "url"@);
    members::law_kinds_of_members(v, "key"@);
}

/// Of several usable servers with a name the last counts, and there is none only where
/// none is usable.
pub proof fn law_last_usable_server_counts(m: Seq<(Seq<char>, JsonView)>, name: Seq<char>)
    ensures
        match config::found(m, name) {
            Some(e) => exists|i: int|
                0 <= i < m.len() && (#[trigger] m[i]).0 == name && config::usable(m[i].1) == Some(e)
                    && forall|j: int|
                    i < j < m.len() ==> (#[trigger] m[j]).0 != name || config::usable(
                        m[j].1,
                    ) is None,
            None => forall|j: int|
                0 <= j < m.len() ==> (#[trigger] m[j]).0 != name || config::usable(m[j].1) is None,
        },
    decreases m.len(),
{
    if m.len() > 0 {
        let last = m.len() - 1;
        if m[last].0 == name && config::usable(m[last].1) is Some {
        } else {
            let rest = m.drop_last();
            law_last_usable_server_counts(rest, name);
            match config::found(rest, name) {
                Some(e) => {
                    let i = choose|i: int|
                        0 <= i < rest.len() && (#[trigger] rest[i]).0 == name && config::usable(
                            rest[i].1,
                        ) == Some(e) && forall|j: int|
                            i < j < rest.len() ==> (#[trigger] rest[j]).0 != name || config::usable(
                                rest[j].1,
                            ) is None;
                    assert(m[i].0 == name);
                    assert forall|j: int| i < j < m.len() implies (#[trigger] m[j]).0 != name
                        || config::usable(m[j].1) is None by {
                        if j < last {
                            assert(rest[j] == m[j]);
                        }
                    }
                },
                None => {
                    assert forall|j: int| 0 <= j < m.len() implies (#[trigger] m[j]).0 != name
                        || config::usable(m[j].1) is None by {
                        if j < last {
                            assert(rest[j] == m[j]);
                        }
                    }
                },
            }
        }
    }
}

/// What stands in the file is read as it stands: the default is the text under `default`,
/// if there is one, and a server is there with the URL and the key of the last usable one
/// with its name, and only so.
pub proof fn law_file_is_read_as_it_stands(
    v: JsonView,
    c: ConfigView,
    m: Seq<(Seq<char>, JsonView)>,
    i: int,
)
    requires
        config::read_as(v, c),
        members::holds(v, "servers"@, JsonView::Object(m)),
        0 <= i < m.len(),
        config::usable(m[i].1) is Some,
        forall|j: int|
            i < j < m.len() ==> (#[trigger] m[j]).0 != m[i].0 || config::usable(m[j].1) is None,
    ensures
        c.wf(),
        exists|k: int|
            0 <= k < c.servers.len() && (#[trigger] c.servers[k]).name == m[i].0 && Some(
                (c.servers[k].url, c.servers[k].key),
            ) == config::usable(m[i].1),
        json::member(v, "default"@) matches Some(JsonView::Text(d)) ==> c.default == Some(d),
        !(json::member(v, "default"@) matches Some(JsonView::Text(_))) ==> c.default is None,
{
    let name = m[i].0;
    members::law_what_is_held_is_found(v, "servers"@, JsonView::Object(m));
    law_last_usable_server_counts(m, name);
    assert(config::entry(c.servers, name) == config::found(m, name));
    assert(config::found(m, name) == config::usable(m[i].1)) by {
        assert(m[i].0 == name);
    }
    let k = choose|k: int| config::named(c.servers, name, k);
    assert(config::named(c.servers, name, k));
    assert(c.servers[k].name == name);
}

/// Every server of a configuration that was read is a usable one of the file.
pub proof fn law_nothing_else_is_read(v: JsonView, c: ConfigView, k: int)
    requires
        config::read_as(v, c),
        0 <= k < c.servers.len(),
    ensures
        exists|m: Seq<(Seq<char>, JsonView)>, i: int|
            members::holds(v, "servers"@, JsonView::Object(m)) && 0 <= i < m.len() && (
            #[trigger] m[i]).0 == c.servers[k].name && config::usable(m[i].1) == Some(
                (c.servers[k].url, c.servers[k].key),
            ),
{
    let name = c.servers[k].name;
    lemma_configured(c, k);
    let m = config::server_members(v);
    assert(config::entry(c.servers, name) == config::found(m, name));
    law_last_usable_server_counts(m, name);
    members::law_member_is_found(v, "servers"@);
    assert(m.len() > 0);
    let i = choose|i: int|
        0 <= i < m.len() && (#[trigger] m[i]).0 == name && config::usable(m[i].1) == Some(
            (c.servers[k].url, c.servers[k].key),
        );
    assert(m[i].0 == name);
}

// --- The list ---------------------------------------------------------------

/// The line of a server starts with a star exactly where it is the default, and has its
/// name and its URL in columns.
pub proof fn law_line_of_a_server(s: ServerView, default: Option<Seq<char>>)
    ensures
        ({
            let line = config::server_line(s, default);
            let width = if s.name.len() < 12 {
                12
            } else {
                s.name.len()
            };
            &&& line.len() == 3 + width + s.url.len()
            &&& line[0] == if default is Some && default->0 == s.name {
                '*'
            } else {
                ' '
            }
            &&& line[1] == ' '
            &&& line.subrange(2, (2 + s.name.len()) as int) == s.name
            &&& forall|i: int| 2 + s.name.len() <= i < 3 + width ==> line[i] == ' '
            &&& line.skip(3 + width as int) == s.url
        }),
{
    reveal_strlit("*");
    reveal_strlit(" ");
    let line = config::server_line(s, default);
    let p = text::padded(s.name, 12);
    assert(line.subrange(2, (2 + s.name.len()) as int) =~= s.name);
    assert(line.skip(3 + p.len() as int) =~= s.url);
}

/// There is a line for each server, in their order.
pub proof fn law_one_line_for_each_server(c: ConfigView)
    ensures
        config::server_lines(c).len() == c.servers.len(),
        forall|i: int|
            0 <= i < c.servers.len() ==> #[trigger] config::server_lines(c)[i]
                == config::server_line(c.servers[i], c.default),
{
}

/// A file that is no document is told with its path and the reason, and any other is read
/// as it stands.
pub proof fn law_file_that_is_no_document(
    parsed: Result<JsonView, Seq<char>>,
    path: Seq<char>,
    r: Result<config::Config, ClientError>,
)
    requires
        config::loaded(parsed, path, r),
    ensures
        parsed is Ok <==> r is Ok,
        parsed matches Ok(v) ==> config::read_as(v, r->Ok_0@),
        parsed matches Err(e) ==> r->Err_0@ == "invalid JSON in "@ + path + ": "@ + e,
{
}

} // verus!
