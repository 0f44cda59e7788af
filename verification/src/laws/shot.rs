//! Laws on the shots of the client: what a server is asked for, and what becomes of its
//! answer.

use vstd::prelude::*;

use crate::client::admin::Status;
use crate::client::shot;
use crate::client::shot::OutputView;
use crate::client::shot::Shot;
use crate::json::JsonView;
use crate::laws::text as reading;
use crate::target::UrlView;
use crate::text;

verus! {

/// Whether pairs name this value, and nothing else, under a name; or nothing at all.
pub open spec fn names(
    q: Seq<(Seq<char>, Seq<char>)>,
    name: Seq<char>,
    value: Option<Seq<char>>,
) -> bool {
    match value {
        Some(v) => exists|i: int|
            0 <= i < q.len() && #[trigger] q[i] == (name, v) && forall|j: int|
                0 <= j < q.len() && j != i ==> (#[trigger] q[j]).0 != name,
        None => forall|j: int| 0 <= j < q.len() ==> (#[trigger] q[j]).0 != name,
    }
}

/// Whether pairs name this number in decimal digits, and nothing else, under a name; or
/// nothing at all.
pub open spec fn names_number(
    q: Seq<(Seq<char>, Seq<char>)>,
    name: Seq<char>,
    value: Option<int>,
) -> bool {
    match value {
        Some(n) => exists|v: Seq<char>| #[trigger]
            names(q, name, Some(v)) && v.len() > 0 && reading::all_decimal(v)
                && reading::number_value(v, 10) == n,
        None => names(q, name, None),
    }
}

proof fn lemma_one_more(
    q: Seq<(Seq<char>, Seq<char>)>,
    name: Seq<char>,
    value: Option<Seq<char>>,
)
    requires
        names(q, name, None),
    ensures
        names(q + shot::pair_if(name, value), name, value),
        forall|other: Seq<char>, v: Option<Seq<char>>|
            other != name && #[trigger] names(q, other, v) ==> names(
                q + shot::pair_if(name, value),
                other,
                v,
            ),
{
    let more = shot::pair_if(name, value);
    let all = q + more;
    assert forall|j: int| 0 <= j < q.len() implies (#[trigger] all[j]).0 != name by {
        assert(all[j] == q[j]);
    }
    if let Some(v) = value {
        assert(all[q.len() as int] == (name, v));
    }
    assert forall|other: Seq<char>, v: Option<Seq<char>>|
        other != name && #[trigger] names(q, other, v) implies names(all, other, v) by {
        assert forall|j: int| q.len() <= j < all.len() implies (#[trigger] all[j]).0 != other by {
            assert(all[j].0 == name);
        }
        match v {
            Some(t) => {
                let i = choose|i: int|
                    0 <= i < q.len() && #[trigger] q[i] == (other, t) && forall|j: int|
                        0 <= j < q.len() && j != i ==> (#[trigger] q[j]).0 != other;
                assert(all[i] == (other, t));
                assert forall|j: int| 0 <= j < all.len() && j != i implies (#[trigger] all[j]).0
                    != other by {
                    if j < q.len() {
                        assert(all[j] == q[j]);
                    }
                }
            },
            None => {
                assert forall|j: int| 0 <= j < all.len() implies (#[trigger] all[j]).0
                    != other by {
                    if j < q.len() {
                        assert(all[j] == q[j]);
                    }
                }
            },
        }
    }
}

proof fn lemma_number(q: Seq<(Seq<char>, Seq<char>)>, name: Seq<char>, n: Option<u64>)
    requires
        names(
            q,
            name,
            match n {
                Some(n) => Some(text::decimal_text(n as nat)),
                None => None,
            },
        ),
    ensures
        names_number(
            q,
            name,
            match n {
                Some(n) => Some(n as int),
                None => None,
            },
        ),
{
    if let Some(n) = n {
        reading::law_decimal_is_read_back(n as nat);
        assert(names(q, name, Some(text::decimal_text(n as nat))));
    }
}

/// Whatever the tunnel, the query of a shot names the page, and the width, the height, the
/// ratio, the time and the tunnel each under its own name, each once, and each exactly where
/// it is given. Read back, the numbers are those of the shot.
pub proof fn law_query_names_what_is_given(s: Shot, tunnel_id: Option<Seq<char>>)
    ensures
        ({
            let q = shot::shot_query(s, tunnel_id);
            &&& names(q, "url"@, Some(s.url@))
            &&& names_number(
                q,
                "w"@,
                match s.width {
                    Some(w) => Some(w as int),
                    None => None,
                },
            )
            &&& names_number(
                q,
                "height"@,
                match s.height {
                    Some(h) => Some(h as int),
                    None => None,
                },
            )
            &&& names(
                q,
                "dpr"@,
                match s.dpr {
                    Some(d) => Some(d@),
                    None => None,
                },
            )
            &&& names_number(
                q,
                "timeout"@,
                match s.timeout {
                    Some(t) => Some(t as int),
                    None => None,
                },
            )
            &&& names(q, "tunnel"@, tunnel_id)
        }),
{
    reveal_strlit("url");
    reveal_strlit("w");
    reveal_strlit("height");
    reveal_strlit("dpr");
    reveal_strlit("timeout");
    reveal_strlit("tunnel");
    assert("url"@.len() == 3 && "w"@.len() == 1 && "height"@.len() == 6 && "dpr"@.len() == 3
        && "timeout"@.len() == 7 && "tunnel"@.len() == 6);
    assert("url"@[0] == 'u' && "dpr"@[0] == 'd' && "height"@[0] == 'h' && "tunnel"@[0] == 't');
    let w = shot::number_if(shot::widened(s.width));
    let h = shot::number_if(shot::widened(s.height));
    let d = text::opt_text(s.dpr);
    let t = shot::number_if(s.timeout);
    let q0 = seq![("url"@, s.url@)];
    assert(q0[0] == ("url"@, s.url@));
    assert(names(q0, "url"@, Some(s.url@)));
    assert(names(q0, "w"@, None) && names(q0, "height"@, None) && names(q0, "dpr"@, None) && names(
        q0,
        "timeout"@,
        None,
    ) && names(q0, "tunnel"@, None));
    let q1 = q0 + shot::pair_if("w"@, w);
    lemma_one_more(q0, "w"@, w);
    let q2 = q1 + shot::pair_if("height"@, h);
    lemma_one_more(q1, "height"@, h);
    let q3 = q2 + shot::pair_if("dpr"@, d);
    lemma_one_more(q2, "dpr"@, d);
    let q4 = q3 + shot::pair_if("timeout"@, t);
    lemma_one_more(q3, "timeout"@, t);
    let q5 = q4 + shot::pair_if("tunnel"@, tunnel_id);
    lemma_one_more(q4, "tunnel"@, tunnel_id);
    assert(q5 == shot::shot_query(s, tunnel_id));
    lemma_number(q5, "w"@, shot::widened(s.width));
    lemma_number(q5, "height"@, shot::widened(s.height));
    lemma_number(q5, "timeout"@, s.timeout);
}

/// The query of a shot has no other names than these.
pub proof fn law_query_names_nothing_else(s: Shot, tunnel_id: Option<Seq<char>>, i: int)
    requires
        0 <= i < shot::shot_query(s, tunnel_id).len(),
    ensures
        ({
            let name = shot::shot_query(s, tunnel_id)[i].0;
            name == "url"@ || name == "w"@ || name == "height"@ || name == "dpr"@ || name
                == "timeout"@ || name == "tunnel"@
        }),
{
}

/// A server that reads a query back gets each value of the shot under its name, whatever
/// the others are.
pub proof fn law_server_reads_the_shot(s: Shot, tunnel_id: Option<Seq<char>>)
    ensures
        ({
            let q = shot::shot_query(s, tunnel_id);
            &&& crate::handlers::first_value(q, "url"@) == Some(s.url@)
            &&& s.width matches Some(w) ==> crate::handlers::first_value(q, "w"@) matches Some(v)
                && reading::number_value(v, 10) == w
            &&& s.width is None ==> crate::handlers::first_value(q, "w"@) is None
            &&& s.height matches Some(h) ==> crate::handlers::first_value(q, "height"@) matches Some(
                v,
            ) && reading::number_value(v, 10) == h
            &&& s.height is None ==> crate::handlers::first_value(q, "height"@) is None
            &&& s.dpr matches Some(d) ==> crate::handlers::first_value(q, "dpr"@) == Some(d@)
            &&& s.dpr is None ==> crate::handlers::first_value(q, "dpr"@) is None
            &&& s.timeout matches Some(t) ==> crate::handlers::first_value(q, "timeout"@) matches Some(
                v,
            ) && reading::number_value(v, 10) == t
            &&& s.timeout is None ==> crate::handlers::first_value(q, "timeout"@) is None
            &&& crate::handlers::first_value(q, "tunnel"@) == tunnel_id
        }),
{
    let q = shot::shot_query(s, tunnel_id);
    law_query_names_what_is_given(s, tunnel_id);
    lemma_first(q, "url"@);
    lemma_first(q, "w"@);
    lemma_first(q, "height"@);
    lemma_first(q, "dpr"@);
    lemma_first(q, "timeout"@);
    lemma_first(q, "tunnel"@);
}

proof fn lemma_first(q: Seq<(Seq<char>, Seq<char>)>, name: Seq<char>)
    ensures
        forall|value: Option<Seq<char>>| #[trigger]
            names(q, name, value) ==> crate::handlers::first_value(q, name) == value,
{
    crate::laws::handlers::law_first_pair_counts(q, name);
    assert forall|value: Option<Seq<char>>| #[trigger] names(
        q,
        name,
        value,
    ) implies crate::handlers::first_value(q, name) == value by {
        match value {
            Some(v) => {
                let i = choose|i: int|
                    0 <= i < q.len() && #[trigger] q[i] == (name, v) && forall|j: int|
                        0 <= j < q.len() && j != i ==> (#[trigger] q[j]).0 != name;
                assert(q[i].0 == name);
            },
            None => {},
        }
    }
}

/// A shot is asked for at `/shot` below the server, with one slash between, however many
/// the URL of the server ends with.
pub proof fn law_where_shots_are_taken(server: Seq<char>, slashes: Seq<char>)
    requires
        server.len() > 0 ==> server.last() != '/',
        forall|i: int| 0 <= i < slashes.len() ==> slashes[i] == '/',
    ensures
        shot::shot_endpoint(server + slashes) == server + "/shot"@,
{
    reading::law_slashes_do_not_matter(server, slashes);
}

/// The image is the body of a success, as it is; any other answer is an error with the
/// status and the reason of the server.
pub proof fn law_only_a_success_has_an_image(
    status: Status,
    body: Seq<u8>,
    parsed: Result<JsonView, Seq<char>>,
    lossy: Seq<char>,
)
    ensures
        200 <= status.code < 300 ==> shot::fetched(status, body, parsed, lossy) == Ok::<
            Seq<u8>,
            Seq<char>,
        >(body),
        !(200 <= status.code < 300) ==> match parsed {
            Ok(v) => match crate::json::member(v, "error"@) {
                Some(JsonView::Text(why)) => shot::fetched(status, body, parsed, lossy) == Err::<
                    Seq<u8>,
                    Seq<char>,
                >("server returned "@ + status.text@ + ": "@ + why),
                _ => shot::fetched(status, body, parsed, lossy) == Err::<Seq<u8>, Seq<char>>(
                    "server returned "@ + status.text@ + ": "@ + lossy,
                ),
            },
            Err(_) => shot::fetched(status, body, parsed, lossy) == Err::<Seq<u8>, Seq<char>>(
                "server returned "@ + status.text@ + ": "@ + lossy,
            ),
        },
{
}

/// A page is the one that was parsed; where there is none, the text and the reason are
/// told.
pub proof fn law_page_is_the_one_named(url: Seq<char>, parsed: Result<UrlView, Seq<char>>)
    ensures
        parsed matches Ok(p) ==> shot::page_of(url, parsed) == Ok::<UrlView, Seq<char>>(p),
        parsed matches Err(e) ==> shot::page_of(url, parsed) == Err::<UrlView, Seq<char>>(
            "invalid url: "@ + url + ": "@ + e,
        ),
{
}

/// An image goes where it is told to, a dash being the standard output; else to a file
/// with the name of the host.
pub proof fn law_where_an_image_goes(path: Seq<char>, host: Seq<char>)
    ensures
        path == seq!['-'] ==> shot::output_of(Some(path), Some(host)) is Stdout
            && shot::output_of(Some(path), None) is Stdout,
        path != seq!['-'] ==> shot::output_of(Some(path), Some(host)) == OutputView::File(path)
            && shot::output_of(Some(path), None) == OutputView::File(path),
        shot::output_of(None, Some(host)) == OutputView::File(host + ".png"@),
        shot::output_of(None, None) == OutputView::File("shot.png"@),
{
    reveal_strlit("-");
    reveal_strlit("shot");
    reveal_strlit(".png");
    reveal_strlit("shot.png");
    assert("-"@ =~= seq!['-']);
    assert("shot"@ + ".png"@ =~= "shot.png"@);
}

/// The URL of a shot is the one that the pairs were appended to; what is wrong with the URL
/// of the server is told.
pub proof fn law_url_of_a_shot(url: Seq<char>, e: Seq<char>)
    ensures
        shot::shot_url_of(Ok(url)) == Ok::<Seq<char>, Seq<char>>(url),
        shot::shot_url_of(Err(e)) == Err::<Seq<char>, Seq<char>>("invalid server url: "@ + e),
{
    reveal_strlit("invalid server url");
    reveal_strlit(": ");
    reveal_strlit("invalid server url: ");
    assert("invalid server url"@ + ": "@ =~= "invalid server url: "@);
}

/// The URL of a shot fits unless it would outgrow 32 bits, and where the server has no URL
/// there is nothing to outgrow.
pub proof fn law_when_a_shot_fits(s: Shot, tunnel_id: Option<Seq<char>>)
    ensures
        match crate::target::url_parse(shot::shot_endpoint(s.server@)) {
            Ok(u) => shot::shot_fits(s, tunnel_id) <==> text::utf8(u.href).len() + 1
                + crate::target::escaped_size(shot::shot_query(s, tunnel_id)) <= 0xffff_ffff,
            Err(_) => shot::shot_fits(s, tunnel_id),
        },
{
}

} // verus!
