//! Managing the keys of a server from afar.

use vstd::prelude::*;

use crate::client::ClientError;
use crate::crypto;
use crate::error;
use crate::error::ApiErrorView;
use crate::json;
use crate::json::Json;
use crate::json::JsonView;
use crate::key_cli;
use crate::keys;
use crate::keys::KeyEntryView;
use crate::keys::KeyInfoView;
use crate::text;

verus! {

/// A subcommand.
#[derive(Debug)]
pub enum KeysCmd {
    /// Make a key, and show its secret once.
    Create { label: String, role: String },
    /// List the keys, without their secrets.
    List,
    /// Disable a key.
    Disable { id: String },
    /// Enable a key again.
    Enable { id: String },
    /// Delete a key.
    Delete { id: String },
    /// Give a key the role of an admin.
    Promote { id: String },
    /// Take the role of an admin from a key.
    Demote { id: String },
}

// --- Requests ---------------------------------------------------------------

/// The method of a request.
#[derive(Debug, Clone, Copy, PartialEq, Eq, Structural)]
pub enum Method {
    Get,
    Post,
    Delete,
}

/// A request to a server.
#[derive(Debug)]
pub struct Request {
    pub method: Method,
    pub url: String,
    pub body: Option<Json>,
}

/// A [`Request`] over sequences.
pub struct RequestView {
    pub method: Method,
    pub url: Seq<char>,
    pub body: Option<JsonView>,
}

impl View for Request {
    type V = RequestView;

    open spec fn view(&self) -> RequestView {
        RequestView {
            method: self.method,
            url: self.url@,
            body: match self.body {
                Some(v) => Some(v@),
                None => None,
            },
        }
    }
}

/// The body that names a role.
pub open spec fn role_body(role: Seq<char>) -> JsonView {
    JsonView::Object(seq![("role"@, JsonView::Text(role))])
}

/// The body that describes a new key.
pub open spec fn create_body(label: Seq<char>, role: Seq<char>) -> JsonView {
    JsonView::Object(seq![("label"@, JsonView::Text(label)), ("role"@, JsonView::Text(role))])
}

/// The URL of the keys of a server.
pub open spec fn keys_url(base: Seq<char>) -> Seq<char> {
    text::no_trailing_slash(base) + "/admin/keys"@
}

/// The URL of a key of a server.
pub open spec fn key_url(base: Seq<char>, id: Seq<char>) -> Seq<char> {
    keys_url(base) + "/"@ + id
}

/// The request that a subcommand makes to a server.
pub open spec fn requested(base: Seq<char>, cmd: KeysCmd) -> RequestView {
    match cmd {
        KeysCmd::Create { label, role } => RequestView {
            method: Method::Post,
            url: keys_url(base),
            body: Some(create_body(label@, role@)),
        },
        KeysCmd::List => RequestView { method: Method::Get, url: keys_url(base), body: None },
        KeysCmd::Disable { id } => RequestView {
            method: Method::Post,
            url: key_url(base, id@) + "/disable"@,
            body: None,
        },
        KeysCmd::Enable { id } => RequestView {
            method: Method::Post,
            url: key_url(base, id@) + "/enable"@,
            body: None,
        },
        KeysCmd::Delete { id } => RequestView {
            method: Method::Delete,
            url: key_url(base, id@),
            body: None,
        },
        KeysCmd::Promote { id } => RequestView {
            method: Method::Post,
            url: key_url(base, id@) + "/role"@,
            body: Some(role_body("admin"@)),
        },
        KeysCmd::Demote { id } => RequestView {
            method: Method::Post,
            url: key_url(base, id@) + "/role"@,
            body: Some(role_body("render"@)),
        },
    }
}

fn with_role(role: &str) -> (r: Json)
    ensures
        r@ == role_body(role@),
        json::canonical(r@, json::MAX_DEPTH as nat),
{
    let mut fields: Vec<(String, Json)> = Vec::new();
    fields.push((text::owned("role"), Json::Text(text::owned(role))));
    proof {
        json::lemma_object_view(fields);
        assert(json::members_view(fields@) =~= role_body(role@)->Object_0);
        reveal_with_fuel(json::canonical, 2);
    }
    Json::Object(fields)
}

fn with_label(label: &str, role: &str) -> (r: Json)
    ensures
        r@ == create_body(label@, role@),
        json::canonical(r@, json::MAX_DEPTH as nat),
{
    let mut fields: Vec<(String, Json)> = Vec::new();
    fields.push((text::owned("label"), Json::Text(text::owned(label))));
    fields.push((text::owned("role"), Json::Text(text::owned(role))));
    proof {
        json::lemma_object_view(fields);
        assert(json::members_view(fields@) =~= create_body(label@, role@)->Object_0);
        reveal_strlit("label");
        reveal_strlit("role");
        assert(text::precedes("label"@, "role"@));
        reveal_with_fuel(json::canonical, 2);
    }
    Json::Object(fields)
}

fn keys_at(base: &str) -> (r: String)
    ensures
        r@ == keys_url(base@),
{
    let base = text::trim_slashes(base);
    text::cat2(&base, "/admin/keys")
}

fn key_at(base: &str, id: &str, action: &str) -> (r: String)
    ensures
        r@ == key_url(base@, id@) + action@,
{
    let keys = keys_at(base);
    text::cat4(&keys, "/", id, action)
}

/// The request that a subcommand makes to the server at `base`. Its body, if it has
/// one, can be written as a document.
pub fn request(base: &str, cmd: &KeysCmd) -> (r: Request)
    ensures
        r@ == requested(base@, *cmd),
        r.body matches Some(b) ==> json::canonical(b@, json::MAX_DEPTH as nat),
{
    match cmd {
        KeysCmd::Create { label, role } => Request {
            method: Method::Post,
            url: keys_at(base),
            body: Some(with_label(label, role)),
        },
        KeysCmd::List => Request { method: Method::Get, url: keys_at(base), body: None },
        KeysCmd::Disable { id } => Request {
            method: Method::Post,
            url: key_at(base, id, "/disable"),
            body: None,
        },
        KeysCmd::Enable { id } => Request {
            method: Method::Post,
            url: key_at(base, id, "/enable"),
            body: None,
        },
        KeysCmd::Delete { id } => {
            let url = key_at(base, id, "");
            proof {
                reveal_strlit("");
                assert(url@ =~= key_url(base@, id@));
            }
            Request { method: Method::Delete, url, body: None }
        },
        KeysCmd::Promote { id } => Request {
            method: Method::Post,
            url: key_at(base, id, "/role"),
            body: Some(with_role("admin")),
        },
        KeysCmd::Demote { id } => Request {
            method: Method::Post,
            url: key_at(base, id, "/role"),
            body: Some(with_role("render")),
        },
    }
}

// --- Responses --------------------------------------------------------------

/// The status of a response.
#[derive(Debug)]
pub struct Status {
    /// The number of the status.
    pub code: u16,
    /// The status in words, with its number.
    pub text: String,
}

/// Whether a status is a success.
pub open spec fn is_success(code: u16) -> bool {
    200 <= code < 300
}

/// What a server says about a failure: the error in its answer, or else the answer
/// as it is.
pub open spec fn said(parsed: Result<JsonView, Seq<char>>, lossy: Seq<char>) -> Seq<char> {
    match parsed {
        Ok(v) => match json::text_member(v, "error"@) {
            Some(e) => e,
            None => lossy,
        },
        Err(_) => lossy,
    }
}

/// The error of a response that is no success.
pub open spec fn failure(
    status: Seq<char>,
    parsed: Result<JsonView, Seq<char>>,
    lossy: Seq<char>,
) -> Seq<char> {
    "server returned "@ + status + ": "@ + said(parsed, lossy)
}

/// The error of a response that is no success, whose answer was parsed to `parsed`
/// and is `lossy` as text.
pub fn failed(status: &str, parsed: Result<Json, String>, lossy: String) -> (r: ClientError)
    ensures
        r@ == failure(status@, json::parsed_view(parsed), lossy@),
{
    let why = match parsed {
        Ok(v) => match v.get_text("error") {
            Some(e) => e,
            None => lossy,
        },
        Err(_) => lossy,
    };
    ClientError(text::cat4("server returned ", status, ": ", &why))
}

/// The error of a response that is no success.
pub fn response_failed(status: &Status, body: &[u8]) -> (r: ClientError)
    ensures
        r@ == failure(status.text@, json::json_parse(body@), crypto::utf8_lossy(body@)),
{
    failed(&status.text, Json::parse(body), crypto::lossy_text(body))
}

/// What a server answered to a subcommand, its answer parsed to `parsed`. An answer
/// that is no JSON counts as null.
pub open spec fn answered(
    status: Status,
    parsed: Result<JsonView, Seq<char>>,
    lossy: Seq<char>,
) -> Result<JsonView, Seq<char>> {
    if status.code == 403 {
        Err("insufficient permission: needs an admin key"@)
    } else if !is_success(status.code) {
        Err(failure(status.text@, parsed, lossy))
    } else {
        match parsed {
            Ok(v) => Ok(v),
            Err(_) => Ok(JsonView::Null),
        }
    }
}

/// The view of an answer.
pub open spec fn answer_view(r: Result<Json, ClientError>) -> Result<JsonView, Seq<char>> {
    match r {
        Ok(v) => Ok(v@),
        Err(e) => Err(e@),
    }
}

/// What a server answered, its answer parsed to `parsed` and `lossy` as text.
pub fn answer(status: &Status, parsed: Result<Json, String>, lossy: String) -> (r: Result<
    Json,
    ClientError,
>)
    ensures
        answer_view(r) == answered(*status, json::parsed_view(parsed), lossy@),
{
    if status.code == 403 {
        return Err(ClientError::new("insufficient permission: needs an admin key"));
    }
    if !(200 <= status.code && status.code < 300) {
        return Err(failed(&status.text, parsed, lossy));
    }
    match parsed {
        Ok(v) => Ok(v),
        Err(_) => Ok(Json::Null),
    }
}

/// What a server answered to a subcommand, or why it refused it.
pub fn response(status: &Status, body: &[u8]) -> (r: Result<Json, ClientError>)
    ensures
        answer_view(r) == answered(*status, json::json_parse(body@), crypto::utf8_lossy(body@)),
{
    answer(status, Json::parse(body), crypto::lossy_text(body))
}

// --- Reports ----------------------------------------------------------------

/// The text of a member, or a question mark where there is none.
pub open spec fn text_or_unknown(v: JsonView, name: Seq<char>) -> Seq<char> {
    match json::text_member(v, name) {
        Some(t) => t,
        None => "?"@,
    }
}

/// The line of a key in a list.
pub open spec fn key_line(v: JsonView) -> Seq<char> {
    key_cli::list_line(
        text_or_unknown(v, "id"@),
        text_or_unknown(v, "label"@),
        text_or_unknown(v, "role"@),
        match json::number_member(v, "created_at"@) {
            Some(n) => n,
            None => 0,
        },
        match json::bool_member(v, "disabled"@) {
            Some(b) => b,
            None => false,
        },
    )
}

/// The keys in an answer.
pub open spec fn listed(v: JsonView) -> Seq<JsonView> {
    match v {
        JsonView::List(keys) => keys,
        _ => seq![],
    }
}

/// What is printed for the answer to a subcommand.
pub open spec fn reported(cmd: KeysCmd, v: JsonView) -> Seq<Seq<char>> {
    match cmd {
        KeysCmd::Create { .. } => seq![
            "Created key id="@ + text_or_unknown(v, "id"@) + " label="@ + text_or_unknown(
                v,
                "label"@,
            ) + " role="@ + text_or_unknown(v, "role"@),
            "Secret (shown once, store it now):\n"@ + text_or_unknown(v, "secret"@),
        ],
        KeysCmd::List => if listed(v).len() == 0 {
            seq!["(no keys)"@]
        } else {
            listed(v).map_values(|k: JsonView| key_line(k))
        },
        KeysCmd::Disable { id } => seq!["Disabled key id="@ + id@],
        KeysCmd::Enable { id } => seq!["Enabled key id="@ + id@],
        KeysCmd::Delete { id } => seq!["Deleted key id="@ + id@],
        KeysCmd::Promote { id } => seq!["Promoted key id="@ + id@ + " to admin"@],
        KeysCmd::Demote { id } => seq!["Demoted key id="@ + id@ + " to render"@],
    }
}

fn text_of(v: &Json, name: &str) -> (r: String)
    ensures
        r@ == text_or_unknown(v@, name@),
{
    match v.get_text(name) {
        Some(t) => t,
        None => text::owned("?"),
    }
}

fn line_of(v: &Json) -> (r: String)
    ensures
        r@ == key_line(v@),
{
    let id = text_of(v, "id");
    let label = text_of(v, "label");
    let role = text_of(v, "role");
    let created_at = match v.get_number("created_at") {
        Some(n) => n,
        None => 0,
    };
    let disabled = match v.get_bool("disabled") {
        Some(b) => b,
        None => false,
    };
    key_cli::format_line(&id, &label, &role, created_at, disabled)
}

fn lines_of(keys: &Vec<Json>) -> (r: Vec<String>)
    ensures
        text::texts(r@) == json::items_view(keys@).map_values(|k: JsonView| key_line(k)),
{
    let ghost all = json::items_view(keys@).map_values(|k: JsonView| key_line(k));
    let mut lines: Vec<String> = Vec::new();
    let mut i: usize = 0;
    while i < keys.len()
        invariant
            i <= keys@.len(),
            all == json::items_view(keys@).map_values(|k: JsonView| key_line(k)),
            text::texts(lines@) == all.take(i as int),
        decreases keys@.len() - i,
    {
        let ghost before = lines@;
        let line = line_of(&keys[i]);
        assert(json::items_view(keys@)[i as int] == keys@[i as int]@);
        lines.push(line);
        i = i + 1;
        assert(text::texts(lines@) =~= text::texts(before).push(line@));
        assert(text::texts(lines@) =~= all.take(i as int));
    }
    assert(all.take(i as int) =~= all);
    lines
}

fn one(line: String) -> (r: Vec<String>)
    ensures
        text::texts(r@) == seq![line@],
{
    let mut lines: Vec<String> = Vec::new();
    lines.push(line);
    assert(text::texts(lines@) =~= seq![line@]);
    lines
}

/// What is printed for the answer to a subcommand.
pub fn report(cmd: &KeysCmd, v: &Json) -> (r: Vec<String>)
    ensures
        text::texts(r@) == reported(*cmd, v@),
{
    match cmd {
        KeysCmd::Create { .. } => {
            let id = text_of(v, "id");
            let label = text_of(v, "label");
            let role = text_of(v, "role");
            let secret = text_of(v, "secret");
            let created = text::cat6("Created key id=", &id, " label=", &label, " role=", &role);
            let shown = text::cat2("Secret (shown once, store it now):\n", &secret);
            let mut lines: Vec<String> = Vec::new();
            lines.push(created);
            lines.push(shown);
            assert(text::texts(lines@) =~= seq![created@, shown@]);
            lines
        },
        KeysCmd::List => {
            let lines = match v {
                Json::List(keys) => {
                    proof {
                        json::lemma_list_view(*keys);
                    }
                    lines_of(keys)
                },
                _ => Vec::new(),
            };
            assert(text::texts(lines@) =~= listed(v@).map_values(|k: JsonView| key_line(k)));
            if lines.len() == 0 {
                one(text::owned("(no keys)"))
            } else {
                lines
            }
        },
        KeysCmd::Disable { id } => one(text::cat2("Disabled key id=", id)),
        KeysCmd::Enable { id } => one(text::cat2("Enabled key id=", id)),
        KeysCmd::Delete { id } => one(text::cat2("Deleted key id=", id)),
        KeysCmd::Promote { id } => one(text::cat3("Promoted key id=", id, " to admin")),
        KeysCmd::Demote { id } => one(text::cat3("Demoted key id=", id, " to render")),
    }
}

/// A client shows the reason for which a server refused its request, and takes no
/// refusal for a success.
pub proof fn law_client_is_told_the_reason(e: ApiErrorView, status: Seq<char>, lossy: Seq<char>)
    ensures
        !is_success(error::status_of(e)),
        failure(status, Ok(error::body_of(e)), lossy) == "server returned "@ + status + ": "@
            + error::message_of(e),
{
    let fields = error::body_of(e)->Object_0;
    assert(fields[0].0 == "error"@);
}

/// A request with a key that may not manage keys is reported as such.
pub proof fn law_forbidden_needs_an_admin_key(
    m: Seq<char>,
    status: Status,
    parsed: Result<JsonView, Seq<char>>,
    lossy: Seq<char>,
)
    requires
        status.code == error::status_of(ApiErrorView::Forbidden(m)),
    ensures
        answered(status, parsed, lossy) == Err::<JsonView, Seq<char>>(
            "insufficient permission: needs an admin key"@,
        ),
{
}

proof fn lemma_told(i: KeyInfoView, secret: Seq<char>)
    ensures
        ({
            let v = keys::info_json(i);
            &&& json::text_member(v, "id"@) == Some(i.id)
            &&& json::text_member(v, "label"@) == Some(i.label)
            &&& json::text_member(v, "role"@) == Some(keys::role_name(i.role))
            &&& json::number_member(v, "created_at"@) == Some(i.created_at)
            &&& json::bool_member(v, "disabled"@) == Some(i.disabled)
        }),
        ({
            let v = keys::created_json(i, secret);
            &&& json::text_member(v, "id"@) == Some(i.id)
            &&& json::text_member(v, "label"@) == Some(i.label)
            &&& json::text_member(v, "role"@) == Some(keys::role_name(i.role))
            &&& json::text_member(v, "secret"@) == Some(secret)
        }),
{
    reveal_strlit("id");
    reveal_strlit("label");
    reveal_strlit("role");
    reveal_strlit("created_at");
    reveal_strlit("disabled");
    reveal_strlit("secret");
    assert("id"@.len() == 2 && "label"@.len() == 5 && "role"@.len() == 4 && "created_at"@.len()
        == 10 && "disabled"@.len() == 8 && "secret"@.len() == 6);
    reveal_with_fuel(json::lookup, 7);
    let f0 = keys::info_json(i)->Object_0;
    let f1 = f0.skip(1);
    let f2 = f1.skip(1);
    let f3 = f2.skip(1);
    let f4 = f3.skip(1);
    assert(f1[0] == f0[1] && f2[0] == f0[2] && f3[0] == f0[3] && f4[0] == f0[4]);
    let g0 = keys::created_json(i, secret)->Object_0;
    let g1 = g0.skip(1);
    let g2 = g1.skip(1);
    let g3 = g2.skip(1);
    let g4 = g3.skip(1);
    let g5 = g4.skip(1);
    assert(g0[0] == f0[0] && g1[0] == f0[1] && g2[0] == f0[2] && g3[0] == f0[3] && g4[0] == f0[4]);
    assert(g5[0] == ("secret"@, JsonView::Text(secret)));
}

/// A list of keys from afar shows of a key what a list on the server shows.
pub proof fn law_remote_list_shows_the_same(e: KeyEntryView)
    ensures
        key_line(keys::info_json(keys::info_of(e))) == key_cli::entry_line(e),
{
    lemma_told(keys::info_of(e), seq![]);
}

/// A key that is made from afar is reported as one that is made on the server, with
/// its secret.
pub proof fn law_remote_creation_is_reported_the_same(
    cmd: KeysCmd,
    keys: Seq<KeyEntryView>,
    e: KeyEntryView,
    secret: Seq<char>,
)
    requires
        cmd is Create,
    ensures
        reported(cmd, keys::created_json(keys::info_of(e), secret)) == key_cli::created(
            keys,
            e.label,
            e.role,
            e.id,
            secret,
            e.created_at,
        ).lines,
{
    lemma_told(keys::info_of(e), secret);
}

} // verus!
