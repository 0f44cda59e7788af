//! The API-key store. A key is kept as the SHA-256 hash of its secret only; the
//! secret is shown once, when the key is made.
//!
//! The store lives in a file. Reading and writing that file is left to the
//! caller: a change is staged first, and takes effect when the caller reports
//! that the new document was written.

use vstd::prelude::*;

use crate::crypto;
use crate::error::ApiError;
use crate::error::ApiErrorView;
use crate::json;
use crate::json::Json;
use crate::json::JsonView;
use crate::text;

verus! {

/// What a key may be used for.
#[derive(Debug, Clone, Copy, PartialEq, Eq, Structural)]
pub enum Role {
    /// May render pages and open tunnels.
    Render,
    /// May also manage keys.
    Admin,
}

impl Default for Role {
    fn default() -> (r: Role)
        ensures
            r == Role::Render,
    {
        Role::Render
    }
}

/// The name of a role.
pub open spec fn role_name(role: Role) -> Seq<char> {
    match role {
        Role::Render => "render"@,
        Role::Admin => "admin"@,
    }
}

impl Role {
    /// The name of the role.
    pub fn to_text(&self) -> (r: String)
        ensures
            r@ == role_name(*self),
    {
        match self {
            Role::Render => text::owned("render"),
            Role::Admin => text::owned("admin"),
        }
    }
}

/// A stored key.
#[derive(Debug)]
pub struct KeyEntry {
    pub id: String,
    pub label: String,
    /// The SHA-256 hash of the secret, in hexadecimal.
    pub hash: String,
    pub role: Role,
    /// Seconds since the start of 1970.
    pub created_at: u64,
    pub disabled: bool,
}

/// A [`KeyEntry`] with its texts as character sequences.
#[verifier::ext_equal]
pub struct KeyEntryView {
    pub id: Seq<char>,
    pub label: Seq<char>,
    pub hash: Seq<char>,
    pub role: Role,
    pub created_at: u64,
    pub disabled: bool,
}

impl View for KeyEntry {
    type V = KeyEntryView;

    open spec fn view(&self) -> KeyEntryView {
        KeyEntryView {
            id: self.id@,
            label: self.label@,
            hash: self.hash@,
            role: self.role,
            created_at: self.created_at,
            disabled: self.disabled,
        }
    }
}

impl Clone for KeyEntry {
    fn clone(&self) -> (r: KeyEntry)
        ensures
            r == *self,
    {
        KeyEntry {
            id: self.id.clone(),
            label: self.label.clone(),
            hash: self.hash.clone(),
            role: self.role,
            created_at: self.created_at,
            disabled: self.disabled,
        }
    }
}

/// What may be told of a key: everything but its hash.
#[derive(Debug)]
pub struct KeyInfo {
    pub id: String,
    pub label: String,
    pub role: Role,
    pub created_at: u64,
    pub disabled: bool,
}

/// A [`KeyInfo`] with its texts as character sequences.
#[verifier::ext_equal]
pub struct KeyInfoView {
    pub id: Seq<char>,
    pub label: Seq<char>,
    pub role: Role,
    pub created_at: u64,
    pub disabled: bool,
}

impl View for KeyInfo {
    type V = KeyInfoView;

    open spec fn view(&self) -> KeyInfoView {
        KeyInfoView {
            id: self.id@,
            label: self.label@,
            role: self.role,
            created_at: self.created_at,
            disabled: self.disabled,
        }
    }
}

/// What may be told of a key.
pub open spec fn info_of(e: KeyEntryView) -> KeyInfoView {
    KeyInfoView {
        id: e.id,
        label: e.label,
        role: e.role,
        created_at: e.created_at,
        disabled: e.disabled,
    }
}

impl<'a> From<&'a KeyEntry> for KeyInfo {
    fn from(e: &'a KeyEntry) -> (r: KeyInfo) {
        KeyInfo {
            id: e.id.clone(),
            label: e.label.clone(),
            role: e.role,
            created_at: e.created_at,
            disabled: e.disabled,
        }
    }
}

impl<'a> vstd::std_specs::convert::FromSpecImpl<&'a KeyEntry> for KeyInfo {
    open spec fn obeys_from_spec() -> bool {
        true
    }

    open spec fn from_spec(e: &'a KeyEntry) -> KeyInfo {
        KeyInfo {
            id: e.id,
            label: e.label,
            role: e.role,
            created_at: e.created_at,
            disabled: e.disabled,
        }
    }
}

/// What may be told of a key, as a document.
pub open spec fn info_json(i: KeyInfoView) -> JsonView {
    JsonView::Object(
        seq![
            ("created_at"@, JsonView::Number(Some(i.created_at))),
            ("disabled"@, JsonView::Bool(i.disabled)),
            ("id"@, JsonView::Text(i.id)),
            ("label"@, JsonView::Text(i.label)),
            ("role"@, JsonView::Text(role_name(i.role))),
        ],
    )
}

/// What is told of a new key, with its secret, as a document.
pub open spec fn created_json(i: KeyInfoView, secret: Seq<char>) -> JsonView {
    JsonView::Object(info_json(i)->Object_0.push(("secret"@, JsonView::Text(secret))))
}

proof fn lemma_info_is_canonical(i: KeyInfoView, secret: Seq<char>)
    ensures
        json::canonical(info_json(i), json::MAX_DEPTH as nat),
        json::canonical(created_json(i, secret), json::MAX_DEPTH as nat),
{
    reveal_strlit("created_at");
    reveal_strlit("disabled");
    reveal_strlit("id");
    reveal_strlit("label");
    reveal_strlit("role");
    reveal_strlit("secret");
    let members = created_json(i, secret)->Object_0;
    assert(members[0].0[0] == 'c' && members[1].0[0] == 'd' && members[2].0[0] == 'i'
        && members[3].0[0] == 'l' && members[4].0[0] == 'r' && members[5].0[0] == 's');
    assert forall|a: int, b: int| 0 <= a < b < 6 implies text::precedes(
        (#[trigger] members[a]).0,
        (#[trigger] members[b]).0,
    ) by {
        assert(members[a].0[0] < members[b].0[0]);
        assert(members[a].0.len() > 0 && members[b].0.len() > 0);
    }
    let told = info_json(i)->Object_0;
    assert forall|a: int, b: int| 0 <= a < b < 5 implies text::precedes(
        (#[trigger] told[a]).0,
        (#[trigger] told[b]).0,
    ) by {
        assert(told[a] == members[a] && told[b] == members[b]);
    }
    reveal_with_fuel(json::canonical, 2);
}

impl KeyInfo {
    /// What may be told of the key, as a document: neither its secret nor its hash.
    pub fn to_json(&self) -> (r: Json)
        ensures
            r@ == info_json(self@),
            json::canonical(r@, json::MAX_DEPTH as nat),
    {
        let fields = self.fields();
        proof {
            json::lemma_object_view(fields);
            lemma_info_is_canonical(self@, seq![]);
        }
        Json::Object(fields)
    }

    /// What is told of the key when it is made: its secret too, this once.
    pub fn to_json_with_secret(&self, secret: &str) -> (r: Json)
        ensures
            r@ == created_json(self@, secret@),
            json::canonical(r@, json::MAX_DEPTH as nat),
    {
        let mut fields = self.fields();
        let ghost told = json::members_view(fields@);
        fields.push((text::owned("secret"), Json::Text(text::owned(secret))));
        proof {
            json::lemma_object_view(fields);
            assert(json::members_view(fields@) =~= told.push(
                ("secret"@, JsonView::Text(secret@)),
            ));
            lemma_info_is_canonical(self@, secret@);
        }
        Json::Object(fields)
    }

    fn fields(&self) -> (r: Vec<(String, Json)>)
        ensures
            json::members_view(r@) == info_json(self@)->Object_0,
    {
        let mut fields: Vec<(String, Json)> = Vec::new();
        fields.push((text::owned("created_at"), Json::Number(Some(self.created_at))));
        fields.push((text::owned("disabled"), Json::Bool(self.disabled)));
        fields.push((text::owned("id"), Json::Text(self.id.clone())));
        fields.push((text::owned("label"), Json::Text(self.label.clone())));
        fields.push((text::owned("role"), Json::Text(self.role.to_text())));
        assert(json::members_view(fields@) =~= info_json(self@)->Object_0);
        fields
    }
}

/// The document in the key file.
#[derive(Debug)]
pub struct KeyFile {
    pub keys: Vec<KeyEntry>,
}

/// The views of a list of keys.
pub open spec fn entries(keys: Seq<KeyEntry>) -> Seq<KeyEntryView> {
    keys.map_values(|e: KeyEntry| e@)
}

impl View for KeyFile {
    type V = Seq<KeyEntryView>;

    open spec fn view(&self) -> Seq<KeyEntryView> {
        entries(self.keys@)
    }
}

impl Default for KeyFile {
    fn default() -> (r: KeyFile)
        ensures
            r@ == Seq::<KeyEntryView>::empty(),
    {
        let r = KeyFile { keys: Vec::new() };
        assert(r@ =~= Seq::<KeyEntryView>::empty());
        r
    }
}

impl Clone for KeyFile {
    fn clone(&self) -> (r: KeyFile)
        ensures
            r@ == self@,
            r.keys@ == self.keys@,
    {
        let keys = self.keys.clone();
        assert(keys@ =~= self.keys@);
        KeyFile { keys }
    }
}

// --- Secrets ----------------------------------------------------------------

/// The hash that is kept of a secret.
pub open spec fn key_hash(secret: Seq<char>) -> Seq<char> {
    text::hex_text(crypto::sha256(text::utf8(secret)))
}

/// Whether a text can stand in a URL or in quotes without being escaped:
/// letters, digits, `-` and `_` only.
pub open spec fn url_safe(s: Seq<char>) -> bool {
    forall|i: int|
        0 <= i < s.len() ==> {
            let c = #[trigger] s[i];
            'A' <= c <= 'Z' || 'a' <= c <= 'z' || '0' <= c <= '9' || c == '-' || c == '_'
        }
}

/// The SHA-256 hash of a secret, in hexadecimal.
pub fn hash_key(plaintext: &str) -> (r: String)
    ensures
        r@ == key_hash(plaintext@),
        r@.len() == 64,
{
    let d = crypto::digest(plaintext.as_bytes());
    text::hex(&d)
}

/// Whether two byte strings are equal, in a time that does not depend on where
/// they differ. Their lengths are no secret.
pub fn constant_time_eq(a: &[u8], b: &[u8]) -> (r: bool)
    ensures
        r == (a@ == b@),
{
    if a.len() != b.len() {
        return false;
    }
    let mut diff: u8 = 0;
    let mut i: usize = 0;
    while i < a.len()
        invariant
            i <= a.len(),
            a.len() == b.len(),
            diff == 0 <==> (forall|j: int| 0 <= j < i ==> a@[j] == b@[j]),
        decreases a.len() - i,
    {
        let x: u8 = a[i];
        let y: u8 = b[i];
        assert((diff | (x ^ y)) == 0 <==> diff == 0 && x == y) by (bit_vector);
        diff = diff | (x ^ y);
        i = i + 1;
    }
    assert(diff == 0 ==> a@ =~= b@);
    diff == 0
}

/// The seconds since the start of 1970, or zero if the clock is set to before
/// that: what [`secs_of`] makes of the clock, of which nothing is known.
pub fn now_secs() -> u64 {
    secs_of(crypto::unix_time())
}

/// The time that a reading of the clock stands for: its seconds since the start
/// of 1970, or zero for a clock that is set to before that.
pub fn secs_of(reading: Option<u64>) -> (r: u64)
    ensures
        r == (match reading {
            Some(secs) => secs,
            None => 0,
        }),
{
    match reading {
        Some(secs) => secs,
        None => 0,
    }
}

/// Whether a text is what `n` bytes are in URL-safe base64.
pub open spec fn drawn(s: Seq<char>, n: nat) -> bool {
    exists|bytes: Seq<u8>| bytes.len() == n && s == #[trigger] crypto::base64url(bytes)
}

/// The text of drawn bytes can stand in a URL, and has four characters for every
/// three bytes.
pub proof fn lemma_drawn(s: Seq<char>, n: nat)
    requires
        drawn(s, n),
    ensures
        s.len() == (4 * n + 2) / 3,
        url_safe(s),
{
    let bytes = choose|bytes: Seq<u8>|
        bytes.len() == n && s == #[trigger] crypto::base64url(bytes);
    assert forall|i: int| 0 <= i < s.len() implies {
        let c = #[trigger] s[i];
        'A' <= c <= 'Z' || 'a' <= c <= 'z' || '0' <= c <= '9' || c == '-' || c == '_'
    } by {
        crypto::lemma_base64url_alphabet(bytes, i);
    }
}

/// The text that drawn bytes are handed out as: URL-safe base64, without padding.
pub fn text_of(bytes: &[u8]) -> (r: String)
    ensures
        r@ == crypto::base64url(bytes@),
{
    crypto::encode_base64url(bytes)
}

/// The text of `n` bytes that are drawn by chance.
pub(crate) fn random_text(n: usize) -> (r: String)
    requires
        n <= 0x1000,
    ensures
        drawn(r@, n as nat),
{
    let bytes = crypto::random_bytes(n);
    text_of(&bytes)
}

/// A fresh id for a key.
fn gen_id() -> (id: String)
    ensures
        drawn(id@, 6),
{
    random_text(6)
}

/// A fresh id of six bytes and a fresh secret of 32 bytes, in URL-safe base64.
pub fn gen_key() -> (r: (String, String))
    ensures
        exists|b: Seq<u8>| b.len() == 6 && r.0@ == #[trigger] crypto::base64url(b),
        exists|b: Seq<u8>| b.len() == 32 && r.1@ == #[trigger] crypto::base64url(b),
        r.0@.len() == 8,
        url_safe(r.0@),
        r.1@.len() == 43,
        url_safe(r.1@),
{
    let secret = random_text(32);
    let id = gen_id();
    proof {
        lemma_drawn(id@, 6);
        lemma_drawn(secret@, 32);
    }
    (id, secret)
}

// --- The document -----------------------------------------------------------

/// Whether a key is enabled and has this hash.
pub open spec fn matches_hash(e: KeyEntryView, hash: Seq<char>) -> bool {
    !e.disabled && e.hash == hash
}

/// Whether `keys[i]` is the first enabled key with this hash.
pub open spec fn authenticates(keys: Seq<KeyEntryView>, hash: Seq<char>, i: int) -> bool {
    &&& 0 <= i < keys.len()
    &&& matches_hash(keys[i], hash)
    &&& forall|j: int| 0 <= j < i ==> !matches_hash(#[trigger] keys[j], hash)
}

/// Whether these are the id, label and role of the first enabled key with this
/// hash.
pub open spec fn held_by(
    keys: Seq<KeyEntryView>,
    hash: Seq<char>,
    id: Seq<char>,
    label: Seq<char>,
    role: Role,
) -> bool {
    exists|i: int| #[trigger]
        authenticates(keys, hash, i) && id == keys[i].id && label == keys[i].label && role
            == keys[i].role
}

/// Whether no enabled key has this hash.
pub open spec fn unknown_hash(keys: Seq<KeyEntryView>, hash: Seq<char>) -> bool {
    forall|i: int| 0 <= i < keys.len() ==> !matches_hash(#[trigger] keys[i], hash)
}

/// Whether `keys[i]` is the first key with this id.
pub open spec fn first_with_id(keys: Seq<KeyEntryView>, id: Seq<char>, i: int) -> bool {
    &&& 0 <= i < keys.len()
    &&& keys[i].id == id
    &&& forall|j: int| 0 <= j < i ==> (#[trigger] keys[j]).id != id
}

/// Whether no key has this id.
pub open spec fn unknown_id(keys: Seq<KeyEntryView>, id: Seq<char>) -> bool {
    forall|i: int| 0 <= i < keys.len() ==> (#[trigger] keys[i]).id != id
}

/// Whether some key is enabled.
pub open spec fn has_enabled(keys: Seq<KeyEntryView>) -> bool {
    exists|i: int| 0 <= i < keys.len() && !(#[trigger] keys[i]).disabled
}

/// Whether some key is enabled and may manage keys.
pub open spec fn has_admin(keys: Seq<KeyEntryView>) -> bool {
    exists|i: int|
        0 <= i < keys.len() && !(#[trigger] keys[i]).disabled && keys[i].role == Role::Admin
}

/// The keys that do not have this id, in their order.
pub open spec fn without_id(keys: Seq<KeyEntryView>, id: Seq<char>) -> Seq<KeyEntryView> {
    keys.filter(|e: KeyEntryView| e.id != id)
}

/// What is said of an id that no key has.
pub open spec fn no_such_key(id: Seq<char>) -> ApiErrorView {
    ApiErrorView::BadRequest("no key with id "@ + id)
}

/// A change to one key.
#[derive(Debug, Clone, Copy)]
pub enum Edit {
    Disabled(bool),
    Role(Role),
}

/// A key after a change.
pub open spec fn edited(e: KeyEntryView, edit: Edit) -> KeyEntryView {
    match edit {
        Edit::Disabled(disabled) => KeyEntryView { disabled, ..e },
        Edit::Role(role) => KeyEntryView { role, ..e },
    }
}

pub(crate) proof fn lemma_without_id_push(keys: Seq<KeyEntryView>, e: KeyEntryView, id: Seq<char>)
    ensures
        without_id(keys.push(e), id) == if e.id != id {
            without_id(keys, id).push(e)
        } else {
            without_id(keys, id)
        },
{
    reveal(Seq::filter);
    assert(keys.push(e).drop_last() =~= keys);
}

/// The position of the first key with this id.
fn find_id(keys: &Vec<KeyEntry>, id: &str) -> (r: Option<usize>)
    ensures
        match r {
            Some(i) => first_with_id(entries(keys@), id@, i as int),
            None => unknown_id(entries(keys@), id@),
        },
{
    let mut i: usize = 0;
    while i < keys.len()
        invariant
            i <= keys@.len(),
            forall|j: int| 0 <= j < i ==> (#[trigger] entries(keys@)[j]).id != id@,
        decreases keys@.len() - i,
    {
        assert(entries(keys@)[i as int] == keys@[i as int]@);
        if text::str_eq(&keys[i].id, id) {
            return Some(i);
        }
        i = i + 1;
    }
    None
}

impl KeyFile {
    /// Applies a change to the first key with this id, and tells what became of
    /// it.
    pub fn edit(&mut self, id: &str, edit: Edit) -> (r: Result<KeyInfo, ApiError>)
        ensures
            match r {
                Ok(info) => exists|i: int| #[trigger]
                    first_with_id(old(self)@, id@, i) && final(self)@ == old(self)@.update(
                        i,
                        edited(old(self)@[i], edit),
                    ) && info@ == info_of(edited(old(self)@[i], edit)),
                Err(e) => unknown_id(old(self)@, id@) && final(self)@ == old(self)@ && e@
                    == no_such_key(id@),
            },
    {
        match find_id(&self.keys, id) {
            None => Err(ApiError::BadRequest(text::cat2("no key with id ", id))),
            Some(i) => {
                let ghost before = self.keys@;
                let mut e = self.keys[i].clone();
                match edit {
                    Edit::Disabled(disabled) => {
                        e.disabled = disabled;
                    },
                    Edit::Role(role) => {
                        e.role = role;
                    },
                }
                let info = KeyInfo::from(&e);
                let ghost changed = e;
                self.keys.set(i, e);
                proof {
                    assert(entries(before)[i as int] == before[i as int]@);
                    assert(changed@ == edited(before[i as int]@, edit));
                    assert(entries(self.keys@) =~= entries(before).update(i as int, changed@));
                    assert(first_with_id(old(self)@, id@, i as int));
                    assert(info@ == info_of(changed@));
                    assert(self@ == old(self)@.update(i as int, changed@));
                }
                Ok(info)
            },
        }
    }

    /// Removes every key with this id.
    pub fn remove(&mut self, id: &str) -> (r: Result<(), ApiError>)
        ensures
            match r {
                Ok(_) => !unknown_id(old(self)@, id@) && final(self)@ == without_id(
                    old(self)@,
                    id@,
                ),
                Err(e) => unknown_id(old(self)@, id@) && final(self)@ == old(self)@ && e@
                    == no_such_key(id@),
            },
    {
        let mut kept: Vec<KeyEntry> = Vec::new();
        let mut i: usize = 0;
        proof {
            assert(entries(self.keys@).take(0) =~= Seq::empty());
            reveal(Seq::filter);
            assert(entries(kept@) =~= without_id(entries(self.keys@).take(0), id@));
        }
        while i < self.keys.len()
            invariant
                i <= self.keys@.len(),
                self@ == old(self)@,
                entries(kept@) == without_id(self@.take(i as int), id@),
                kept@.len() <= i,
                kept@.len() == i <==> (forall|j: int|
                    0 <= j < i ==> (#[trigger] self@[j]).id != id@),
            decreases self.keys@.len() - i,
        {
            let ghost done = self@.take(i as int);
            let ghost kept_before = kept@;
            proof {
                assert(self@[i as int] == self.keys@[i as int]@);
                assert(self@.take(i + 1) =~= done.push(self@[i as int]));
                lemma_without_id_push(done, self@[i as int], id@);
            }
            if !text::str_eq(&self.keys[i].id, id) {
                let e = self.keys[i].clone();
                kept.push(e);
                assert(entries(kept@) =~= entries(kept_before).push(self@[i as int]));
            }
            i = i + 1;
        }
        assert(self@.take(i as int) =~= self@);
        if kept.len() == self.keys.len() {
            Err(ApiError::BadRequest(text::cat2("no key with id ", id)))
        } else {
            self.keys = kept;
            Ok(())
        }
    }

    /// Adds a key at the end.
    pub fn add(&mut self, e: KeyEntry)
        ensures
            final(self)@ == old(self)@.push(e@),
    {
        let ghost before = self.keys@;
        self.keys.push(e);
        assert(entries(self.keys@) =~= entries(before).push(e@));
    }
}

// --- The file ---------------------------------------------------------------

/// What came of reading the key file.
#[derive(Debug)]
pub enum FileRead {
    /// It holds this document.
    Document(KeyFile),
    /// It holds something else; the text says what is wrong with it.
    Malformed(String),
    /// There is no such file.
    Missing,
    /// It could not be read.
    Failed(String),
}

/// The keys that a read of the key file gives. A missing file has none.
pub open spec fn loaded(read: FileRead) -> Result<Seq<KeyEntryView>, ApiErrorView> {
    match read {
        FileRead::Document(file) => Ok(file@),
        FileRead::Malformed(e) => Err(ApiErrorView::Internal("parse keys file: "@ + e@)),
        FileRead::Missing => Ok(Seq::empty()),
        FileRead::Failed(e) => Err(ApiErrorView::Internal("read keys file: "@ + e@)),
    }
}

/// The document that a read of the key file gives.
pub fn load_file(read: FileRead) -> (r: Result<KeyFile, ApiError>)
    ensures
        loaded(read) == (match r {
            Ok(file) => Ok::<Seq<KeyEntryView>, ApiErrorView>(file@),
            Err(e) => Err(e@),
        }),
{
    match read {
        FileRead::Document(file) => Ok(file),
        FileRead::Malformed(e) => Err(ApiError::Internal(text::cat2("parse keys file: ", &e))),
        FileRead::Missing => Ok(KeyFile::default()),
        FileRead::Failed(e) => Err(ApiError::Internal(text::cat2("read keys file: ", &e))),
    }
}

/// The steps of writing the key file. The document goes to a temporary file
/// first, which then takes the place of the key file, so that a reader finds
/// either the old document or the new one.
#[derive(Debug)]
pub enum Save {
    /// Make the directory that the file is in.
    CreateDir,
    /// Turn the document into text.
    Serialize,
    /// Write the text to the temporary file.
    WriteTemporary,
    /// Move the temporary file over the key file.
    Rename,
    /// Nothing is left to do.
    Finished(Result<(), ApiError>),
}

/// A [`Save`] over sequences.
pub enum SaveView {
    CreateDir,
    Serialize,
    WriteTemporary,
    Rename,
    Finished(Result<(), ApiErrorView>),
}

impl View for Save {
    type V = SaveView;

    open spec fn view(&self) -> SaveView {
        match self {
            Save::CreateDir => SaveView::CreateDir,
            Save::Serialize => SaveView::Serialize,
            Save::WriteTemporary => SaveView::WriteTemporary,
            Save::Rename => SaveView::Rename,
            Save::Finished(Ok(_)) => SaveView::Finished(Ok(())),
            Save::Finished(Err(e)) => SaveView::Finished(Err(e@)),
        }
    }
}

/// The view of what came of a step: nothing, or why it failed.
pub open spec fn outcome_view(outcome: Result<(), String>) -> Option<Seq<char>> {
    match outcome {
        Ok(_) => None,
        Err(e) => Some(e@),
    }
}

/// What is said of a step that failed.
pub open spec fn save_failure(step: SaveView, e: Seq<char>) -> ApiErrorView {
    match step {
        SaveView::CreateDir => ApiErrorView::Internal("create keys dir: "@ + e),
        SaveView::Serialize => ApiErrorView::Internal("serialize keys: "@ + e),
        SaveView::WriteTemporary => ApiErrorView::Internal("write keys tmp: "@ + e),
        _ => ApiErrorView::Internal("rename keys: "@ + e),
    }
}

/// The step after this one, where `failed` tells why it failed, if it did. The
/// first failure ends the writing.
pub open spec fn save_after(step: SaveView, failed: Option<Seq<char>>) -> SaveView {
    match step {
        SaveView::Finished(done) => SaveView::Finished(done),
        _ => match failed {
            Some(e) => SaveView::Finished(Err(save_failure(step, e))),
            None => match step {
                SaveView::CreateDir => SaveView::Serialize,
                SaveView::Serialize => SaveView::WriteTemporary,
                SaveView::WriteTemporary => SaveView::Rename,
                _ => SaveView::Finished(Ok(())),
            },
        },
    }
}

impl Save {
    /// The first step. A path without a directory part needs no directory.
    pub fn start(parent_is_empty: bool) -> (r: Save)
        ensures
            r@ == if parent_is_empty {
                SaveView::Serialize
            } else {
                SaveView::CreateDir
            },
    {
        if parent_is_empty {
            Save::Serialize
        } else {
            Save::CreateDir
        }
    }

    /// The step after this one, given what came of it. The first failure ends
    /// the writing; the key file is replaced only after all else succeeded.
    pub fn next(self, outcome: Result<(), String>) -> (r: Save)
        ensures
            r@ == save_after(self@, outcome_view(outcome)),
    {
        match self {
            Save::Finished(done) => Save::Finished(done),
            Save::CreateDir => match outcome {
                Ok(()) => Save::Serialize,
                Err(e) => Save::Finished(
                    Err(ApiError::Internal(text::cat2("create keys dir: ", &e))),
                ),
            },
            Save::Serialize => match outcome {
                Ok(()) => Save::WriteTemporary,
                Err(e) => Save::Finished(
                    Err(ApiError::Internal(text::cat2("serialize keys: ", &e))),
                ),
            },
            Save::WriteTemporary => match outcome {
                Ok(()) => Save::Rename,
                Err(e) => Save::Finished(
                    Err(ApiError::Internal(text::cat2("write keys tmp: ", &e))),
                ),
            },
            Save::Rename => match outcome {
                Ok(()) => Save::Finished(Ok(())),
                Err(e) => Save::Finished(Err(ApiError::Internal(text::cat2("rename keys: ", &e)))),
            },
        }
    }
}

// --- The store --------------------------------------------------------------

/// A change that is still to be written: the new document, and what the caller
/// is told once it is.
#[derive(Debug)]
pub struct Staged<T> {
    pub file: KeyFile,
    pub value: T,
}

/// The keys that requests are held against, and the place of their file.
pub struct KeyStore<P> {
    path: P,
    inner: KeyFile,
}

impl<P> View for KeyStore<P> {
    type V = Seq<KeyEntryView>;

    closed spec fn view(&self) -> Seq<KeyEntryView> {
        self.inner@
    }
}

/// Whether `e` is what a new key with this secret looks like.
pub open spec fn new_entry(
    e: KeyEntryView,
    label: Seq<char>,
    role: Role,
    secret: Seq<char>,
) -> bool {
    &&& e.label == label
    &&& e.role == role
    &&& e.hash == key_hash(secret)
    &&& !e.disabled
    &&& drawn(e.id, 6)
}

/// Whether `file` is `keys` with one new key behind them, of which `info` tells.
pub open spec fn adds_key(
    keys: Seq<KeyEntryView>,
    label: Seq<char>,
    role: Role,
    secret: Seq<char>,
    file: Seq<KeyEntryView>,
    info: KeyInfoView,
) -> bool {
    exists|e: KeyEntryView| #[trigger]
        new_entry(e, label, role, secret) && file == keys.push(e) && info == info_of(e)
}

/// Whether a staged change edits the first key with this id, or the id is
/// refused because no key has it.
pub open spec fn edit_staged(
    keys: Seq<KeyEntryView>,
    id: Seq<char>,
    edit: Edit,
    r: Result<Staged<KeyInfo>, ApiError>,
) -> bool {
    match r {
        Ok(staged) => exists|i: int| #[trigger]
            first_with_id(keys, id, i) && staged.file@ == keys.update(i, edited(keys[i], edit))
                && staged.value@ == info_of(edited(keys[i], edit)),
        Err(e) => unknown_id(keys, id) && e@ == no_such_key(id),
    }
}

impl<P> KeyStore<P> {
    /// The place of the file.
    pub closed spec fn place(&self) -> P {
        self.path
    }

    /// The store of the keys that a read of the file at `path` gave.
    pub fn load(path: P, read: FileRead) -> (r: Result<KeyStore<P>, ApiError>)
        ensures
            match r {
                Ok(store) => loaded(read) == Ok::<Seq<KeyEntryView>, ApiErrorView>(store@)
                    && store.place() == path,
                Err(e) => loaded(read) == Err::<Seq<KeyEntryView>, ApiErrorView>(e@),
            },
    {
        match load_file(read) {
            Ok(inner) => Ok(KeyStore { path, inner }),
            Err(e) => Err(e),
        }
    }

    /// Takes over what another read of the file gave. If that failed, the store
    /// stays as it is.
    pub fn reload(&mut self, read: FileRead) -> (r: Result<(), ApiError>)
        ensures
            final(self).place() == old(self).place(),
            match r {
                Ok(_) => loaded(read) == Ok::<Seq<KeyEntryView>, ApiErrorView>(final(self)@),
                Err(e) => loaded(read) == Err::<Seq<KeyEntryView>, ApiErrorView>(e@)
                    && final(self)@ == old(self)@,
            },
    {
        match load_file(read) {
            Ok(inner) => {
                self.inner = inner;
                Ok(())
            },
            Err(e) => Err(e),
        }
    }

    /// The place of the file.
    pub fn path(&self) -> (r: &P)
        ensures
            *r == self.place(),
    {
        &self.path
    }

    /// The number of keys.
    pub fn len(&self) -> (r: usize)
        ensures
            r == self@.len(),
    {
        self.inner.keys.len()
    }

    /// The id, label and role of the first enabled key that has the presented
    /// secret, if there is one.
    pub fn verify(&self, presented: &str) -> (r: Option<(String, String, Role)>)
        ensures
            match r {
                Some((id, label, role)) => held_by(
                    self@,
                    key_hash(presented@),
                    id@,
                    label@,
                    role,
                ),
                None => unknown_hash(self@, key_hash(presented@)),
            },
    {
        let hash = hash_key(presented);
        let mut i: usize = 0;
        while i < self.inner.keys.len()
            invariant
                i <= self.inner.keys@.len(),
                hash@ == key_hash(presented@),
                forall|j: int| 0 <= j < i ==> !matches_hash(#[trigger] self@[j], hash@),
            decreases self.inner.keys@.len() - i,
        {
            let e = &self.inner.keys[i];
            assert(self@[i as int] == e@);
            if !e.disabled {
                if constant_time_eq(hash.as_str().as_bytes(), e.hash.as_str().as_bytes()) {
                    proof {
                        text::lemma_utf8_injective(hash@, e.hash@);
                        assert(authenticates(self@, key_hash(presented@), i as int));
                    }
                    return Some((e.id.clone(), e.label.clone(), e.role));
                }
            }
            i = i + 1;
        }
        None
    }

    /// Whether some key is enabled. Without one, every request is refused.
    pub fn has_enabled_keys(&self) -> (r: bool)
        ensures
            r == has_enabled(self@),
    {
        let mut i: usize = 0;
        while i < self.inner.keys.len()
            invariant
                i <= self.inner.keys@.len(),
                forall|j: int| 0 <= j < i ==> (#[trigger] self@[j]).disabled,
            decreases self.inner.keys@.len() - i,
        {
            assert(self@[i as int] == self.inner.keys@[i as int]@);
            if !self.inner.keys[i].disabled {
                return true;
            }
            i = i + 1;
        }
        false
    }

    /// Whether some key is enabled and may manage keys.
    pub fn has_admin_key(&self) -> (r: bool)
        ensures
            r == has_admin(self@),
    {
        let mut i: usize = 0;
        while i < self.inner.keys.len()
            invariant
                i <= self.inner.keys@.len(),
                forall|j: int|
                    0 <= j < i ==> (#[trigger] self@[j]).disabled || self@[j].role != Role::Admin,
            decreases self.inner.keys@.len() - i,
        {
            assert(self@[i as int] == self.inner.keys@[i as int]@);
            if !self.inner.keys[i].disabled && self.inner.keys[i].role == Role::Admin {
                return true;
            }
            i = i + 1;
        }
        false
    }

    /// Makes a staged document the current one, if it was written. Otherwise
    /// the store stays as it is.
    pub fn persist(&mut self, file: KeyFile, saved: Result<(), ApiError>) -> (r: Result<
        (),
        ApiError,
    >)
        ensures
            match saved {
                Ok(_) => r is Ok,
                Err(e) => r matches Err(f) && f == e,
            },
            final(self).place() == old(self).place(),
            final(self)@ == if saved is Ok {
                file@
            } else {
                old(self)@
            },
    {
        match saved {
            Ok(()) => {
                self.inner = file;
                Ok(())
            },
            Err(e) => Err(e),
        }
    }

    /// Stages a new enabled key with this id, secret and time.
    pub fn create_entry(
        &self,
        label: &str,
        role: Role,
        id: String,
        secret: &str,
        created_at: u64,
    ) -> (r: Staged<KeyInfo>)
        ensures
            ({
                let e = KeyEntryView {
                    id: id@,
                    label: label@,
                    hash: key_hash(secret@),
                    role,
                    created_at,
                    disabled: false,
                };
                r.file@ == self@.push(e) && r.value@ == info_of(e)
            }),
    {
        let e = KeyEntry {
            id,
            label: text::owned(label),
            hash: hash_key(secret),
            role,
            created_at,
            disabled: false,
        };
        let value = KeyInfo::from(&e);
        let mut file = self.inner.clone();
        file.add(e);
        Staged { file, value }
    }

    /// Stages a new key with a fresh id and a fresh secret, and tells both.
    pub fn create(&self, label: &str, role: Role) -> (r: Staged<(KeyInfo, String)>)
        ensures
            adds_key(self@, label@, role, r.value.1@, r.file@, r.value.0@),
            drawn(r.value.1@, 32),
    {
        let (id, secret) = gen_key();
        let ghost id_text = id@;
        let created_at = now_secs();
        let ghost secret_text = secret@;
        let Staged { file, value } = self.create_entry(label, role, id, &secret, created_at);
        let r = Staged { file, value: (value, secret) };
        proof {
            let e = KeyEntryView {
                id: id_text,
                label: label@,
                hash: key_hash(secret_text),
                role,
                created_at,
                disabled: false,
            };
            assert(new_entry(e, label@, role, r.value.1@));
            assert(r.file@ == self@.push(e));
            assert(r.value.0@ == info_of(e));
        }
        r
    }

    /// Stages a new key with a fresh id and a given secret.
    pub fn create_with_secret(&self, label: &str, role: Role, secret: &str) -> (r: Staged<KeyInfo>)
        ensures
            adds_key(self@, label@, role, secret@, r.file@, r.value@),
    {
        let id = gen_id();
        let ghost id_text = id@;
        let created_at = now_secs();
        let staged = self.create_entry(label, role, id, secret, created_at);
        proof {
            let e = KeyEntryView {
                id: id_text,
                label: label@,
                hash: key_hash(secret@),
                role,
                created_at,
                disabled: false,
            };
            assert(new_entry(e, label@, role, secret@));
        }
        staged
    }

    /// What may be told of the keys, in their order.
    pub fn list(&self) -> (r: Vec<KeyInfo>)
        ensures
            r@.len() == self@.len(),
            forall|i: int| 0 <= i < r@.len() ==> (#[trigger] r@[i])@ == info_of(self@[i]),
    {
        let mut out: Vec<KeyInfo> = Vec::new();
        let mut i: usize = 0;
        while i < self.inner.keys.len()
            invariant
                i <= self.inner.keys@.len(),
                out@.len() == i,
                forall|j: int| 0 <= j < i ==> (#[trigger] out@[j])@ == info_of(self@[j]),
            decreases self.inner.keys@.len() - i,
        {
            assert(self@[i as int] == self.inner.keys@[i as int]@);
            let info = KeyInfo::from(&self.inner.keys[i]);
            assert(info@ == info_of(self@[i as int]));
            out.push(info);
            i = i + 1;
        }
        out
    }

    /// Stages a change to the first key with this id.
    pub fn mutate(&self, id: &str, edit: Edit) -> (r: Result<Staged<KeyInfo>, ApiError>)
        ensures
            edit_staged(self@, id@, edit, r),
    {
        let mut file = self.inner.clone();
        match file.edit(id, edit) {
            Ok(value) => Ok(Staged { file, value }),
            Err(e) => Err(e),
        }
    }

    /// Stages that the key with this id is disabled, or enabled again.
    pub fn set_disabled(&self, id: &str, disabled: bool) -> (r: Result<Staged<KeyInfo>, ApiError>)
        ensures
            edit_staged(self@, id@, Edit::Disabled(disabled), r),
    {
        self.mutate(id, Edit::Disabled(disabled))
    }

    /// Stages another role for the key with this id.
    pub fn set_role(&self, id: &str, role: Role) -> (r: Result<Staged<KeyInfo>, ApiError>)
        ensures
            edit_staged(self@, id@, Edit::Role(role), r),
    {
        self.mutate(id, Edit::Role(role))
    }

    /// Stages the removal of every key with this id.
    pub fn delete(&self, id: &str) -> (r: Result<Staged<()>, ApiError>)
        ensures
            match r {
                Ok(staged) => !unknown_id(self@, id@) && staged.file@ == without_id(self@, id@),
                Err(e) => unknown_id(self@, id@) && e@ == no_such_key(id@),
            },
    {
        let mut file = self.inner.clone();
        match file.remove(id) {
            Ok(()) => Ok(Staged { file, value: () }),
            Err(e) => Err(e),
        }
    }

    /// Sees to it that keys can be managed remotely: unless an enabled admin key
    /// exists, stages one, with the configured secret if there is one.
    pub fn bootstrap_admin(&self, configured: Option<&str>) -> (r: Bootstrap)
        ensures
            match (r, configured) {
                (Bootstrap::NotNeeded, _) => has_admin(self@),
                (Bootstrap::Seeded(staged), Some(secret)) => !has_admin(self@) && adds_key(
                    self@,
                    "bootstrap"@,
                    Role::Admin,
                    secret@,
                    staged.file@,
                    staged.value@,
                ),
                (Bootstrap::Minted(staged), None) => !has_admin(self@) && adds_key(
                    self@,
                    "bootstrap"@,
                    Role::Admin,
                    staged.value.1@,
                    staged.file@,
                    staged.value.0@,
                ) && drawn(staged.value.1@, 32),
                _ => false,
            },
    {
        if self.has_admin_key() {
            return Bootstrap::NotNeeded;
        }
        match configured {
            Some(secret) => {
                let staged = self.create_with_secret("bootstrap", Role::Admin, secret);
                Bootstrap::Seeded(staged)
            },
            None => {
                let staged = self.create("bootstrap", Role::Admin);
                Bootstrap::Minted(staged)
            },
        }
    }
}

/// How the first admin key comes about.
#[derive(Debug)]
pub enum Bootstrap {
    /// There is an enabled admin key already.
    NotNeeded,
    /// A key with the configured secret.
    Seeded(Staged<KeyInfo>),
    /// A key with a fresh secret, which has to be shown once.
    Minted(Staged<(KeyInfo, String)>),
}

} // verus!
