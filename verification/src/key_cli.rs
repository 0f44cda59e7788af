//! The `keys` subcommands: management of the key file on the spot.

use vstd::prelude::*;

use crate::error::ApiError;
use crate::keys;
use crate::keys::Edit;
use crate::keys::KeyEntry;
use crate::keys::KeyEntryView;
use crate::keys::KeyFile;
use crate::keys::Role;
use crate::text;

verus! {

/// A subcommand.
#[derive(Debug)]
pub enum KeysCmd {
    /// Make a key, and show its secret once.
    Create { label: String, role: Role },
    /// List the keys, without their secrets.
    List,
    /// Disable a key.
    Disable { id: String },
    /// Enable a key again.
    Enable { id: String },
    /// Delete a key.
    Delete { id: String },
}

/// What a subcommand does: the document to write first, if any, and the lines
/// to print then.
#[derive(Debug)]
pub struct CliOutcome {
    pub save: Option<KeyFile>,
    pub lines: Vec<String>,
}

/// A [`CliOutcome`] over sequences.
#[verifier::ext_equal]
pub struct CliView {
    pub save: Option<Seq<KeyEntryView>>,
    pub lines: Seq<Seq<char>>,
}

impl View for CliOutcome {
    type V = CliView;

    open spec fn view(&self) -> CliView {
        CliView {
            save: match self.save {
                Some(file) => Some(file@),
                None => None,
            },
            lines: text::texts(self.lines@),
        }
    }
}

/// The outcome of making a key.
pub open spec fn created(
    keys: Seq<KeyEntryView>,
    label: Seq<char>,
    role: Role,
    id: Seq<char>,
    secret: Seq<char>,
    created_at: u64,
) -> CliView {
    let e = KeyEntryView {
        id,
        label,
        hash: keys::key_hash(secret),
        role,
        created_at,
        disabled: false,
    };
    CliView {
        save: Some(keys.push(e)),
        lines: seq![
            "Created key id="@ + id + " label="@ + label + " role="@ + keys::role_name(role),
            "Secret (shown once, store it now):\n"@ + secret,
        ],
    }
}

/// The line about a key in a list: its id, label, role, time and status, in
/// columns.
pub open spec fn list_line(
    id: Seq<char>,
    label: Seq<char>,
    role: Seq<char>,
    created_at: u64,
    disabled: bool,
) -> Seq<char> {
    text::padded(id, 12) + " "@ + text::padded(label, 24) + " "@ + text::padded(role, 8)
        + " created="@ + text::padded(text::decimal_text(created_at as nat), 12) + " "@ + (
    if disabled {
        "disabled"@
    } else {
        "active"@
    })
}

/// The line about a stored key.
pub open spec fn entry_line(e: KeyEntryView) -> Seq<char> {
    list_line(e.id, e.label, keys::role_name(e.role), e.created_at, e.disabled)
}

/// The lines of a list of keys.
pub open spec fn listing(keys: Seq<KeyEntryView>) -> Seq<Seq<char>> {
    if keys.len() == 0 {
        seq!["(no keys)"@]
    } else {
        keys.map_values(|e: KeyEntryView| entry_line(e))
    }
}

/// The outcome of a change to one key.
pub open spec fn edit_outcome(
    keys: Seq<KeyEntryView>,
    id: Seq<char>,
    disabled: bool,
    i: int,
) -> CliView {
    CliView {
        save: Some(keys.update(i, keys::edited(keys[i], Edit::Disabled(disabled)))),
        lines: seq![
            (if disabled {
                "Disabled"@
            } else {
                "Enabled"@
            }) + " key id="@ + id,
        ],
    }
}

/// Whether `r` is the outcome of disabling or enabling the key with this id.
pub open spec fn edit_decided(
    keys: Seq<KeyEntryView>,
    id: Seq<char>,
    disabled: bool,
    r: Result<CliOutcome, ApiError>,
) -> bool {
    match r {
        Ok(outcome) => exists|i: int| #[trigger]
            keys::first_with_id(keys, id, i) && outcome@ == edit_outcome(keys, id, disabled, i),
        Err(e) => keys::unknown_id(keys, id) && e@ == keys::no_such_key(id),
    }
}

/// Whether `r` is the outcome of a subcommand on these keys.
pub open spec fn decided(
    cmd: KeysCmd,
    keys: Seq<KeyEntryView>,
    r: Result<CliOutcome, ApiError>,
) -> bool {
    match cmd {
        KeysCmd::Create { label, role } => r is Ok && exists|
            id: Seq<char>,
            secret: Seq<char>,
            at: u64,
        | #[trigger]
            created(keys, label@, role, id, secret, at) == r->Ok_0@ && keys::drawn(id, 6)
                && keys::drawn(secret, 32),
        KeysCmd::List => r matches Ok(outcome) && outcome@ == (CliView {
            save: None,
            lines: listing(keys),
        }),
        KeysCmd::Disable { id } => edit_decided(keys, id@, true, r),
        KeysCmd::Enable { id } => edit_decided(keys, id@, false, r),
        KeysCmd::Delete { id } => match r {
            Ok(outcome) => !keys::unknown_id(keys, id@) && outcome@ == (CliView {
                save: Some(keys::without_id(keys, id@)),
                lines: seq!["Deleted key id="@ + id@],
            }),
            Err(e) => keys::unknown_id(keys, id@) && e@ == keys::no_such_key(id@),
        },
    }
}

/// One line, as a list of lines.
fn one_line(line: String) -> (r: Vec<String>)
    ensures
        text::texts(r@) == seq![line@],
{
    let mut lines: Vec<String> = Vec::new();
    lines.push(line);
    assert(text::texts(lines@) =~= seq![line@]);
    lines
}

/// The line about a key in a list.
pub fn format_line(id: &str, label: &str, role: &str, created_at: u64, disabled: bool) -> (r:
    String)
    ensures
        r@ == list_line(id@, label@, role@, created_at, disabled),
{
    let id = text::pad(id, 12);
    let label = text::pad(label, 24);
    let role = text::pad(role, 8);
    let at = text::decimal(created_at);
    let at = text::pad(&at, 12);
    let mut line = text::cat6(&id, " ", &label, " ", &role, " created=");
    line.append(&at);
    line.append(" ");
    line.append(
        if disabled {
            "disabled"
        } else {
            "active"
        },
    );
    line
}

/// Makes a key with this id, secret and time.
pub fn create(
    file: KeyFile,
    label: &str,
    role: Role,
    id: &str,
    secret: &str,
    created_at: u64,
) -> (r: CliOutcome)
    ensures
        r@ == created(file@, label@, role, id@, secret@, created_at),
{
    let mut file = file;
    file.add(
        KeyEntry {
            id: text::owned(id),
            label: text::owned(label),
            hash: keys::hash_key(secret),
            role,
            created_at,
            disabled: false,
        },
    );
    let role_text = role.to_text();
    let first = text::cat6("Created key id=", id, " label=", label, " role=", &role_text);
    let second = text::cat2("Secret (shown once, store it now):\n", secret);
    let mut lines: Vec<String> = Vec::new();
    lines.push(first);
    lines.push(second);
    assert(text::texts(lines@) =~= seq![first@, second@]);
    CliOutcome { save: Some(file), lines }
}

/// Lists the keys.
fn list(file: &KeyFile) -> (r: Vec<String>)
    ensures
        text::texts(r@) == listing(file@),
{
    if file.keys.len() == 0 {
        return one_line(text::owned("(no keys)"));
    }
    let mut lines: Vec<String> = Vec::new();
    let mut i: usize = 0;
    assert(text::texts(lines@) =~= listing(file@).take(0));
    while i < file.keys.len()
        invariant
            i <= file.keys@.len(),
            file.keys@.len() > 0,
            text::texts(lines@) == listing(file@).take(i as int),
        decreases file.keys@.len() - i,
    {
        let e = &file.keys[i];
        assert(file@[i as int] == e@);
        let role = e.role.to_text();
        let line = format_line(&e.id, &e.label, &role, e.created_at, e.disabled);
        proof {
            text::lemma_texts_push(lines@, line);
            assert(listing(file@).take(i + 1) =~= listing(file@).take(i as int).push(line@));
        }
        lines.push(line);
        i = i + 1;
    }
    assert(listing(file@).take(i as int) =~= listing(file@));
    lines
}

/// Disables the key with this id, or enables it again.
pub fn set_disabled(file: KeyFile, id: &str, disabled: bool) -> (r: Result<CliOutcome, ApiError>)
    ensures
        edit_decided(file@, id@, disabled, r),
{
    let mut file = file;
    let ghost before = file@;
    match file.edit(id, Edit::Disabled(disabled)) {
        Err(e) => Err(e),
        Ok(_) => {
            let line = if disabled {
                text::cat3("Disabled", " key id=", id)
            } else {
                text::cat3("Enabled", " key id=", id)
            };
            let lines = one_line(line);
            let outcome = CliOutcome { save: Some(file), lines };
            proof {
                let i = choose|i: int| #[trigger]
                    keys::first_with_id(before, id@, i) && file@ == before.update(
                        i,
                        keys::edited(before[i], Edit::Disabled(disabled)),
                    );
                assert(outcome@ =~= edit_outcome(before, id@, disabled, i));
            }
            Ok(outcome)
        },
    }
}

/// Executes a subcommand on the document of the key file.
pub fn run(cmd: &KeysCmd, file: KeyFile) -> (r: Result<CliOutcome, ApiError>)
    ensures
        decided(*cmd, file@, r),
{
    match cmd {
        KeysCmd::Create { label, role } => {
            let (id, secret) = keys::gen_key();
            let at = keys::now_secs();
            Ok(create(file, label, *role, &id, &secret, at))
        },
        KeysCmd::List => {
            let lines = list(&file);
            Ok(CliOutcome { save: None, lines })
        },
        KeysCmd::Disable { id } => set_disabled(file, id, true),
        KeysCmd::Enable { id } => set_disabled(file, id, false),
        KeysCmd::Delete { id } => {
            let mut file = file;
            match file.remove(id) {
                Err(e) => Err(e),
                Ok(()) => {
                    let line = text::cat2("Deleted key id=", id);
                    let lines = one_line(line);
                    Ok(CliOutcome { save: Some(file), lines })
                },
            }
        },
    }
}

} // verus!
