//! When the key file is read again: on a signal, and when the file changes.

use vstd::prelude::*;

verus! {

/// What happened to a file.
#[derive(Debug, Clone, Copy, PartialEq, Eq, Structural)]
pub enum EventKind {
    /// It is not known what.
    Any,
    /// It was opened, read or closed.
    Access,
    /// It was made.
    Create,
    /// Its content or its name changed, or it is not known what changed.
    Modify,
    /// Only its metadata changed: its times, its owner or its permissions.
    Metadata,
    /// It was removed.
    Remove,
    /// Something else.
    Other,
}

/// Whether an event calls for the keys to be read again. The whole directory is
/// watched, so most events are about other files; and that a file was read, or that
/// its metadata changed, is no change of the keys.
pub fn is_relevant_key_event(kind: EventKind, touches_keys_file: bool) -> (r: bool)
    ensures
        r == (touches_keys_file && (kind == EventKind::Create || kind == EventKind::Modify || kind
            == EventKind::Remove)),
{
    touches_keys_file && match kind {
        EventKind::Create => true,
        EventKind::Modify => true,
        EventKind::Remove => true,
        EventKind::Any => false,
        EventKind::Access => false,
        EventKind::Metadata => false,
        EventKind::Other => false,
    }
}

/// What is watched for the file at `path`: the directory around it, so that a file
/// that is renamed into its place is noticed, or the file itself where its path
/// names no directory.
pub fn watch_target<P>(path: P, parent: Option<P>, parent_is_empty: bool) -> (r: P)
    ensures
        r == (match parent {
            Some(dir) => if parent_is_empty {
                path
            } else {
                dir
            },
            None => path,
        }),
{
    match parent {
        Some(dir) => if parent_is_empty {
            path
        } else {
            dir
        },
        None => path,
    }
}

/// How long a burst of events is waited for, in milliseconds.
pub const DEBOUNCE_MILLIS: u64 = 200;

/// What leads to the keys being read again.
#[derive(Debug, Clone, Copy, PartialEq, Eq, Structural)]
pub enum Trigger {
    /// A hangup signal.
    Hangup,
    /// A change of the file. Changes come in bursts.
    Watch,
}

/// What a reloader does next.
#[derive(Debug, Clone, Copy, PartialEq, Eq, Structural)]
pub enum Reload {
    /// Wait for the trigger.
    Wait,
    /// Sleep for [`DEBOUNCE_MILLIS`].
    Sleep,
    /// Take a trigger that has come meanwhile, without waiting.
    Drain,
    /// Read the keys.
    Read,
    /// Nothing: no trigger will come.
    End,
}

/// What follows. `came` tells whether a trigger came, where one was waited for or
/// taken; a failed read changes nothing.
pub open spec fn after(trigger: Trigger, step: Reload, came: bool) -> Reload {
    match step {
        Reload::Wait => if !came {
            Reload::End
        } else if trigger == Trigger::Watch {
            Reload::Sleep
        } else {
            Reload::Read
        },
        Reload::Sleep => Reload::Drain,
        Reload::Drain => if came {
            Reload::Drain
        } else {
            Reload::Read
        },
        Reload::Read => Reload::Wait,
        Reload::End => Reload::End,
    }
}

impl Reload {
    /// What follows.
    pub fn next(self, trigger: Trigger, came: bool) -> (r: Reload)
        ensures
            r == after(trigger, self, came),
    {
        match self {
            Reload::Wait => if !came {
                Reload::End
            } else {
                match trigger {
                    Trigger::Watch => Reload::Sleep,
                    Trigger::Hangup => Reload::Read,
                }
            },
            Reload::Sleep => Reload::Drain,
            Reload::Drain => if came {
                Reload::Drain
            } else {
                Reload::Read
            },
            Reload::Read => Reload::Wait,
            Reload::End => Reload::End,
        }
    }
}

/// The step that a reloader has come to after `n` more triggers were taken.
pub open spec fn drained(trigger: Trigger, step: Reload, n: nat) -> Reload
    decreases n,
{
    if n == 0 {
        step
    } else {
        drained(trigger, after(trigger, step, true), (n - 1) as nat)
    }
}

/// However many events a burst has, the keys are read once for it, and then the
/// next burst is waited for.
pub proof fn law_burst_is_read_once(n: nat)
    ensures
        ({
            let slept = after(Trigger::Watch, after(Trigger::Watch, Reload::Wait, true), true);
            let taken = drained(Trigger::Watch, slept, n);
            &&& taken == Reload::Drain
            &&& after(Trigger::Watch, taken, false) == Reload::Read
            &&& after(Trigger::Watch, Reload::Read, true) == Reload::Wait
        }),
    decreases n,
{
    if n > 0 {
        law_burst_is_read_once((n - 1) as nat);
    }
}

} // verus!
