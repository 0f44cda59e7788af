//! Laws on members of documents.

use vstd::prelude::*;

use crate::json;
use crate::json::JsonView;

verus! {

/// Whether a value is an object whose first member with a name is this one.
pub open spec fn holds(v: JsonView, name: Seq<char>, value: JsonView) -> bool {
    v matches JsonView::Object(m) && exists|i: int|
        0 <= i < m.len() && #[trigger] m[i] == (name, value) && forall|j: int|
            0 <= j < i ==> (#[trigger] m[j]).0 != name
}

/// Whether a value is no object, or one without a member of this name.
pub open spec fn lacks(v: JsonView, name: Seq<char>) -> bool {
    v matches JsonView::Object(m) ==> forall|i: int|
        0 <= i < m.len() ==> (#[trigger] m[i]).0 != name
}

/// The member with a name is the first of that name, and there is none exactly where no
/// member has the name.
pub proof fn law_first_member_counts(members: Seq<(Seq<char>, JsonView)>, name: Seq<char>)
    ensures
        match json::lookup(members, name) {
            Some(v) => exists|i: int|
                0 <= i < members.len() && #[trigger] members[i] == (name, v) && forall|j: int|
                    0 <= j < i ==> (#[trigger] members[j]).0 != name,
            None => forall|i: int| 0 <= i < members.len() ==> (#[trigger] members[i]).0 != name,
        },
    decreases members.len(),
{
    if members.len() > 0 && members[0].0 != name {
        let rest = members.skip(1);
        law_first_member_counts(rest, name);
        match json::lookup(rest, name) {
            Some(v) => {
                let i = choose|i: int|
                    0 <= i < rest.len() && #[trigger] rest[i] == (name, v) && forall|j: int|
                        0 <= j < i ==> (#[trigger] rest[j]).0 != name;
                assert(members[i + 1] == (name, v));
                assert forall|j: int| 0 <= j < i + 1 implies (#[trigger] members[j]).0 != name by {
                    if j > 0 {
                        assert(rest[j - 1] == members[j]);
                    }
                }
            },
            None => {
                assert forall|i: int| 0 <= i < members.len() implies (#[trigger] members[i]).0
                    != name by {
                    if i > 0 {
                        assert(rest[i - 1] == members[i]);
                    }
                }
            },
        }
    } else if members.len() > 0 {
        assert(members[0] == (name, members[0].1));
    }
}

/// A member is found where an object has one, and only there; what has no members has
/// none.
pub proof fn law_member_is_found(v: JsonView, name: Seq<char>)
    ensures
        json::member(v, name) matches Some(m) ==> holds(v, name, m),
        json::member(v, name) is None ==> lacks(v, name),
{
    if let JsonView::Object(members) = v {
        law_first_member_counts(members, name);
    }
}

/// What an object holds is found, and what it lacks is not.
pub proof fn law_what_is_held_is_found(v: JsonView, name: Seq<char>, value: JsonView)
    ensures
        holds(v, name, value) ==> json::member(v, name) == Some(value),
        lacks(v, name) ==> json::member(v, name) is None,
{
    law_member_is_found(v, name);
    if let JsonView::Object(m) = v {
        if holds(v, name, value) {
            let i = choose|i: int|
                0 <= i < m.len() && #[trigger] m[i] == (name, value) && forall|j: int|
                    0 <= j < i ==> (#[trigger] m[j]).0 != name;
            assert(m[i].0 == name);
            let found = json::lookup(m, name)->0;
            let k = choose|k: int|
                0 <= k < m.len() && #[trigger] m[k] == (name, found) && forall|j: int|
                    0 <= j < k ==> (#[trigger] m[j]).0 != name;
            if i < k {
                assert(m[i].0 != name);
            }
            if k < i {
                assert(m[k].0 != name);
            }
        }
        if lacks(v, name) {
            if json::lookup(m, name) is Some {
                let found = json::lookup(m, name)->0;
                let k = choose|k: int|
                    0 <= k < m.len() && #[trigger] m[k] == (name, found) && forall|j: int|
                        0 <= j < k ==> (#[trigger] m[j]).0 != name;
                assert(m[k].0 == name);
            }
        }
    }
}

/// The text, the number and the truth value of a member are those that it is, and there
/// is none where the member is something else, or is not there.
pub proof fn law_kinds_of_members(v: JsonView, name: Seq<char>)
    ensures
        match json::member(v, name) {
            Some(JsonView::Text(t)) => json::text_member(v, name) == Some(t) && json::number_member(
                v,
                name,
            ) is None && json::bool_member(v, name) is None,
            Some(JsonView::Number(n)) => json::number_member(v, name) == n && json::text_member(
                v,
                name,
            ) is None && json::bool_member(v, name) is None,
            Some(JsonView::Bool(b)) => json::bool_member(v, name) == Some(b) && json::text_member(
                v,
                name,
            ) is None && json::number_member(v, name) is None,
            _ => json::text_member(v, name) is None && json::number_member(v, name) is None
                && json::bool_member(v, name) is None,
        },
{
}

} // verus!
