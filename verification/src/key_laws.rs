//! What holds of the key store across its operations.

use vstd::prelude::*;

use crate::keys;
use crate::keys::Edit;
use crate::keys::KeyEntryView;
use crate::keys::KeyInfoView;
use crate::keys::Role;
use crate::keys::SaveView;

verus! {

/// If some enabled key has a hash, one of them is the first.
proof fn lemma_first_match(keys: Seq<KeyEntryView>, hash: Seq<char>, k: int) -> (i: int)
    requires
        0 <= k < keys.len(),
        keys::matches_hash(keys[k], hash),
    ensures
        keys::authenticates(keys, hash, i),
        i <= k,
    decreases k,
{
    if exists|j: int| 0 <= j < k && keys::matches_hash(#[trigger] keys[j], hash) {
        let j = choose|j: int| 0 <= j < k && keys::matches_hash(#[trigger] keys[j], hash);
        lemma_first_match(keys, hash, j)
    } else {
        k
    }
}

/// The secret of a new key is accepted. If no enabled key had the same hash, it
/// is accepted as the new key.
pub proof fn law_new_key_verifies(
    keys: Seq<KeyEntryView>,
    label: Seq<char>,
    role: Role,
    secret: Seq<char>,
    file: Seq<KeyEntryView>,
    info: KeyInfoView,
)
    requires
        keys::adds_key(keys, label, role, secret, file, info),
    ensures
        !keys::unknown_hash(file, keys::key_hash(secret)),
        exists|i: int| keys::authenticates(file, keys::key_hash(secret), i),
        keys::unknown_hash(keys, keys::key_hash(secret)) ==> exists|i: int| #[trigger]
            keys::authenticates(file, keys::key_hash(secret), i) && file[i].id == info.id
                && file[i].label == label && file[i].role == role,
{
    let hash = keys::key_hash(secret);
    let e = choose|e: KeyEntryView| #[trigger]
        keys::new_entry(e, label, role, secret) && file == keys.push(e) && info == keys::info_of(e);
    let k = keys.len() as int;
    assert(file[k] == e);
    let i = lemma_first_match(file, hash, k);
    if keys::unknown_hash(keys, hash) {
        if i < k {
            assert(file[i] == keys[i]);
        }
        assert(keys::authenticates(file, hash, k));
    }
}

/// A new admin key is one that can manage keys: after it was made, the store
/// has an enabled admin key.
pub proof fn law_bootstrap_gives_admin(
    keys: Seq<KeyEntryView>,
    label: Seq<char>,
    secret: Seq<char>,
    file: Seq<KeyEntryView>,
    info: KeyInfoView,
)
    requires
        keys::adds_key(keys, label, Role::Admin, secret, file, info),
    ensures
        keys::has_admin(file),
        keys::has_enabled(file),
{
    let e = choose|e: KeyEntryView| #[trigger]
        keys::new_entry(e, label, Role::Admin, secret) && file == keys.push(e) && info
            == keys::info_of(e);
    assert(file[keys.len() as int] == e);
}

/// A store without keys accepts no secret.
pub proof fn law_empty_store_refuses(secret: Seq<char>)
    ensures
        keys::unknown_hash(Seq::empty(), keys::key_hash(secret)),
        !keys::has_enabled(Seq::empty()),
{
}

/// A disabled key is not accepted: once the only key with a secret is disabled,
/// the secret is unknown.
pub proof fn law_disabled_key_is_refused(
    keys: Seq<KeyEntryView>,
    id: Seq<char>,
    i: int,
    secret: Seq<char>,
)
    requires
        keys::first_with_id(keys, id, i),
        forall|j: int|
            0 <= j < keys.len() && j != i ==> !keys::matches_hash(
                #[trigger] keys[j],
                keys::key_hash(secret),
            ),
    ensures
        keys::unknown_hash(
            keys.update(i, keys::edited(keys[i], Edit::Disabled(true))),
            keys::key_hash(secret),
        ),
{
}

/// Enabling a key undoes disabling it.
pub proof fn law_enable_undoes_disable(keys: Seq<KeyEntryView>, id: Seq<char>, i: int)
    requires
        keys::first_with_id(keys, id, i),
        !keys[i].disabled,
    ensures
        ({
            let off = keys.update(i, keys::edited(keys[i], Edit::Disabled(true)));
            &&& keys::first_with_id(off, id, i)
            &&& off.update(i, keys::edited(off[i], Edit::Disabled(false))) == keys
        }),
{
    let off = keys.update(i, keys::edited(keys[i], Edit::Disabled(true)));
    assert(off.update(i, keys::edited(off[i], Edit::Disabled(false))) =~= keys);
}

/// A change of role is what later requests with the key find: the secret is
/// accepted as before, with the new role.
pub proof fn law_role_change_is_seen(
    keys: Seq<KeyEntryView>,
    id: Seq<char>,
    i: int,
    secret: Seq<char>,
    role: Role,
)
    requires
        keys::first_with_id(keys, id, i),
        keys::authenticates(keys, keys::key_hash(secret), i),
    ensures
        ({
            let changed = keys.update(i, keys::edited(keys[i], Edit::Role(role)));
            &&& keys::authenticates(changed, keys::key_hash(secret), i)
            &&& changed[i].role == role
            &&& changed[i].id == id
        }),
{
}

/// A change to a key leaves its id, label, hash and time alone, and all other
/// keys.
pub proof fn law_edit_changes_nothing_else(keys: Seq<KeyEntryView>, i: int, edit: Edit)
    requires
        0 <= i < keys.len(),
    ensures
        ({
            let changed = keys.update(i, keys::edited(keys[i], edit));
            &&& changed.len() == keys.len()
            &&& forall|j: int|
                0 <= j < keys.len() && j != i ==> #[trigger] changed[j] == keys[j]
            &&& changed[i].id == keys[i].id
            &&& changed[i].label == keys[i].label
            &&& changed[i].hash == keys[i].hash
            &&& changed[i].created_at == keys[i].created_at
        }),
{
}

proof fn lemma_without_id(keys: Seq<KeyEntryView>, id: Seq<char>)
    ensures
        keys::unknown_id(keys::without_id(keys, id), id),
        forall|k: int|
            0 <= k < keys::without_id(keys, id).len() ==> keys.contains(
                #[trigger] keys::without_id(keys, id)[k],
            ),
        keys::unknown_id(keys, id) ==> keys::without_id(keys, id) == keys,
    decreases keys.len(),
{
    if keys.len() == 0 {
        reveal(Seq::filter);
    } else {
        let rest = keys.drop_last();
        let e = keys.last();
        lemma_without_id(rest, id);
        keys::lemma_without_id_push(rest, e, id);
        assert(rest.push(e) =~= keys);
        let kept = keys::without_id(keys, id);
        assert forall|k: int| 0 <= k < kept.len() implies keys.contains(#[trigger] kept[k]) by {
            if k < keys::without_id(rest, id).len() {
                let x = keys::without_id(rest, id)[k];
                assert(kept[k] == x);
                let j = rest.index_of(x);
                assert(keys[j] == x);
            } else {
                assert(kept[k] == e);
                assert(keys[keys.len() - 1] == e);
            }
        }
        if keys::unknown_id(keys, id) {
            assert(keys[keys.len() - 1].id != id);
            assert forall|j: int| 0 <= j < rest.len() implies (#[trigger] rest[j]).id != id by {
                assert(rest[j] == keys[j]);
            }
        }
        assert forall|k: int| 0 <= k < kept.len() implies (#[trigger] kept[k]).id != id by {
            if k < keys::without_id(rest, id).len() {
                assert(kept[k] == keys::without_id(rest, id)[k]);
            }
        }
    }
}

/// After a key was deleted, no key has its id, and what is left was there
/// before. So deleting it again is refused.
pub proof fn law_deleted_id_is_unknown(keys: Seq<KeyEntryView>, id: Seq<char>)
    ensures
        keys::unknown_id(keys::without_id(keys, id), id),
        forall|k: int|
            0 <= k < keys::without_id(keys, id).len() ==> keys.contains(
                #[trigger] keys::without_id(keys, id)[k],
            ),
{
    lemma_without_id(keys, id);
}

/// Once every key with a secret is deleted, the secret is refused.
pub proof fn law_deleted_key_is_refused(keys: Seq<KeyEntryView>, id: Seq<char>, secret: Seq<char>)
    requires
        forall|j: int|
            0 <= j < keys.len() && keys::matches_hash(#[trigger] keys[j], keys::key_hash(secret))
                ==> keys[j].id == id,
    ensures
        keys::unknown_hash(keys::without_id(keys, id), keys::key_hash(secret)),
{
    lemma_without_id(keys, id);
    let kept = keys::without_id(keys, id);
    let hash = keys::key_hash(secret);
    assert forall|k: int| 0 <= k < kept.len() implies !keys::matches_hash(
        #[trigger] kept[k],
        hash,
    ) by {
        let j = keys.index_of(kept[k]);
        assert(keys[j] == kept[k]);
    }
}

/// Deleting a key leaves the others in force: who was accepted as another key
/// is accepted as that key still.
pub proof fn law_delete_spares_others(
    keys: Seq<KeyEntryView>,
    id: Seq<char>,
    hash: Seq<char>,
    i: int,
) -> (k: int)
    requires
        keys::authenticates(keys, hash, i),
        keys[i].id != id,
    ensures
        keys::authenticates(keys::without_id(keys, id), hash, k),
        keys::without_id(keys, id)[k] == keys[i],
    decreases keys.len(),
{
    let rest = keys.drop_last();
    let e = keys.last();
    keys::lemma_without_id_push(rest, e, id);
    assert(rest.push(e) =~= keys);
    let kept_rest = keys::without_id(rest, id);
    let kept = keys::without_id(keys, id);
    if i < rest.len() {
        assert(rest[i] == keys[i]);
        assert forall|j: int| 0 <= j < i implies !keys::matches_hash(#[trigger] rest[j], hash) by {
            assert(rest[j] == keys[j]);
        }
        let k = law_delete_spares_others(rest, id, hash, i);
        assert forall|j: int| 0 <= j <= k implies #[trigger] kept[j] == kept_rest[j] by {}
        k
    } else {
        lemma_without_id(rest, id);
        let k = kept_rest.len() as int;
        assert forall|j: int| 0 <= j < k implies !keys::matches_hash(#[trigger] kept[j], hash) by {
            assert(kept[j] == kept_rest[j]);
            let at = rest.index_of(kept_rest[j]);
            assert(keys[at] == kept_rest[j]);
        }
        k
    }
}

/// The step that a write of the key file has come to after these outcomes.
pub open spec fn saving(step: SaveView, failures: Seq<Option<Seq<char>>>) -> SaveView
    decreases failures.len(),
{
    if failures.len() == 0 {
        step
    } else {
        keys::save_after(saving(step, failures.drop_last()), failures.last())
    }
}

/// The key file is replaced only once the new document has been written as a
/// whole: before that, nothing may have failed.
pub proof fn law_file_is_replaced_last(step: SaveView, failures: Seq<Option<Seq<char>>>)
    requires
        saving(step, failures) is Rename,
        step !is Rename,
    ensures
        failures.len() > 0,
        forall|i: int| 0 <= i < failures.len() ==> (#[trigger] failures[i]) is None,
        saving(step, failures.drop_last()) is WriteTemporary,
{
    lemma_nothing_failed(step, failures);
}

proof fn lemma_nothing_failed(step: SaveView, failures: Seq<Option<Seq<char>>>)
    requires
        saving(step, failures) !is Finished,
    ensures
        forall|i: int| 0 <= i < failures.len() ==> (#[trigger] failures[i]) is None,
    decreases failures.len(),
{
    if failures.len() > 0 {
        let before = failures.drop_last();
        lemma_nothing_failed(step, before);
        assert forall|i: int| 0 <= i < failures.len() implies (#[trigger] failures[i]) is None by {
            if i < before.len() {
                assert(failures[i] == before[i]);
            }
        }
    }
}

} // verus!
