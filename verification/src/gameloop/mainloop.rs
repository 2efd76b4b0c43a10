use crate::containers::storage::Storage;
use vstd::prelude::*;

verus! {

/// The time after which the active signing key is replaced: eight hours, in milliseconds.
pub const ROTATION_INTERVAL: i64 = 28_800_000;

/// Whether keys that were last rotated at `last_updated` are due for
/// rotation at `now`, both in milliseconds since the Unix epoch.
pub open spec fn rotation_due(last_updated: i64, now: i64) -> bool {
    now - last_updated >= ROTATION_INTERVAL
}

/// Whether keys that were last rotated at `last_updated` are due for rotation at `now`.
pub fn is_rotation_due(last_updated: i64, now: i64) -> (r: bool)
    ensures
        r == rotation_due(last_updated, now),
{
    if last_updated > i64::MAX - ROTATION_INTERVAL {
        false
    } else {
        now >= last_updated + ROTATION_INTERVAL
    }
}

/// The first step of a tick, at time `now`: the signing keys are rotated
/// where they are due, as the rotation of the keys at `now` says. Tells
/// whether they were rotated.
///
/// Keys that are not due stay as they are. Keys that are due are rotated
/// and stamped with `now`, unless their first secret is empty; then they
/// stay as they are, and are still due at the next tick.
pub fn game_loop(storage: &mut Storage, now: i64) -> (rotated: bool)
    requires
        old(storage).wf(),
    ensures
        final(storage).wf(),
        final(storage).servers == old(storage).servers,
        final(storage).client_ids == old(storage).client_ids,
        final(storage).servers_ids == old(storage).servers_ids,
        final(storage).poll == old(storage).poll,
        final(storage).server == old(storage).server,
        final(storage).config == old(storage).config,
        rotated <==> rotation_due(old(storage).keys.secrets().updated_at(), now) && old(storage).keys.secrets().secret(0).len() >= 1,
        if rotation_due(old(storage).keys.secrets().updated_at(), now) {
            exists|fresh: Seq<char>|
                #[trigger] old(storage).keys.secrets().rotated_to(
                    &final(storage).keys.secrets(),
                    fresh,
                    now,
                    rotated,
                ) && old(storage).keys.secrets().may_draw(fresh)
        } else {
            final(storage).keys == old(storage).keys
        },
        rotated ==> final(storage).keys.secrets().updated_at() == now,
        !rotated ==> final(storage).keys.key_bytes(0) == old(storage).keys.key_bytes(0)
            && final(storage).keys.key_bytes(1) == old(storage).keys.key_bytes(1),
{
    let updated_at = storage.keys.last_updated();
    if is_rotation_due(updated_at, now) {
        storage.keys.rotate_at(now)
    } else {
        false
    }
}

} // verus!
