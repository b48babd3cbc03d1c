//! The abstract model every backend is verified against: a map from uid to
//! record, and the transition each repository operation performs on it.

use vstd::prelude::*;

use crate::record::{apply_patch_spec, new_record, NewHomeworkV, PatchV, RecordV};
use crate::text::lex_le;

verus! {

/// The abstract state of a backend: each uid maps to the record stored
/// under it.
pub type StoreModel = Map<Seq<char>, RecordV>;

/// A well-formed store: every record sits under its own uid.
pub open spec fn store_wf(m: StoreModel) -> bool {
    forall|k: Seq<char>| #[trigger] m.contains_key(k) ==> m[k].uid == k
}

/// What `get` returns: the record under the uid, whatever its deleted flag,
/// or nothing if no record with that uid has ever existed.
pub open spec fn spec_get(m: StoreModel, uid: Seq<char>) -> Option<RecordV> {
    if m.contains_key(uid) {
        Some(m[uid])
    } else {
        None
    }
}

/// What a successful `create` does: a fresh record for the payload appears
/// under the assigned uid.
pub open spec fn spec_create(m: StoreModel, p: NewHomeworkV, uid: Seq<char>, now: i64) -> StoreModel {
    m.insert(uid, new_record(p, uid, now))
}

/// The record a successful `update` stores: a full replacement, except that
/// the update moment is refreshed (a caller-supplied one is overwritten).
pub open spec fn spec_update_rec(r: RecordV, now: i64) -> RecordV {
    RecordV { updated_at: now, ..r }
}

/// What a successful `update` does to the store.
pub open spec fn spec_update(m: StoreModel, r: RecordV, now: i64) -> StoreModel {
    m.insert(r.uid, spec_update_rec(r, now))
}

/// What a successful `patch` does to the store: the present fields of the
/// partial update are merged into the record under the uid.
pub open spec fn spec_patch(m: StoreModel, uid: Seq<char>, p: PatchV, now: i64) -> StoreModel {
    m.insert(uid, apply_patch_spec(m[uid], p, now))
}

/// The record a successful `delete` leaves: the soft-delete flag set and the
/// update moment refreshed; nothing is removed.
pub open spec fn spec_delete_rec(r: RecordV, now: i64) -> RecordV {
    RecordV { deleted: true, updated_at: now, ..r }
}

/// What a successful `delete` does to the store.
pub open spec fn spec_delete(m: StoreModel, uid: Seq<char>, now: i64) -> StoreModel {
    m.insert(uid, spec_delete_rec(m[uid], now))
}

/// Whether a sequence of records is sorted ascending by due-date text.
pub open spec fn sorted_by_due(out: Seq<RecordV>) -> bool {
    forall|a: int, b: int|
        0 <= a < b < out.len() ==> lex_le(#[trigger] out[a].due_text, #[trigger] out[b].due_text)
}

/// Whether some element of the listing carries the uid.
pub open spec fn uid_in(out: Seq<RecordV>, u: Seq<char>) -> bool {
    exists|a: int| 0 <= a < out.len() && (#[trigger] out[a]).uid == u
}

/// What `list` returns: exactly the records not soft-deleted, each exactly
/// once, sorted ascending by due-date text.
pub open spec fn listing_ok(m: StoreModel, out: Seq<RecordV>) -> bool {
    &&& sorted_by_due(out)
    &&& forall|a: int|
        0 <= a < out.len() ==> {
            &&& m.contains_key(#[trigger] out[a].uid)
            &&& m[out[a].uid] == out[a]
            &&& !out[a].deleted
        }
    &&& forall|a: int, b: int|
        0 <= a < b < out.len() ==> (#[trigger] out[a].uid) != (#[trigger] out[b].uid)
    &&& forall|k: Seq<char>| #[trigger] m.contains_key(k) && !m[k].deleted ==> uid_in(out, k)
}

} // verus!
