//! The general properties of the repository contract, proved once over the
//! abstract store model that every backend's contract is stated against.

use vstd::prelude::*;

use crate::record::{apply_patch_spec, new_record, NewHomeworkV, PatchV, RecordV};
use crate::store::{
    listing_ok, spec_create, spec_delete, spec_delete_rec, spec_get, spec_patch, spec_update,
    spec_update_rec, StoreModel,
};

verus! {

/// A record born by `create` answers `get` under its uid with exactly the
/// payload's fields; both its timestamps are the creation moment, it is not
/// deleted, and its schema stamp is 1.
pub proof fn law_create_then_get(m: StoreModel, p: NewHomeworkV, uid: Seq<char>, now: i64)
    ensures
        spec_get(spec_create(m, p, uid, now), uid) == Some(new_record(p, uid, now)),
        new_record(p, uid, now).name == p.name,
        new_record(p, uid, now).due_text == p.due_text,
        new_record(p, uid, now).difficulty == p.difficulty,
        new_record(p, uid, now).progress == p.progress,
        new_record(p, uid, now).tags == p.tags,
        new_record(p, uid, now).milestones == p.milestones,
        new_record(p, uid, now).created_at == now,
        new_record(p, uid, now).updated_at == now,
        !new_record(p, uid, now).deleted,
        new_record(p, uid, now).schema_version == 1,
{
}

/// After a delete, no listing of the store carries the uid, while `get`
/// still answers with the record, its soft-delete flag set and nothing else
/// of it changed but the update moment.
pub proof fn law_delete_hides_from_list(
    m: StoreModel,
    uid: Seq<char>,
    now: i64,
    out: Seq<RecordV>,
)
    requires
        m.contains_key(uid),
        listing_ok(spec_delete(m, uid, now), out),
    ensures
        spec_get(spec_delete(m, uid, now), uid) == Some(spec_delete_rec(m[uid], now)),
        spec_delete_rec(m[uid], now).deleted,
        spec_delete_rec(m[uid], now).uid == m[uid].uid,
        spec_delete_rec(m[uid], now).name == m[uid].name,
        spec_delete_rec(m[uid], now).due_text == m[uid].due_text,
        spec_delete_rec(m[uid], now).created_at == m[uid].created_at,
        spec_delete_rec(m[uid], now).updated_at == now,
        forall|a: int| 0 <= a < out.len() ==> (#[trigger] out[a]).uid != uid,
{
    let md = spec_delete(m, uid, now);
    assert forall|a: int| 0 <= a < out.len() implies (#[trigger] out[a]).uid != uid by {
        if out[a].uid == uid {
            assert(md[uid] == out[a]);
            assert(md[uid].deleted);
        }
    }
}

/// A patch changes exactly the fields it carries: every present field is
/// replaced, every absent one kept; uid, creation moment and schema stamp
/// are untouched; the update moment is always refreshed, and so advances
/// strictly whenever the clock has moved past the record's last update.
/// No other record of the store is touched.
pub proof fn law_patch_changes_only_present(m: StoreModel, uid: Seq<char>, p: PatchV, now: i64)
    requires
        m.contains_key(uid),
    ensures
        ({
            let before = m[uid];
            let after = spec_patch(m, uid, p, now)[uid];
            &&& after == apply_patch_spec(before, p, now)
            &&& (p.name is None ==> after.name == before.name)
            &&& (p.name is Some ==> after.name == p.name->0)
            &&& (p.due_text is None ==> after.due_text == before.due_text)
            &&& (p.due_text is Some ==> after.due_text == p.due_text->0)
            &&& (p.difficulty is None ==> after.difficulty == before.difficulty)
            &&& (p.difficulty is Some ==> after.difficulty == p.difficulty->0)
            &&& (p.progress is None ==> after.progress == before.progress)
            &&& (p.progress is Some ==> after.progress == p.progress->0)
            &&& (p.tags is None ==> after.tags == before.tags)
            &&& (p.tags is Some ==> after.tags == p.tags->0)
            &&& (p.milestones is None ==> after.milestones == before.milestones)
            &&& (p.milestones is Some ==> after.milestones == p.milestones->0)
            &&& (p.deleted is None ==> after.deleted == before.deleted)
            &&& (p.deleted is Some ==> after.deleted == p.deleted->0)
            &&& after.uid == before.uid
            &&& after.created_at == before.created_at
            &&& after.schema_version == before.schema_version
            &&& after.updated_at == now
            &&& (now > before.updated_at ==> after.updated_at > before.updated_at)
        }),
        forall|k: Seq<char>|
            #[trigger] m.contains_key(k) && k != uid ==> spec_patch(m, uid, p, now).contains_key(k)
                && spec_patch(m, uid, p, now)[k] == m[k],
{
}

/// No operation ever removes a uid: whatever has been created stays, so a
/// fresh uid is fresh against everything ever created.
pub proof fn law_uids_never_leave(
    m: StoreModel,
    p: NewHomeworkV,
    r: RecordV,
    uid: Seq<char>,
    pt: PatchV,
    now: i64,
)
    ensures
        forall|k: Seq<char>|
            #[trigger] m.contains_key(k) ==> spec_create(m, p, uid, now).contains_key(k),
        forall|k: Seq<char>| #[trigger] m.contains_key(k) ==> spec_update(m, r, now).contains_key(k),
        forall|k: Seq<char>|
            m.contains_key(uid) && #[trigger] m.contains_key(k) ==> spec_patch(
                m,
                uid,
                pt,
                now,
            ).contains_key(k),
        forall|k: Seq<char>|
            m.contains_key(uid) && #[trigger] m.contains_key(k) ==> spec_delete(
                m,
                uid,
                now,
            ).contains_key(k),
{
}

/// A full update replaces every field but keeps the uid, and refreshes the
/// update moment whatever the caller supplied for it.
pub proof fn law_update_refreshes_moment(m: StoreModel, r: RecordV, now: i64)
    ensures
        spec_update(m, r, now)[r.uid] == spec_update_rec(r, now),
        spec_update_rec(r, now).updated_at == now,
        spec_update_rec(r, now).uid == r.uid,
        spec_update_rec(r, now).name == r.name,
        spec_update_rec(r, now).due_text == r.due_text,
        spec_update_rec(r, now).difficulty == r.difficulty,
        spec_update_rec(r, now).progress == r.progress,
        spec_update_rec(r, now).tags == r.tags,
        spec_update_rec(r, now).milestones == r.milestones,
        spec_update_rec(r, now).deleted == r.deleted,
        spec_update_rec(r, now).created_at == r.created_at,
        spec_update_rec(r, now).schema_version == r.schema_version,
{
}

} // verus!
