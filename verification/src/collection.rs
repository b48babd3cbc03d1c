//! A uid-keyed collection of records held in a vector, with the verified
//! operations the volatile and flat-file backends share. The vector's view
//! as a uid-to-record map ties every operation to the abstract store model.

use vstd::prelude::*;

use crate::record::{
    apply_patch_spec, new_record, HomeworkRecord, NewHomework, Patch, RecordV,
};
use crate::repo::RepoError;
use crate::store::{
    listing_ok, sorted_by_due, spec_create, spec_delete, spec_get, spec_patch, spec_update,
    store_wf, uid_in, StoreModel,
};
use crate::text::{lemma_lex_le_total, lemma_lex_le_trans, lex_le, str_lex_le};

verus! {

/// No two records of the sequence share a uid.
pub open spec fn uids_unique(s: Seq<HomeworkRecord>) -> bool {
    forall|i: int, j: int| 0 <= i < j < s.len() ==> (#[trigger] s[i]@.uid) != (#[trigger] s[j]@.uid)
}

/// The sequence of records as a uid-to-record map. Later entries win, but
/// under `uids_unique` there is nothing to win over.
pub open spec fn as_map(s: Seq<HomeworkRecord>) -> StoreModel
    decreases s.len(),
{
    if s.len() == 0 {
        Map::empty()
    } else {
        as_map(s.drop_last()).insert(s.last()@.uid, s.last()@)
    }
}

/// A uid is in the map exactly when some record of the sequence has it.
pub proof fn lemma_as_map_membership(s: Seq<HomeworkRecord>)
    ensures
        forall|k: Seq<char>|
            #[trigger] as_map(s).contains_key(k) <==> exists|i: int|
                0 <= i < s.len() && (#[trigger] s[i])@.uid == k,
    decreases s.len(),
{
    if s.len() > 0 {
        lemma_as_map_membership(s.drop_last());
        assert(as_map(s) == as_map(s.drop_last()).insert(s.last()@.uid, s.last()@));
        assert forall|k: Seq<char>| #[trigger] as_map(s).contains_key(k) implies exists|i: int|
            0 <= i < s.len() && (#[trigger] s[i])@.uid == k by {
            if k == s.last()@.uid {
                assert(s[s.len() - 1]@.uid == k);
            } else {
                assert(as_map(s.drop_last()).contains_key(k));
                let i = choose|i: int|
                    0 <= i < s.drop_last().len() && (#[trigger] s.drop_last()[i])@.uid == k;
                assert(s.drop_last()[i] == s[i]);
                assert(s[i]@.uid == k);
            }
        }
        assert forall|k: Seq<char>|
            (exists|i: int| 0 <= i < s.len() && (#[trigger] s[i])@.uid == k) implies #[trigger] as_map(
            s,
        ).contains_key(k) by {
            let i = choose|i: int| 0 <= i < s.len() && (#[trigger] s[i])@.uid == k;
            if i < s.len() - 1 {
                assert(s.drop_last()[i]@.uid == k);
            }
        }
    }
}

/// Under unique uids, each record of the sequence sits in the map under its
/// own uid.
pub proof fn lemma_as_map_index(s: Seq<HomeworkRecord>)
    requires
        uids_unique(s),
    ensures
        forall|i: int|
            0 <= i < s.len() ==> as_map(s).contains_key((#[trigger] s[i])@.uid) && as_map(
                s,
            )[s[i]@.uid] == s[i]@,
    decreases s.len(),
{
    if s.len() > 0 {
        lemma_as_map_index(s.drop_last());
        assert forall|i: int| 0 <= i < s.len() implies as_map(s).contains_key(
            (#[trigger] s[i])@.uid,
        ) && as_map(s)[s[i]@.uid] == s[i]@ by {
            if i < s.len() - 1 {
                assert(s.drop_last()[i] == s[i]);
                assert(s[i]@.uid != s.last()@.uid);
            }
        }
    }
}

/// Every record of the map sits under its own uid.
pub proof fn lemma_as_map_wf(s: Seq<HomeworkRecord>)
    ensures
        store_wf(as_map(s)),
    decreases s.len(),
{
    if s.len() > 0 {
        lemma_as_map_wf(s.drop_last());
    }
}

/// Appending a record inserts it into the map.
pub proof fn lemma_as_map_push(s: Seq<HomeworkRecord>, r: HomeworkRecord)
    ensures
        as_map(s.push(r)) == as_map(s).insert(r@.uid, r@),
{
    assert(s.push(r).drop_last() =~= s);
    assert(s.push(r).last() == r);
}

/// Replacing the record at one position, keeping its uid, updates the map
/// at that uid.
pub proof fn lemma_as_map_update(s: Seq<HomeworkRecord>, i: int, r: HomeworkRecord)
    requires
        uids_unique(s),
        0 <= i < s.len(),
        r@.uid == s[i]@.uid,
    ensures
        as_map(s.update(i, r)) == as_map(s).insert(r@.uid, r@),
        uids_unique(s.update(i, r)),
    decreases s.len(),
{
    let t = s.update(i, r);
    assert(uids_unique(t));
    if i == s.len() - 1 {
        assert(t.drop_last() =~= s.drop_last());
        assert(t.last() == r);
    } else {
        assert(t.drop_last() =~= s.drop_last().update(i, r));
        assert(t.last() == s.last());
        lemma_as_map_update(s.drop_last(), i, r);
        assert(s[i]@.uid != s.last()@.uid);
        assert(as_map(t) =~= as_map(s).insert(r@.uid, r@));
    }
}

/// Finds the position of the record with the given uid, if any record of the
/// vector has it.
pub fn find_index(items: &Vec<HomeworkRecord>, uid: &str) -> (r: Option<usize>)
    ensures
        match r {
            Some(i) => i < items@.len() && items@[i as int]@.uid == uid@,
            None => forall|i: int| 0 <= i < items@.len() ==> (#[trigger] items@[i])@.uid != uid@,
        },
{
    let mut i: usize = 0;
    while i < items.len()
        invariant
            i <= items@.len(),
            forall|j: int| 0 <= j < i ==> (#[trigger] items@[j])@.uid != uid@,
        decreases items@.len() - i,
    {
        if crate::text::str_eq_string(uid, &items[i].uid) {
            return Some(i);
        }
        i = i + 1;
    }
    None
}

/// Returns the record under the uid, whatever its deleted flag, or nothing.
pub fn get_record(items: &Vec<HomeworkRecord>, uid: &str) -> (r: Option<HomeworkRecord>)
    requires
        uids_unique(items@),
    ensures
        match r {
            Some(rec) => spec_get(as_map(items@), uid@) == Some(rec@),
            None => spec_get(as_map(items@), uid@) is None,
        },
{
    proof {
        lemma_as_map_membership(items@);
        lemma_as_map_index(items@);
    }
    match find_index(items, uid) {
        Some(i) => Some(items[i].clone()),
        None => None,
    }
}

/// Adds the freshly built record for a creation payload. Fails, changing
/// nothing, only if the uid is already taken.
pub fn create_record(
    items: &mut Vec<HomeworkRecord>,
    payload: NewHomework,
    uid: String,
    now: i64,
) -> (r: Result<HomeworkRecord, RepoError>)
    requires
        uids_unique(old(items)@),
    ensures
        uids_unique(final(items)@),
        match r {
            Ok(rec) => {
                &&& !as_map(old(items)@).contains_key(uid@)
                &&& rec@ == new_record(payload@, uid@, now)
                &&& as_map(final(items)@) == spec_create(as_map(old(items)@), payload@, uid@, now)
            },
            Err(e) => {
                &&& as_map(old(items)@).contains_key(uid@)
                &&& e is Unknown
                &&& final(items)@ == old(items)@
            },
        },
{
    proof {
        lemma_as_map_membership(items@);
    }
    match find_index(items, uid.as_str()) {
        Some(_) => Err(RepoError::Unknown("uid already taken".to_owned())),
        None => {
            let rec = HomeworkRecord::from_payload(payload, uid, now);
            let out = rec.clone();
            proof {
                lemma_as_map_push(items@, rec);
            }
            let ghost before = items@;
            items.push(rec);
            assert(uids_unique(final(items)@)) by {
                assert(forall|j: int|
                    0 <= j < before.len() ==> (#[trigger] before[j])@.uid != rec@.uid);
            }
            Ok(out)
        },
    }
}

/// Replaces the record with the argument's uid wholly, refreshing the update
/// moment; fails with `NotFound`, changing nothing, if the uid is absent.
pub fn update_record(items: &mut Vec<HomeworkRecord>, record: HomeworkRecord, now: i64) -> (r:
    Result<HomeworkRecord, RepoError>)
    requires
        uids_unique(old(items)@),
    ensures
        uids_unique(final(items)@),
        match r {
            Ok(rec) => {
                &&& as_map(old(items)@).contains_key(record@.uid)
                &&& rec@ == crate::store::spec_update_rec(record@, now)
                &&& as_map(final(items)@) == spec_update(as_map(old(items)@), record@, now)
            },
            Err(e) => {
                &&& !as_map(old(items)@).contains_key(record@.uid)
                &&& e is NotFound
                &&& final(items)@ == old(items)@
            },
        },
{
    proof {
        lemma_as_map_membership(items@);
    }
    match find_index(items, record.uid.as_str()) {
        Some(i) => {
            let mut record = record;
            record.updated_at = now;
            let out = record.clone();
            proof {
                lemma_as_map_update(items@, i as int, record);
            }
            items.set(i, record);
            Ok(out)
        },
        None => Err(RepoError::NotFound),
    }
}

/// Merges a partial update into the record under the uid, refreshing the
/// update moment; fails with `NotFound`, changing nothing, if the uid is
/// absent.
pub fn patch_record(items: &mut Vec<HomeworkRecord>, uid: &str, patch: Patch, now: i64) -> (r:
    Result<HomeworkRecord, RepoError>)
    requires
        uids_unique(old(items)@),
    ensures
        uids_unique(final(items)@),
        match r {
            Ok(rec) => {
                &&& as_map(old(items)@).contains_key(uid@)
                &&& rec@ == apply_patch_spec(as_map(old(items)@)[uid@], patch@, now)
                &&& as_map(final(items)@) == spec_patch(as_map(old(items)@), uid@, patch@, now)
            },
            Err(e) => {
                &&& !as_map(old(items)@).contains_key(uid@)
                &&& e is NotFound
                &&& final(items)@ == old(items)@
            },
        },
{
    proof {
        lemma_as_map_membership(items@);
        lemma_as_map_index(items@);
    }
    match find_index(items, uid) {
        Some(i) => {
            let mut merged = items[i].clone();
            merged.apply_patch(patch, now);
            let out = merged.clone();
            proof {
                lemma_as_map_update(items@, i as int, merged);
            }
            items.set(i, merged);
            Ok(out)
        },
        None => Err(RepoError::NotFound),
    }
}

/// Sets the soft-delete flag of the record under the uid and refreshes its
/// update moment; fails with `NotFound`, changing nothing, if the uid is
/// absent. Deleting an already deleted record succeeds again.
pub fn delete_record(items: &mut Vec<HomeworkRecord>, uid: &str, now: i64) -> (r: Result<
    (),
    RepoError,
>)
    requires
        uids_unique(old(items)@),
    ensures
        uids_unique(final(items)@),
        match r {
            Ok(_) => {
                &&& as_map(old(items)@).contains_key(uid@)
                &&& as_map(final(items)@) == spec_delete(as_map(old(items)@), uid@, now)
            },
            Err(e) => {
                &&& !as_map(old(items)@).contains_key(uid@)
                &&& e is NotFound
                &&& final(items)@ == old(items)@
            },
        },
{
    proof {
        lemma_as_map_membership(items@);
        lemma_as_map_index(items@);
    }
    match find_index(items, uid) {
        Some(i) => {
            let mut rec = items[i].clone();
            rec.deleted = true;
            rec.updated_at = now;
            assert(rec@ =~= crate::store::spec_delete_rec(as_map(items@)[uid@], now));
            proof {
                lemma_as_map_update(items@, i as int, rec);
            }
            items.set(i, rec);
            Ok(())
        },
        None => Err(RepoError::NotFound),
    }
}

/// Whether some record among the first `i` carries the uid.
pub open spec fn source_in(items: Seq<HomeworkRecord>, i: int, u: Seq<char>) -> bool {
    exists|k: int| 0 <= k < i && (#[trigger] items[k])@.uid == u
}

/// The facts a partial listing is built on, while the first `i` records
/// have been walked.
pub open spec fn partial_listing(
    m: StoreModel,
    items: Seq<HomeworkRecord>,
    i: int,
    dv: Seq<RecordV>,
) -> bool {
    &&& sorted_by_due(dv)
    &&& forall|a: int|
        0 <= a < dv.len() ==> {
            &&& m.contains_key((#[trigger] dv[a]).uid)
            &&& m[dv[a].uid] == dv[a]
            &&& !dv[a].deleted
        }
    &&& forall|a: int| 0 <= a < dv.len() ==> source_in(items, i, (#[trigger] dv[a]).uid)
    &&& forall|k: int|
        0 <= k < i && !(#[trigger] items[k])@.deleted ==> uid_in(dv, items[k]@.uid)
    &&& forall|a: int, b: int|
        0 <= a < b < dv.len() ==> (#[trigger] dv[a]).uid != (#[trigger] dv[b]).uid
}

/// One step of building a listing: inserting the next non-deleted record at
/// its sorted position keeps every fact the listing is built on.
#[verifier::spinoff_prover]
proof fn lemma_insert_keeps_listing(
    odv: Seq<RecordV>,
    ndv: Seq<RecordV>,
    rec: RecordV,
    j: int,
    m: StoreModel,
    items: Seq<HomeworkRecord>,
    i: int,
)
    requires
        uids_unique(items),
        0 <= i < items.len(),
        rec == items[i]@,
        !rec.deleted,
        m == as_map(items),
        0 <= j <= odv.len(),
        ndv == odv.insert(j, rec),
        partial_listing(m, items, i, odv),
        forall|a: int| 0 <= a < j ==> lex_le((#[trigger] odv[a]).due_text, rec.due_text),
        j < odv.len() ==> lex_le(rec.due_text, odv[j].due_text),
    ensures
        partial_listing(m, items, i + 1, ndv),
{
    lemma_as_map_index(items);
    lemma_insert_sorted(odv, ndv, rec, j);
    // No element of the old listing carries the inserted record's uid: its
    // source index would clash with uid uniqueness.
    assert forall|a: int| 0 <= a < odv.len() implies (#[trigger] odv[a]).uid != rec.uid by {
        assert(source_in(items, i, odv[a].uid));
        let k = choose|k: int| 0 <= k < i && (#[trigger] items[k])@.uid == odv[a].uid;
        assert(items[k]@.uid != items[i]@.uid);
    }
    assert forall|a: int| 0 <= a < ndv.len() implies source_in(
        items,
        i + 1,
        (#[trigger] ndv[a]).uid,
    ) by {
        if a == j {
            assert(items[i]@.uid == ndv[a].uid);
        } else {
            let aa = if a < j {
                a
            } else {
                a - 1
            };
            assert(source_in(items, i, odv[aa].uid));
            let k = choose|k: int| 0 <= k < i && (#[trigger] items[k])@.uid == odv[aa].uid;
            assert(items[k]@.uid == ndv[a].uid);
        }
    }
    assert forall|k: int|
        0 <= k < i + 1 && !(#[trigger] items[k])@.deleted implies uid_in(
        ndv,
        items[k]@.uid,
    ) by {
        if k == i {
            assert(ndv[j].uid == items[i]@.uid);
        } else {
            assert(uid_in(odv, items[k]@.uid));
            let a = choose|a: int| 0 <= a < odv.len() && (#[trigger] odv[a]).uid == items[k]@.uid;
            if a < j {
                assert(ndv[a].uid == items[k]@.uid);
            } else {
                assert(ndv[a + 1].uid == items[k]@.uid);
            }
        }
    }
    assert forall|a: int, b: int| 0 <= a < b < ndv.len() implies (#[trigger] ndv[a]).uid
        != (#[trigger] ndv[b]).uid by {
        if b == j {
            assert(ndv[a] == odv[a]);
        } else if a == j {
            assert(ndv[b] == odv[b - 1]);
        }
    }
}

/// Inserting at a position bounded by the neighbours keeps the listing
/// sorted.
#[verifier::spinoff_prover]
proof fn lemma_insert_sorted(odv: Seq<RecordV>, ndv: Seq<RecordV>, rec: RecordV, j: int)
    requires
        0 <= j <= odv.len(),
        ndv == odv.insert(j, rec),
        sorted_by_due(odv),
        forall|a: int| 0 <= a < j ==> lex_le((#[trigger] odv[a]).due_text, rec.due_text),
        j < odv.len() ==> lex_le(rec.due_text, odv[j].due_text),
    ensures
        sorted_by_due(ndv),
{
    assert forall|a: int, b: int| 0 <= a < b < ndv.len() implies lex_le(
        (#[trigger] ndv[a]).due_text,
        (#[trigger] ndv[b]).due_text,
    ) by {
        if a < j && b == j {
        } else if a == j && b > j {
            if b - 1 > j {
                lemma_lex_le_trans(rec.due_text, odv[j].due_text, odv[b - 1].due_text);
            }
        }
    }
}

/// All records not soft-deleted, each once, sorted ascending by due-date
/// text.
#[verifier::rlimit(100)]
pub fn list_records(items: &Vec<HomeworkRecord>) -> (out: Vec<HomeworkRecord>)
    requires
        uids_unique(items@),
    ensures
        listing_ok(as_map(items@), out.deep_view()),
{
    let ghost m = as_map(items@);
    proof {
        lemma_as_map_membership(items@);
        lemma_as_map_index(items@);
    }
    let mut out: Vec<HomeworkRecord> = Vec::new();
    let mut i: usize = 0;
    while i < items.len()
        invariant
            uids_unique(items@),
            m == as_map(items@),
            i <= items@.len(),
            out@.len() == out.deep_view().len(),
            partial_listing(m, items@, i as int, out.deep_view()),
        decreases items@.len() - i,
    {
        if !items[i].deleted {
            let rec = items[i].clone();
            let ghost odv = out.deep_view();
            let mut j: usize = 0;
            while j < out.len() && str_lex_le(out[j].due_text.as_str(), rec.due_text.as_str())
                invariant
                    j <= out@.len(),
                    out.deep_view() == odv,
                    forall|a: int|
                        0 <= a < j ==> lex_le(
                            (#[trigger] out.deep_view()[a]).due_text,
                            rec@.due_text,
                        ),
                decreases out@.len() - j,
            {
                assert(out.deep_view()[j as int].due_text == out@[j as int]@.due_text);
                j = j + 1;
            }
            proof {
                if j < out@.len() {
                    lemma_lex_le_total(odv[j as int].due_text, rec@.due_text);
                    assert(lex_le(rec@.due_text, odv[j as int].due_text));
                }
            }
            out.insert(j, rec);
            proof {
                let ndv = out.deep_view();
                assert(ndv =~= odv.insert(j as int, rec@));
                lemma_insert_keeps_listing(odv, ndv, rec@, j as int, m, items@, i as int);
            }
        } else {
            proof {
                assert forall|k: int|
                    0 <= k < i + 1 && !(#[trigger] items@[k])@.deleted implies uid_in(
                    out.deep_view(),
                    items@[k]@.uid,
                ) by {}
            }
        }
        i = i + 1;
    }
    proof {
        let dv = out.deep_view();
        assert forall|k: Seq<char>| #[trigger] m.contains_key(k) && !m[k].deleted implies uid_in(
            dv,
            k,
        ) by {
            let ki = choose|ki: int| 0 <= ki < items@.len() && (#[trigger] items@[ki])@.uid == k;
            assert(m[k] == items@[ki]@);
            assert(!items@[ki]@.deleted);
        }
    }
    out
}

} // verus!
