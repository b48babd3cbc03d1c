//! The flat-file backend's document: the whole collection as one parsed
//! in-memory value. Reading and writing the file itself is the caller's
//! plain I/O; everything between — the text format and the operations — is
//! verified here.
//!
//! A text that does not parse, or that carries a duplicated uid, is treated
//! as an empty collection rather than an error. That availability-over-
//! strictness fallback can mask a corrupted file as loss of all records; it
//! is kept deliberately, matching the contract's degrade-to-empty reads.

use vstd::prelude::*;

use crate::clock::now_timestamp;
use crate::codec::{enc_records, from_text, parse_records_text, to_text};
use crate::collection::{
    as_map, create_record, delete_record, get_record, list_records, patch_record, uids_unique,
    update_record,
};
use crate::ids::new_uid;
use crate::record::{apply_patch_spec, new_record, HomeworkRecord, NewHomework, Patch, RecordV};
use crate::repo::RepoError;
use crate::store::{
    listing_ok, spec_create, spec_delete, spec_get, spec_patch, spec_update, spec_update_rec,
    StoreModel,
};

verus! {

/// No two records of a parsed document share a uid.
pub open spec fn uids_unique_v(rs: Seq<RecordV>) -> bool {
    forall|i: int, j: int| 0 <= i < j < rs.len() ==> (#[trigger] rs[i].uid) != (#[trigger] rs[j].uid)
}

/// The flat-file backend's document: the whole collection, parsed. One
/// instance stands for one file's contents; the caller reads the file into
/// text, works on the document, and writes the text back, holding one lock
/// around the whole read-modify-write.
pub struct JsonRepo {
    records: Vec<HomeworkRecord>,
}

impl View for JsonRepo {
    type V = StoreModel;

    /// The abstract store this document holds.
    closed spec fn view(&self) -> StoreModel {
        as_map(self.records@)
    }
}

/// Whether the records of the vector have pairwise distinct uids.
fn check_unique(items: &Vec<HomeworkRecord>) -> (r: bool)
    ensures
        r == uids_unique(items@),
{
    let mut a: usize = 0;
    while a < items.len()
        invariant
            a <= items@.len(),
            forall|i: int, j: int|
                0 <= i < j < items@.len() && i < a ==> (#[trigger] items@[i])@.uid
                    != (#[trigger] items@[j])@.uid,
        decreases items@.len() - a,
    {
        let mut b: usize = a + 1;
        while b < items.len()
            invariant
                a < b <= items@.len() || (b == a + 1 && b >= items@.len()),
                a < items@.len(),
                forall|j: int|
                    a < j < b ==> (#[trigger] items@[j])@.uid != items@[a as int]@.uid,
            decreases items@.len() - b,
        {
            if items[a].uid.eq(&items[b].uid) {
                assert(items@[a as int]@.uid == items@[b as int]@.uid);
                assert(!uids_unique(items@));
                return false;
            }
            b = b + 1;
        }
        a = a + 1;
    }
    true
}

impl JsonRepo {
    /// The internal well-formedness every operation preserves: no two
    /// records share a uid.
    pub closed spec fn inv(&self) -> bool {
        uids_unique(self.records@)
    }

    /// The document's records in file order.
    pub closed spec fn doc(&self) -> Seq<RecordV> {
        self.records.deep_view()
    }

    /// An empty document.
    pub fn new() -> (r: Self)
        ensures
            r.inv(),
            r@ == Map::<Seq<char>, RecordV>::empty(),
            r.doc() == Seq::<RecordV>::empty(),
    {
        let r = JsonRepo { records: Vec::new() };
        proof {
            assert(r@ =~= Map::<Seq<char>, RecordV>::empty());
            assert(r.doc() =~= Seq::<RecordV>::empty());
        }
        r
    }

    /// Reads a document from the file's text. A text that does not parse,
    /// or whose records do not have distinct uids, yields the empty
    /// document.
    pub fn from_text(s: &str) -> (r: Self)
        ensures
            r.inv(),
            match parse_records_text(s@) {
                Some(rs) => {
                    &&& (uids_unique_v(rs) ==> r.doc() == rs)
                    &&& (!uids_unique_v(rs) ==> r.doc() == Seq::<RecordV>::empty())
                },
                None => r.doc() == Seq::<RecordV>::empty(),
            },
    {
        match from_text(s) {
            Some(records) => {
                if check_unique(&records) {
                    let r = JsonRepo { records };
                    proof {
                        let rs = parse_records_text(s@)->Some_0;
                        assert(uids_unique_v(rs)) by {
                            assert(forall|i: int|
                                0 <= i < r.records@.len() ==> (#[trigger] r.records@[i])@
                                    == r.doc()[i]);
                        }
                    }
                    r
                } else {
                    let r = JsonRepo { records: Vec::new() };
                    proof {
                        let rs = parse_records_text(s@)->Some_0;
                        assert(!uids_unique_v(rs)) by {
                            assert(forall|i: int|
                                0 <= i < records@.len() ==> (#[trigger] records@[i])@
                                    == records.deep_view()[i]);
                        }
                        assert(r.doc() =~= Seq::<RecordV>::empty());
                    }
                    r
                }
            },
            None => {
                let r = JsonRepo { records: Vec::new() };
                proof {
                    assert(r.doc() =~= Seq::<RecordV>::empty());
                }
                r
            },
        }
    }

    /// Renders the document as the file's text.
    pub fn to_text(&self) -> (t: String)
        ensures
            t@ == enc_records(self.doc()),
    {
        to_text(&self.records)
    }

    /// All records not soft-deleted, sorted ascending by due-date text.
    pub fn list(&self) -> (r: Result<Vec<HomeworkRecord>, RepoError>)
        requires
            self.inv(),
        ensures
            r is Ok,
            listing_ok(self@, r->Ok_0.deep_view()),
    {
        Ok(list_records(&self.records))
    }

    /// The record under the uid, whatever its deleted flag, or nothing if
    /// no record with that uid has ever existed.
    pub fn get(&self, uid: &str) -> (r: Result<Option<HomeworkRecord>, RepoError>)
        requires
            self.inv(),
        ensures
            r is Ok,
            match r->Ok_0 {
                Some(rec) => spec_get(self@, uid@) == Some(rec@),
                None => spec_get(self@, uid@) is None,
            },
    {
        Ok(get_record(&self.records, uid))
    }

    /// Creates a record for the payload under a fresh uid, with both
    /// timestamps set to the creation moment. Fails, changing nothing, only
    /// if the generated uid is already taken.
    pub fn create(&mut self, payload: NewHomework) -> (r: Result<HomeworkRecord, RepoError>)
        requires
            old(self).inv(),
        ensures
            final(self).inv(),
            match r {
                Ok(rec) => {
                    &&& !old(self)@.contains_key(rec@.uid)
                    &&& rec@.uid.len() == 26
                    &&& rec@ == new_record(payload@, rec@.uid, rec@.created_at)
                    &&& final(self)@ == spec_create(
                        old(self)@,
                        payload@,
                        rec@.uid,
                        rec@.created_at,
                    )
                },
                Err(_) => final(self)@ == old(self)@,
            },
    {
        let uid = new_uid();
        let now = now_timestamp();
        self.create_at(payload, uid, now)
    }

    /// Creates the record for the payload under the given uid at the given
    /// moment. Fails, changing nothing, exactly when the uid is taken.
    pub fn create_at(&mut self, payload: NewHomework, uid: String, now: i64) -> (r: Result<
        HomeworkRecord,
        RepoError,
    >)
        requires
            old(self).inv(),
        ensures
            final(self).inv(),
            match r {
                Ok(rec) => {
                    &&& !old(self)@.contains_key(uid@)
                    &&& rec@ == new_record(payload@, uid@, now)
                    &&& final(self)@ == spec_create(old(self)@, payload@, uid@, now)
                },
                Err(e) => {
                    &&& old(self)@.contains_key(uid@)
                    &&& e is Unknown
                    &&& final(self)@ == old(self)@
                },
            },
    {
        create_record(&mut self.records, payload, uid, now)
    }

    /// Replaces the record with the argument's uid wholly, stamping a fresh
    /// update moment; `NotFound` exactly when the uid is absent.
    pub fn update(&mut self, record: HomeworkRecord) -> (r: Result<HomeworkRecord, RepoError>)
        requires
            old(self).inv(),
        ensures
            final(self).inv(),
            match r {
                Ok(rec) => {
                    &&& old(self)@.contains_key(record@.uid)
                    &&& rec@ == spec_update_rec(record@, rec@.updated_at)
                    &&& final(self)@ == spec_update(old(self)@, record@, rec@.updated_at)
                },
                Err(e) => {
                    &&& !old(self)@.contains_key(record@.uid)
                    &&& e is NotFound
                    &&& final(self)@ == old(self)@
                },
            },
    {
        let now = now_timestamp();
        self.update_at(record, now)
    }

    /// Replaces the record with the argument's uid wholly, stamping the
    /// given update moment; `NotFound` exactly when the uid is absent.
    pub fn update_at(&mut self, record: HomeworkRecord, now: i64) -> (r: Result<
        HomeworkRecord,
        RepoError,
    >)
        requires
            old(self).inv(),
        ensures
            final(self).inv(),
            match r {
                Ok(rec) => {
                    &&& old(self)@.contains_key(record@.uid)
                    &&& rec@ == spec_update_rec(record@, now)
                    &&& final(self)@ == spec_update(old(self)@, record@, now)
                },
                Err(e) => {
                    &&& !old(self)@.contains_key(record@.uid)
                    &&& e is NotFound
                    &&& final(self)@ == old(self)@
                },
            },
    {
        update_record(&mut self.records, record, now)
    }

    /// Merges a partial update into the record under the uid, stamping a
    /// fresh update moment; `NotFound` exactly when the uid is absent.
    pub fn patch(&mut self, uid: &str, patch: Patch) -> (r: Result<HomeworkRecord, RepoError>)
        requires
            old(self).inv(),
        ensures
            final(self).inv(),
            match r {
                Ok(rec) => {
                    &&& old(self)@.contains_key(uid@)
                    &&& rec@ == apply_patch_spec(old(self)@[uid@], patch@, rec@.updated_at)
                    &&& final(self)@ == spec_patch(old(self)@, uid@, patch@, rec@.updated_at)
                },
                Err(e) => {
                    &&& !old(self)@.contains_key(uid@)
                    &&& e is NotFound
                    &&& final(self)@ == old(self)@
                },
            },
    {
        let now = now_timestamp();
        self.patch_at(uid, patch, now)
    }

    /// Merges a partial update at the given moment; `NotFound` exactly when
    /// the uid is absent.
    pub fn patch_at(&mut self, uid: &str, patch: Patch, now: i64) -> (r: Result<
        HomeworkRecord,
        RepoError,
    >)
        requires
            old(self).inv(),
        ensures
            final(self).inv(),
            match r {
                Ok(rec) => {
                    &&& old(self)@.contains_key(uid@)
                    &&& rec@ == apply_patch_spec(old(self)@[uid@], patch@, now)
                    &&& final(self)@ == spec_patch(old(self)@, uid@, patch@, now)
                },
                Err(e) => {
                    &&& !old(self)@.contains_key(uid@)
                    &&& e is NotFound
                    &&& final(self)@ == old(self)@
                },
            },
    {
        patch_record(&mut self.records, uid, patch, now)
    }

    /// Sets the soft-delete flag and stamps a fresh update moment, keeping
    /// the record; `NotFound` exactly when the uid is absent. A second
    /// delete succeeds again.
    pub fn delete(&mut self, uid: &str) -> (r: Result<(), RepoError>)
        requires
            old(self).inv(),
        ensures
            final(self).inv(),
            match r {
                Ok(_) => {
                    &&& old(self)@.contains_key(uid@)
                    &&& exists|now: i64| final(self)@ == spec_delete(old(self)@, uid@, now)
                },
                Err(e) => {
                    &&& !old(self)@.contains_key(uid@)
                    &&& e is NotFound
                    &&& final(self)@ == old(self)@
                },
            },
    {
        let now = now_timestamp();
        self.delete_at(uid, now)
    }

    /// Sets the soft-delete flag, stamping the given update moment;
    /// `NotFound` exactly when the uid is absent.
    pub fn delete_at(&mut self, uid: &str, now: i64) -> (r: Result<(), RepoError>)
        requires
            old(self).inv(),
        ensures
            final(self).inv(),
            match r {
                Ok(_) => {
                    &&& old(self)@.contains_key(uid@)
                    &&& final(self)@ == spec_delete(old(self)@, uid@, now)
                },
                Err(e) => {
                    &&& !old(self)@.contains_key(uid@)
                    &&& e is NotFound
                    &&& final(self)@ == old(self)@
                },
            },
    {
        delete_record(&mut self.records, uid, now)
    }
}

/// The flat-file round trip at the document level: writing a document to
/// text and reading the text back yields field-for-field the same records,
/// in the same order.
pub proof fn law_document_round_trip(j: JsonRepo)
    requires
        j.inv(),
    ensures
        parse_records_text(enc_records(j.doc())) == Some(j.doc()),
        uids_unique_v(j.doc()),
{
    crate::codec::lemma_records_round_trip(j.doc());
    assert(forall|i: int| 0 <= i < j.doc().len() ==> j.doc()[i] == (#[trigger] j.records@[i])@);
}

} // verus!
