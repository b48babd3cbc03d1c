//! The volatile backend: a uid-keyed collection held in memory, nothing
//! persisted across restarts.

use vstd::prelude::*;

use crate::clock::now_timestamp;
use crate::collection::{
    as_map, create_record, delete_record, get_record, list_records, patch_record, uids_unique,
    update_record,
};
use crate::ids::new_uid;
use crate::record::{
    apply_patch_spec, new_record, HomeworkRecord, NewHomework, Patch, RecordV,
};
use crate::repo::RepoError;
use crate::store::{
    listing_ok, spec_create, spec_delete, spec_get, spec_patch, spec_update, spec_update_rec,
    StoreModel,
};

verus! {

/// The volatile backend. One instance owns one collection; a caller that
/// shares it across threads guards the whole instance with one lock for
/// each operation's full duration.
pub struct MemoryRepo {
    items: Vec<HomeworkRecord>,
}

impl View for MemoryRepo {
    type V = StoreModel;

    /// The abstract store this instance holds.
    closed spec fn view(&self) -> StoreModel {
        as_map(self.items@)
    }
}

impl MemoryRepo {
    /// The internal well-formedness every operation preserves: no two
    /// records share a uid.
    pub closed spec fn inv(&self) -> bool {
        uids_unique(self.items@)
    }

    /// An empty volatile store.
    pub fn new() -> (r: Self)
        ensures
            r.inv(),
            r@ == Map::<Seq<char>, RecordV>::empty(),
    {
        let r = MemoryRepo { items: Vec::new() };
        proof {
            assert(r@ =~= Map::<Seq<char>, RecordV>::empty());
        }
        r
    }

    /// All records not soft-deleted, sorted ascending by due-date text.
    /// The volatile backend cannot fail.
    pub fn list(&self) -> (r: Result<Vec<HomeworkRecord>, RepoError>)
        requires
            self.inv(),
        ensures
            r is Ok,
            listing_ok(self@, r->Ok_0.deep_view()),
    {
        Ok(list_records(&self.items))
    }

    /// The record under the uid, whatever its deleted flag, or nothing if no
    /// record with that uid has ever existed.
    pub fn get(&self, uid: &str) -> (r: Result<Option<HomeworkRecord>, RepoError>)
        requires
            self.inv(),
        ensures
            r is Ok,
            match r->Ok_0 {
                Some(rec) => spec_get(self@, uid@) == Some(rec@),
                None => spec_get(self@, uid@) is None,
            },
    {
        Ok(get_record(&self.items, uid))
    }

    /// Creates a record for the payload under a fresh uid, with both
    /// timestamps set to the creation moment. Fails, changing nothing, only
    /// if the generated uid is already taken.
    pub fn create(&mut self, payload: NewHomework) -> (r: Result<HomeworkRecord, RepoError>)
        requires
            old(self).inv(),
        ensures
            final(self).inv(),
            match r {
                Ok(rec) => {
                    &&& !old(self)@.contains_key(rec@.uid)
                    &&& rec@.uid.len() == 26
                    &&& rec@ == new_record(payload@, rec@.uid, rec@.created_at)
                    &&& final(self)@ == spec_create(
                        old(self)@,
                        payload@,
                        rec@.uid,
                        rec@.created_at,
                    )
                },
                Err(_) => final(self)@ == old(self)@,
            },
    {
        let uid = new_uid();
        let now = now_timestamp();
        self.create_at(payload, uid, now)
    }

    /// Creates the record for the payload under the given uid at the given
    /// moment. Fails, changing nothing, exactly when the uid is taken.
    pub fn create_at(&mut self, payload: NewHomework, uid: String, now: i64) -> (r: Result<
        HomeworkRecord,
        RepoError,
    >)
        requires
            old(self).inv(),
        ensures
            final(self).inv(),
            match r {
                Ok(rec) => {
                    &&& !old(self)@.contains_key(uid@)
                    &&& rec@ == new_record(payload@, uid@, now)
                    &&& final(self)@ == spec_create(old(self)@, payload@, uid@, now)
                },
                Err(e) => {
                    &&& old(self)@.contains_key(uid@)
                    &&& e is Unknown
                    &&& final(self)@ == old(self)@
                },
            },
    {
        create_record(&mut self.items, payload, uid, now)
    }

    /// Replaces the record with the argument's uid wholly, refreshing the
    /// update moment; `NotFound` exactly when the uid is absent.
    pub fn update(&mut self, record: HomeworkRecord) -> (r: Result<HomeworkRecord, RepoError>)
        requires
            old(self).inv(),
        ensures
            final(self).inv(),
            match r {
                Ok(rec) => {
                    &&& old(self)@.contains_key(record@.uid)
                    &&& rec@ == spec_update_rec(record@, rec@.updated_at)
                    &&& final(self)@ == spec_update(old(self)@, record@, rec@.updated_at)
                },
                Err(e) => {
                    &&& !old(self)@.contains_key(record@.uid)
                    &&& e is NotFound
                    &&& final(self)@ == old(self)@
                },
            },
    {
        let now = now_timestamp();
        self.update_at(record, now)
    }

    /// Replaces the record with the argument's uid wholly, stamping the
    /// given update moment; `NotFound` exactly when the uid is absent.
    pub fn update_at(&mut self, record: HomeworkRecord, now: i64) -> (r: Result<
        HomeworkRecord,
        RepoError,
    >)
        requires
            old(self).inv(),
        ensures
            final(self).inv(),
            match r {
                Ok(rec) => {
                    &&& old(self)@.contains_key(record@.uid)
                    &&& rec@ == spec_update_rec(record@, now)
                    &&& final(self)@ == spec_update(old(self)@, record@, now)
                },
                Err(e) => {
                    &&& !old(self)@.contains_key(record@.uid)
                    &&& e is NotFound
                    &&& final(self)@ == old(self)@
                },
            },
    {
        update_record(&mut self.items, record, now)
    }

    /// Merges a partial update into the record under the uid, refreshing
    /// the update moment; `NotFound` exactly when the uid is absent.
    pub fn patch(&mut self, uid: &str, patch: Patch) -> (r: Result<HomeworkRecord, RepoError>)
        requires
            old(self).inv(),
        ensures
            final(self).inv(),
            match r {
                Ok(rec) => {
                    &&& old(self)@.contains_key(uid@)
                    &&& rec@ == apply_patch_spec(old(self)@[uid@], patch@, rec@.updated_at)
                    &&& final(self)@ == spec_patch(old(self)@, uid@, patch@, rec@.updated_at)
                },
                Err(e) => {
                    &&& !old(self)@.contains_key(uid@)
                    &&& e is NotFound
                    &&& final(self)@ == old(self)@
                },
            },
    {
        let now = now_timestamp();
        self.patch_at(uid, patch, now)
    }

    /// Merges a partial update at the given moment; `NotFound` exactly when
    /// the uid is absent.
    pub fn patch_at(&mut self, uid: &str, patch: Patch, now: i64) -> (r: Result<
        HomeworkRecord,
        RepoError,
    >)
        requires
            old(self).inv(),
        ensures
            final(self).inv(),
            match r {
                Ok(rec) => {
                    &&& old(self)@.contains_key(uid@)
                    &&& rec@ == apply_patch_spec(old(self)@[uid@], patch@, now)
                    &&& final(self)@ == spec_patch(old(self)@, uid@, patch@, now)
                },
                Err(e) => {
                    &&& !old(self)@.contains_key(uid@)
                    &&& e is NotFound
                    &&& final(self)@ == old(self)@
                },
            },
    {
        patch_record(&mut self.items, uid, patch, now)
    }

    /// Sets the soft-delete flag and refreshes the update moment, keeping
    /// the record; `NotFound` exactly when the uid is absent. A second
    /// delete succeeds again.
    pub fn delete(&mut self, uid: &str) -> (r: Result<(), RepoError>)
        requires
            old(self).inv(),
        ensures
            final(self).inv(),
            match r {
                Ok(_) => {
                    &&& old(self)@.contains_key(uid@)
                    &&& exists|now: i64| final(self)@ == spec_delete(old(self)@, uid@, now)
                },
                Err(e) => {
                    &&& !old(self)@.contains_key(uid@)
                    &&& e is NotFound
                    &&& final(self)@ == old(self)@
                },
            },
    {
        let now = now_timestamp();
        self.delete_at(uid, now)
    }

    /// Sets the soft-delete flag, stamping the given update moment;
    /// `NotFound` exactly when the uid is absent.
    pub fn delete_at(&mut self, uid: &str, now: i64) -> (r: Result<(), RepoError>)
        requires
            old(self).inv(),
        ensures
            final(self).inv(),
            match r {
                Ok(_) => {
                    &&& old(self)@.contains_key(uid@)
                    &&& final(self)@ == spec_delete(old(self)@, uid@, now)
                },
                Err(e) => {
                    &&& !old(self)@.contains_key(uid@)
                    &&& e is NotFound
                    &&& final(self)@ == old(self)@
                },
            },
    {
        delete_record(&mut self.items, uid, now)
    }
}

} // verus!
