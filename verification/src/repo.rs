//! The repository contract: the error taxonomy, the polymorphic interface
//! every backend satisfies, and the factory that picks a backend from the
//! configured storage location.

use vstd::prelude::*;

use crate::jsonfile::JsonRepo;
use crate::memory::MemoryRepo;
use crate::record::{apply_patch_spec, new_record, HomeworkRecord, NewHomework, Patch, RecordV};
use crate::sqlite::SQLiteRepo;
use crate::store::{
    listing_ok, spec_create, spec_delete, spec_get, spec_patch, spec_update, spec_update_rec,
    StoreModel,
};

verus! {

/// Why a repository operation failed. Callers must treat every variant as
/// recoverable.
#[derive(Debug, PartialEq, Eq)]
pub enum RepoError {
    /// A uid-keyed operation named a uid no record has ever had.
    NotFound,
    /// The embedded database reported a query failure.
    Sql(String),
    /// Persisted data could not be read or written in the expected form.
    Serde(String),
    /// The storage medium could not be reached or opened.
    Unavailable(String),
    /// Anything unclassified.
    Unknown(String),
}

impl RepoError {
    /// The error's text, with its detail appended.
    pub fn message(&self) -> (r: String)
        ensures
            r@ == match *self {
                RepoError::NotFound => "not found"@,
                RepoError::Sql(ref m) => "sqlite error: "@ + m@,
                RepoError::Serde(ref m) => "serialization error: "@ + m@,
                RepoError::Unavailable(ref m) => "unavailable: "@ + m@,
                RepoError::Unknown(ref m) => "unknown: "@ + m@,
            },
    {
        match self {
            RepoError::NotFound => "not found".to_owned(),
            RepoError::Sql(m) => "sqlite error: ".to_owned().concat(m.as_str()),
            RepoError::Serde(m) => "serialization error: ".to_owned().concat(m.as_str()),
            RepoError::Unavailable(m) => "unavailable: ".to_owned().concat(m.as_str()),
            RepoError::Unknown(m) => "unknown: ".to_owned().concat(m.as_str()),
        }
    }
}

/// The repository contract all backends satisfy: a uid-keyed store of
/// records with listing, lookup, creation, full and partial update, and
/// soft delete, each operation's effect pinned against the backend's
/// abstract model.
pub trait HomeworkRepo: Sized {
    /// The backend's internal well-formedness, preserved by every
    /// operation.
    spec fn repo_inv(&self) -> bool;

    /// The backend's abstract store.
    spec fn model(&self) -> StoreModel;

    /// All records not soft-deleted, sorted ascending by due-date text.
    fn list(&self) -> (r: Result<Vec<HomeworkRecord>, RepoError>)
        requires
            self.repo_inv(),
        ensures
            r is Ok ==> listing_ok(self.model(), r->Ok_0.deep_view()),
    ;

    /// The record under the uid, whatever its deleted flag, or nothing if
    /// no record with that uid has ever existed.
    fn get(&self, uid: &str) -> (r: Result<Option<HomeworkRecord>, RepoError>)
        requires
            self.repo_inv(),
        ensures
            match r {
                Ok(o) => match o {
                    Some(rec) => spec_get(self.model(), uid@) == Some(rec@),
                    None => spec_get(self.model(), uid@) is None,
                },
                Err(_) => true,
            },
    ;

    /// Creates a record for the payload under a fresh uid; both timestamps
    /// are the creation moment. A failure leaves the store unchanged.
    fn create(&mut self, payload: NewHomework) -> (r: Result<HomeworkRecord, RepoError>)
        requires
            old(self).repo_inv(),
        ensures
            final(self).repo_inv(),
            match r {
                Ok(rec) => {
                    &&& !old(self).model().contains_key(rec@.uid)
                    &&& rec@.uid.len() > 0
                    &&& rec@ == new_record(payload@, rec@.uid, rec@.created_at)
                    &&& final(self).model() == spec_create(
                        old(self).model(),
                        payload@,
                        rec@.uid,
                        rec@.created_at,
                    )
                },
                Err(_) => final(self).model() == old(self).model(),
            },
    ;

    /// Replaces the record with the argument's uid wholly, refreshing the
    /// update moment whatever the caller supplied for it. A failure leaves
    /// the store unchanged; `NotFound` only comes for an absent uid.
    fn update(&mut self, record: HomeworkRecord) -> (r: Result<HomeworkRecord, RepoError>)
        requires
            old(self).repo_inv(),
        ensures
            final(self).repo_inv(),
            match r {
                Ok(rec) => {
                    &&& rec@ == spec_update_rec(record@, rec@.updated_at)
                    &&& final(self).model() == spec_update(
                        old(self).model(),
                        record@,
                        rec@.updated_at,
                    )
                },
                Err(e) => {
                    &&& (e is NotFound ==> !old(self).model().contains_key(record@.uid))
                    &&& final(self).model() == old(self).model()
                },
            },
    ;

    /// Merges a partial update into the record under the uid, always
    /// refreshing the update moment. A failure leaves the store unchanged;
    /// `NotFound` only comes for an absent uid.
    fn patch(&mut self, uid: &str, patch: Patch) -> (r: Result<HomeworkRecord, RepoError>)
        requires
            old(self).repo_inv(),
        ensures
            final(self).repo_inv(),
            match r {
                Ok(rec) => {
                    &&& old(self).model().contains_key(uid@)
                    &&& rec@ == apply_patch_spec(old(self).model()[uid@], patch@, rec@.updated_at)
                    &&& final(self).model() == spec_patch(
                        old(self).model(),
                        uid@,
                        patch@,
                        rec@.updated_at,
                    )
                },
                Err(e) => {
                    &&& (e is NotFound ==> !old(self).model().contains_key(uid@))
                    &&& final(self).model() == old(self).model()
                },
            },
    ;

    /// Sets the soft-delete flag and refreshes the update moment, keeping
    /// the record; a second delete succeeds again. A failure leaves the
    /// store unchanged; `NotFound` only comes for an absent uid.
    fn delete(&mut self, uid: &str) -> (r: Result<(), RepoError>)
        requires
            old(self).repo_inv(),
        ensures
            final(self).repo_inv(),
            match r {
                Ok(_) => {
                    &&& old(self).model().contains_key(uid@) ==> exists|now: i64|
                        final(self).model() == spec_delete(old(self).model(), uid@, now)
                    &&& !old(self).model().contains_key(uid@) ==> final(self).model() == old(
                        self,
                    ).model()
                },
                Err(e) => {
                    &&& (e is NotFound ==> !old(self).model().contains_key(uid@))
                    &&& final(self).model() == old(self).model()
                },
            },
    ;
}

impl HomeworkRepo for MemoryRepo {
    open spec fn repo_inv(&self) -> bool {
        self.inv()
    }

    open spec fn model(&self) -> StoreModel {
        self@
    }

    fn list(&self) -> (r: Result<Vec<HomeworkRecord>, RepoError>) {
        MemoryRepo::list(self)
    }

    fn get(&self, uid: &str) -> (r: Result<Option<HomeworkRecord>, RepoError>) {
        MemoryRepo::get(self, uid)
    }

    fn create(&mut self, payload: NewHomework) -> (r: Result<HomeworkRecord, RepoError>) {
        MemoryRepo::create(self, payload)
    }

    fn update(&mut self, record: HomeworkRecord) -> (r: Result<HomeworkRecord, RepoError>) {
        MemoryRepo::update(self, record)
    }

    fn patch(&mut self, uid: &str, patch: Patch) -> (r: Result<HomeworkRecord, RepoError>) {
        MemoryRepo::patch(self, uid, patch)
    }

    fn delete(&mut self, uid: &str) -> (r: Result<(), RepoError>) {
        MemoryRepo::delete(self, uid)
    }
}

impl HomeworkRepo for JsonRepo {
    open spec fn repo_inv(&self) -> bool {
        self.inv()
    }

    open spec fn model(&self) -> StoreModel {
        self@
    }

    fn list(&self) -> (r: Result<Vec<HomeworkRecord>, RepoError>) {
        JsonRepo::list(self)
    }

    fn get(&self, uid: &str) -> (r: Result<Option<HomeworkRecord>, RepoError>) {
        JsonRepo::get(self, uid)
    }

    fn create(&mut self, payload: NewHomework) -> (r: Result<HomeworkRecord, RepoError>) {
        JsonRepo::create(self, payload)
    }

    fn update(&mut self, record: HomeworkRecord) -> (r: Result<HomeworkRecord, RepoError>) {
        JsonRepo::update(self, record)
    }

    fn patch(&mut self, uid: &str, patch: Patch) -> (r: Result<HomeworkRecord, RepoError>) {
        JsonRepo::patch(self, uid, patch)
    }

    fn delete(&mut self, uid: &str) -> (r: Result<(), RepoError>) {
        JsonRepo::delete(self, uid)
    }
}

impl HomeworkRepo for SQLiteRepo {
    open spec fn repo_inv(&self) -> bool {
        true
    }

    open spec fn model(&self) -> StoreModel {
        self@
    }

    fn list(&self) -> (r: Result<Vec<HomeworkRecord>, RepoError>) {
        SQLiteRepo::list(self)
    }

    fn get(&self, uid: &str) -> (r: Result<Option<HomeworkRecord>, RepoError>) {
        SQLiteRepo::get(self, uid)
    }

    fn create(&mut self, payload: NewHomework) -> (r: Result<HomeworkRecord, RepoError>) {
        let ghost pre = *self;
        let r = SQLiteRepo::create(self, payload);
        proof {
            crate::sqlite::lemma_model_within_rows(pre);
        }
        r
    }

    fn update(&mut self, record: HomeworkRecord) -> (r: Result<HomeworkRecord, RepoError>) {
        let ghost pre = *self;
        let r = SQLiteRepo::update(self, record);
        proof {
            crate::sqlite::lemma_model_within_rows(pre);
        }
        r
    }

    fn patch(&mut self, uid: &str, patch: Patch) -> (r: Result<HomeworkRecord, RepoError>) {
        let ghost pre = *self;
        let r = SQLiteRepo::patch(self, uid, patch);
        proof {
            crate::sqlite::lemma_model_within_rows(pre);
        }
        r
    }

    fn delete(&mut self, uid: &str) -> (r: Result<(), RepoError>) {
        let ghost pre = *self;
        let r = SQLiteRepo::delete(self, uid);
        proof {
            crate::sqlite::lemma_model_within_rows(pre);
        }
        r
    }
}

/// One backend, picked at start-up: volatile when no storage directory is
/// configured, the embedded database otherwise.
pub enum Repo {
    Memory(MemoryRepo),
    Sqlite(SQLiteRepo),
}

impl HomeworkRepo for Repo {
    open spec fn repo_inv(&self) -> bool {
        match *self {
            Repo::Memory(ref m) => m.inv(),
            Repo::Sqlite(_) => true,
        }
    }

    open spec fn model(&self) -> StoreModel {
        match *self {
            Repo::Memory(ref m) => m@,
            Repo::Sqlite(ref s) => s@,
        }
    }

    fn list(&self) -> (r: Result<Vec<HomeworkRecord>, RepoError>) {
        match self {
            Repo::Memory(m) => MemoryRepo::list(m),
            Repo::Sqlite(s) => SQLiteRepo::list(s),
        }
    }

    fn get(&self, uid: &str) -> (r: Result<Option<HomeworkRecord>, RepoError>) {
        match self {
            Repo::Memory(m) => MemoryRepo::get(m, uid),
            Repo::Sqlite(s) => SQLiteRepo::get(s, uid),
        }
    }

    fn create(&mut self, payload: NewHomework) -> (r: Result<HomeworkRecord, RepoError>) {
        match self {
            Repo::Memory(m) => MemoryRepo::create(m, payload),
            Repo::Sqlite(s) => {
                let ghost pre = *s;
                let r = SQLiteRepo::create(s, payload);
                proof {
                    crate::sqlite::lemma_model_within_rows(pre);
                }
                r
            },
        }
    }

    fn update(&mut self, record: HomeworkRecord) -> (r: Result<HomeworkRecord, RepoError>) {
        match self {
            Repo::Memory(m) => MemoryRepo::update(m, record),
            Repo::Sqlite(s) => {
                let ghost pre = *s;
                let r = SQLiteRepo::update(s, record);
                proof {
                    crate::sqlite::lemma_model_within_rows(pre);
                }
                r
            },
        }
    }

    fn patch(&mut self, uid: &str, patch: Patch) -> (r: Result<HomeworkRecord, RepoError>) {
        match self {
            Repo::Memory(m) => MemoryRepo::patch(m, uid, patch),
            Repo::Sqlite(s) => {
                let ghost pre = *s;
                let r = SQLiteRepo::patch(s, uid, patch);
                proof {
                    crate::sqlite::lemma_model_within_rows(pre);
                }
                r
            },
        }
    }

    fn delete(&mut self, uid: &str) -> (r: Result<(), RepoError>) {
        match self {
            Repo::Memory(m) => MemoryRepo::delete(m, uid),
            Repo::Sqlite(s) => {
                let ghost pre = *s;
                let r = SQLiteRepo::delete(s, uid);
                proof {
                    crate::sqlite::lemma_model_within_rows(pre);
                }
                r
            },
        }
    }
}

/// Picks and initializes the backend for the configured storage directory:
/// none selects the volatile store; a directory selects the embedded
/// database under `deadlines.db` in it, creating the file if missing. The
/// directory itself must already exist; making it is the caller's plain
/// I/O. Only opening the database can fail, as `Unavailable`.
pub fn init_repo(data_dir: Option<&str>) -> (r: Result<Repo, RepoError>)
    ensures
        match r {
            Ok(repo) => {
                &&& repo.repo_inv()
                &&& data_dir is None ==> repo.model() == Map::<Seq<char>, RecordV>::empty()
                    && repo is Memory
                &&& data_dir is Some ==> repo is Sqlite
            },
            Err(e) => data_dir is Some && e is Unavailable,
        },
{
    match data_dir {
        None => {
            let m = MemoryRepo::new();
            Ok(Repo::Memory(m))
        },
        Some(dir) => {
            let db_path = dir.to_owned().concat("/deadlines.db");
            match SQLiteRepo::new(db_path.as_str()) {
                Ok(s) => Ok(Repo::Sqlite(s)),
                Err(e) => Err(e),
            }
        },
    }
}

} // verus!
