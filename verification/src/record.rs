//! The storage-facing record types: the persisted record, the creation
//! payload, and the sparse partial-update descriptor, together with the
//! merge rule for partial updates.

use vstd::prelude::*;

verus! {

/// The persisted representation of one deadline item.
#[derive(Debug)]
pub struct HomeworkRecord {
    pub uid: String,
    pub name: String,
    /// Due moment in text form `YYYY-MM-DD HH:MM`.
    pub due_text: String,
    pub difficulty: u8,
    pub progress: u8,
    pub tags: Vec<String>,
    pub milestones: Vec<(u8, String)>,
    pub deleted: bool,
    pub created_at: i64,
    pub updated_at: i64,
    pub schema_version: u16,
}

/// Creation payload without uid, timestamps, deleted flag or schema stamp:
/// the backend assigns those.
#[derive(Debug)]
pub struct NewHomework {
    pub name: String,
    /// Due moment in text form `YYYY-MM-DD HH:MM`.
    pub due_text: String,
    pub difficulty: u8,
    pub progress: u8,
    pub tags: Vec<String>,
    pub milestones: Vec<(u8, String)>,
}

/// Partial update: a present field replaces the record's field, an absent
/// one leaves it untouched.
#[derive(Debug)]
pub struct Patch {
    pub name: Option<String>,
    pub due_text: Option<String>,
    pub difficulty: Option<u8>,
    pub progress: Option<u8>,
    pub tags: Option<Vec<String>>,
    pub milestones: Option<Vec<(u8, String)>>,
    pub deleted: Option<bool>,
}

/// The mathematical shape of a persisted record.
#[verifier::ext_equal]
pub ghost struct RecordV {
    pub uid: Seq<char>,
    pub name: Seq<char>,
    pub due_text: Seq<char>,
    pub difficulty: u8,
    pub progress: u8,
    pub tags: Seq<Seq<char>>,
    pub milestones: Seq<(u8, Seq<char>)>,
    pub deleted: bool,
    pub created_at: i64,
    pub updated_at: i64,
    pub schema_version: u16,
}

/// The mathematical shape of a creation payload.
#[verifier::ext_equal]
pub ghost struct NewHomeworkV {
    pub name: Seq<char>,
    pub due_text: Seq<char>,
    pub difficulty: u8,
    pub progress: u8,
    pub tags: Seq<Seq<char>>,
    pub milestones: Seq<(u8, Seq<char>)>,
}

/// The mathematical shape of a partial update.
#[verifier::ext_equal]
pub ghost struct PatchV {
    pub name: Option<Seq<char>>,
    pub due_text: Option<Seq<char>>,
    pub difficulty: Option<u8>,
    pub progress: Option<u8>,
    pub tags: Option<Seq<Seq<char>>>,
    pub milestones: Option<Seq<(u8, Seq<char>)>>,
    pub deleted: Option<bool>,
}

impl View for HomeworkRecord {
    type V = RecordV;

    open spec fn view(&self) -> RecordV {
        RecordV {
            uid: self.uid@,
            name: self.name@,
            due_text: self.due_text@,
            difficulty: self.difficulty,
            progress: self.progress,
            tags: self.tags.deep_view(),
            milestones: self.milestones.deep_view(),
            deleted: self.deleted,
            created_at: self.created_at,
            updated_at: self.updated_at,
            schema_version: self.schema_version,
        }
    }
}

impl DeepView for HomeworkRecord {
    type V = RecordV;

    open spec fn deep_view(&self) -> RecordV {
        self.view()
    }
}

impl View for NewHomework {
    type V = NewHomeworkV;

    open spec fn view(&self) -> NewHomeworkV {
        NewHomeworkV {
            name: self.name@,
            due_text: self.due_text@,
            difficulty: self.difficulty,
            progress: self.progress,
            tags: self.tags.deep_view(),
            milestones: self.milestones.deep_view(),
        }
    }
}

impl View for Patch {
    type V = PatchV;

    open spec fn view(&self) -> PatchV {
        PatchV {
            name: self.name.deep_view(),
            due_text: self.due_text.deep_view(),
            difficulty: self.difficulty,
            progress: self.progress,
            tags: self.tags.deep_view(),
            milestones: self.milestones.deep_view(),
            deleted: self.deleted,
        }
    }
}

/// The record a backend makes for a creation payload: fields taken from the
/// payload, both timestamps set to the creation moment, not deleted, schema
/// stamp 1.
pub open spec fn new_record(p: NewHomeworkV, uid: Seq<char>, now: i64) -> RecordV {
    RecordV {
        uid: uid,
        name: p.name,
        due_text: p.due_text,
        difficulty: p.difficulty,
        progress: p.progress,
        tags: p.tags,
        milestones: p.milestones,
        deleted: false,
        created_at: now,
        updated_at: now,
        schema_version: 1,
    }
}

/// The merge rule for a partial update: each present field replaces the
/// record's field, each absent one is left untouched; the update moment is
/// always refreshed; uid, creation moment and schema stamp never change.
pub open spec fn apply_patch_spec(r: RecordV, p: PatchV, now: i64) -> RecordV {
    RecordV {
        uid: r.uid,
        name: match p.name {
            Some(v) => v,
            None => r.name,
        },
        due_text: match p.due_text {
            Some(v) => v,
            None => r.due_text,
        },
        difficulty: match p.difficulty {
            Some(v) => v,
            None => r.difficulty,
        },
        progress: match p.progress {
            Some(v) => v,
            None => r.progress,
        },
        tags: match p.tags {
            Some(v) => v,
            None => r.tags,
        },
        milestones: match p.milestones {
            Some(v) => v,
            None => r.milestones,
        },
        deleted: match p.deleted {
            Some(v) => v,
            None => r.deleted,
        },
        created_at: r.created_at,
        updated_at: now,
        schema_version: r.schema_version,
    }
}

impl HomeworkRecord {
    /// Merges a partial update into this record and refreshes the update
    /// moment, even when no field was present.
    pub fn apply_patch(&mut self, patch: Patch, now_ts: i64)
        ensures
            final(self)@ == apply_patch_spec(old(self)@, patch@, now_ts),
    {
        if let Some(v) = patch.name {
            self.name = v;
        }
        if let Some(v) = patch.due_text {
            self.due_text = v;
        }
        if let Some(v) = patch.difficulty {
            self.difficulty = v;
        }
        if let Some(v) = patch.progress {
            self.progress = v;
        }
        if let Some(v) = patch.tags {
            self.tags = v;
        }
        if let Some(v) = patch.milestones {
            self.milestones = v;
        }
        if let Some(v) = patch.deleted {
            self.deleted = v;
        }
        self.updated_at = now_ts;
        assert(final(self)@ =~= apply_patch_spec(old(self)@, patch@, now_ts));
    }

    /// Builds the record for a creation payload.
    pub fn from_payload(payload: NewHomework, uid: String, now: i64) -> (r: HomeworkRecord)
        ensures
            r@ == new_record(payload@, uid@, now),
    {
        let r = HomeworkRecord {
            uid,
            name: payload.name,
            due_text: payload.due_text,
            difficulty: payload.difficulty,
            progress: payload.progress,
            tags: payload.tags,
            milestones: payload.milestones,
            deleted: false,
            created_at: now,
            updated_at: now,
            schema_version: 1,
        };
        assert(r@ =~= new_record(payload@, uid@, now));
        r
    }
}

/// Clones a vector of strings, keeping its contents.
pub fn clone_vec_str(v: &Vec<String>) -> (r: Vec<String>)
    ensures
        r.deep_view() == v.deep_view(),
{
    let mut r: Vec<String> = Vec::new();
    let mut i: usize = 0;
    assert(r.deep_view() =~= v.deep_view().take(0));
    while i < v.len()
        invariant
            i <= v.len(),
            r@.len() == i,
            r.deep_view() == v.deep_view().take(i as int),
        decreases v.len() - i,
    {
        let s = v[i].clone();
        assert(s@ == v@[i as int]@);
        r.push(s);
        assert(r@.len() == i + 1);
        assert(r.deep_view()[i as int] == v.deep_view()[i as int]);
        assert(r.deep_view() =~= v.deep_view().take(i as int + 1));
        i = i + 1;
    }
    assert(v.deep_view().take(v.len() as int) =~= v.deep_view());
    r
}

/// Clones a vector of milestones, keeping its contents.
pub fn clone_milestones(v: &Vec<(u8, String)>) -> (r: Vec<(u8, String)>)
    ensures
        r.deep_view() == v.deep_view(),
{
    let mut r: Vec<(u8, String)> = Vec::new();
    let mut i: usize = 0;
    assert(r.deep_view() =~= v.deep_view().take(0));
    while i < v.len()
        invariant
            i <= v.len(),
            r@.len() == i,
            r.deep_view() == v.deep_view().take(i as int),
        decreases v.len() - i,
    {
        let m = (v[i].0, v[i].1.clone());
        assert(m.deep_view() == v@[i as int].deep_view());
        r.push(m);
        assert(r@.len() == i + 1);
        assert(r.deep_view()[i as int] == v.deep_view()[i as int]);
        assert(r.deep_view() =~= v.deep_view().take(i as int + 1));
        i = i + 1;
    }
    assert(v.deep_view().take(v.len() as int) =~= v.deep_view());
    r
}

impl Clone for HomeworkRecord {
    /// A clone keeps every field's contents.
    fn clone(&self) -> (r: Self)
        ensures
            r@ == self@,
    {
        let r = HomeworkRecord {
            uid: self.uid.clone(),
            name: self.name.clone(),
            due_text: self.due_text.clone(),
            difficulty: self.difficulty,
            progress: self.progress,
            tags: clone_vec_str(&self.tags),
            milestones: clone_milestones(&self.milestones),
            deleted: self.deleted,
            created_at: self.created_at,
            updated_at: self.updated_at,
            schema_version: self.schema_version,
        };
        assert(r@ =~= self@);
        r
    }
}

/// Whether two string vectors hold the same strings in the same order.
pub fn vec_str_eq(a: &Vec<String>, b: &Vec<String>) -> (r: bool)
    ensures
        r == (a.deep_view() == b.deep_view()),
{
    if a.len() != b.len() {
        assert(a.deep_view().len() == a@.len());
        assert(b.deep_view().len() == b@.len());
        return false;
    }
    let mut i: usize = 0;
    while i < a.len()
        invariant
            i <= a.len(),
            a@.len() == b@.len(),
            forall|j: int| 0 <= j < i ==> a.deep_view()[j] == b.deep_view()[j],
        decreases a.len() - i,
    {
        if !a[i].eq(&b[i]) {
            assert(a.deep_view()[i as int] != b.deep_view()[i as int]);
            return false;
        }
        i = i + 1;
    }
    assert(a.deep_view() =~= b.deep_view());
    true
}

/// Whether two milestone vectors hold the same entries in the same order.
pub fn vec_milestones_eq(a: &Vec<(u8, String)>, b: &Vec<(u8, String)>) -> (r: bool)
    ensures
        r == (a.deep_view() == b.deep_view()),
{
    if a.len() != b.len() {
        assert(a.deep_view().len() == a@.len());
        assert(b.deep_view().len() == b@.len());
        return false;
    }
    let mut i: usize = 0;
    while i < a.len()
        invariant
            i <= a.len(),
            a@.len() == b@.len(),
            forall|j: int| 0 <= j < i ==> a.deep_view()[j] == b.deep_view()[j],
        decreases a.len() - i,
    {
        if a[i].0 != b[i].0 || !a[i].1.eq(&b[i].1) {
            assert(a.deep_view()[i as int] != b.deep_view()[i as int]);
            return false;
        }
        i = i + 1;
    }
    assert(a.deep_view() =~= b.deep_view());
    true
}

impl PartialEq for HomeworkRecord {
    /// Records are equal when every field's contents are equal.
    fn eq(&self, other: &Self) -> (r: bool) {
        let r = self.uid.eq(&other.uid) && self.name.eq(&other.name) && self.due_text.eq(
            &other.due_text,
        ) && self.difficulty == other.difficulty && self.progress == other.progress && vec_str_eq(
            &self.tags,
            &other.tags,
        ) && vec_milestones_eq(&self.milestones, &other.milestones) && self.deleted == other.deleted
            && self.created_at == other.created_at && self.updated_at == other.updated_at
            && self.schema_version == other.schema_version;
        proof {
            if r {
                assert(self@ =~= other@);
            }
        }
        r
    }
}

impl vstd::std_specs::cmp::PartialEqSpecImpl for HomeworkRecord {
    open spec fn obeys_eq_spec() -> bool {
        true
    }

    open spec fn eq_spec(&self, other: &Self) -> bool {
        self@ == other@
    }
}

impl Default for Patch {
    /// The empty partial update: no field present.
    fn default() -> (r: Self)
        ensures
            r@ == (PatchV {
                name: None,
                due_text: None,
                difficulty: None,
                progress: None,
                tags: None,
                milestones: None,
                deleted: None,
            }),
    {
        Patch {
            name: None,
            due_text: None,
            difficulty: None,
            progress: None,
            tags: None,
            milestones: None,
            deleted: None,
        }
    }
}

} // verus!
