use deadline_tracker::jsonfile::JsonRepo;
use deadline_tracker::memory::MemoryRepo;
use deadline_tracker::record::{NewHomework, Patch};
use deadline_tracker::repo::{init_repo, HomeworkRepo, Repo, RepoError};
use deadline_tracker::sqlite::SQLiteRepo;

fn payload(name: &str, due: &str) -> NewHomework {
    NewHomework {
        name: name.to_string(),
        due_text: due.to_string(),
        difficulty: 5,
        progress: 10,
        tags: vec!["school".to_string(), "math".to_string()],
        milestones: vec![(50, "half".to_string()), (100, "done".to_string())],
    }
}

#[test]
fn create_assigns_uid_and_timestamps() {
    let mut repo = MemoryRepo::new();
    let a = repo.create(payload("a", "2025-01-10 09:00")).unwrap();
    let b = repo.create(payload("b", "2025-01-11 09:00")).unwrap();
    assert!(!a.uid.is_empty());
    assert!(!b.uid.is_empty());
    assert_ne!(a.uid, b.uid);
    assert_eq!(a.created_at, a.updated_at);
    assert_eq!(b.created_at, b.updated_at);
    assert!(!a.deleted);
    assert_eq!(a.schema_version, 1);
}

#[test]
fn create_then_get_returns_payload_fields() {
    let mut repo = MemoryRepo::new();
    let rec = repo.create(payload("essay", "2025-02-01 12:30")).unwrap();
    let got = repo.get(&rec.uid).unwrap().unwrap();
    assert_eq!(got.name, "essay");
    assert_eq!(got.due_text, "2025-02-01 12:30");
    assert_eq!(got.difficulty, 5);
    assert_eq!(got.progress, 10);
    assert_eq!(got.tags, vec!["school".to_string(), "math".to_string()]);
    assert_eq!(got.milestones, vec![(50, "half".to_string()), (100, "done".to_string())]);
    assert!(!got.deleted);
    assert_eq!(got.schema_version, 1);
    assert_eq!(got, rec);
}

#[test]
fn get_unknown_uid_is_none() {
    let repo = MemoryRepo::new();
    assert!(repo.get("01ARZ3NDEKTSV4RRFFQ69G5FAV").unwrap().is_none());
}

#[test]
fn delete_hides_from_list_but_not_get() {
    let mut repo = MemoryRepo::new();
    let a = repo.create(payload("a", "2025-01-10 09:00")).unwrap();
    let b = repo.create(payload("b", "2025-01-11 09:00")).unwrap();
    repo.delete(&a.uid).unwrap();
    let listed = repo.list().unwrap();
    assert_eq!(listed.len(), 1);
    assert_eq!(listed[0].uid, b.uid);
    let fetched = repo.get(&a.uid).unwrap().unwrap();
    assert!(fetched.deleted);
    assert_eq!(fetched.name, "a");
    // A second delete still succeeds.
    repo.delete(&a.uid).unwrap();
}

#[test]
fn delete_unknown_uid_is_not_found() {
    let mut repo = MemoryRepo::new();
    assert_eq!(repo.delete("nosuchuid"), Err(RepoError::NotFound));
}

#[test]
fn patch_changes_only_present_fields() {
    let mut repo = MemoryRepo::new();
    let rec = repo
        .create_at(payload("a", "2025-01-10 09:00"), "uid-a".to_string(), 1_000)
        .unwrap();
    let partial = Patch { progress: Some(80), ..Patch::default() };
    let merged = repo.patch_at(&rec.uid, partial, 1_005).unwrap();
    assert_eq!(merged.progress, 80);
    assert_eq!(merged.name, "a");
    assert_eq!(merged.due_text, "2025-01-10 09:00");
    assert_eq!(merged.difficulty, 5);
    assert_eq!(merged.tags, rec.tags);
    assert_eq!(merged.milestones, rec.milestones);
    assert_eq!(merged.created_at, 1_000);
    assert_eq!(merged.updated_at, 1_005);
    assert!(merged.updated_at > rec.updated_at);
    // An empty patch still refreshes the update moment.
    let unchanged = repo.patch_at(&rec.uid, Patch::default(), 1_010).unwrap();
    assert_eq!(unchanged.progress, 80);
    assert_eq!(unchanged.updated_at, 1_010);
}

#[test]
fn patch_unknown_uid_leaves_store_unchanged() {
    let mut repo = JsonRepo::new();
    repo.create_at(payload("a", "2025-01-10 09:00"), "uid-a".to_string(), 1_000)
        .unwrap();
    let before = repo.to_text();
    let r = repo.patch("nosuchuid", Patch { progress: Some(1), ..Patch::default() });
    assert_eq!(r, Err(RepoError::NotFound));
    assert_eq!(repo.to_text(), before);
}

#[test]
fn update_replaces_fields_and_refreshes_moment() {
    let mut repo = MemoryRepo::new();
    let rec = repo
        .create_at(payload("a", "2025-01-10 09:00"), "uid-a".to_string(), 1_000)
        .unwrap();
    let mut changed = rec.clone();
    changed.name = "renamed".to_string();
    changed.progress = 99;
    changed.updated_at = 0; // the caller-supplied moment is overwritten
    let stored = repo.update_at(changed, 2_000).unwrap();
    assert_eq!(stored.name, "renamed");
    assert_eq!(stored.progress, 99);
    assert_eq!(stored.updated_at, 2_000);
    let got = repo.get("uid-a").unwrap().unwrap();
    assert_eq!(got, stored);
}

#[test]
fn update_unknown_uid_is_not_found() {
    let mut repo = MemoryRepo::new();
    let mut rec = repo
        .create_at(payload("a", "2025-01-10 09:00"), "uid-a".to_string(), 1_000)
        .unwrap();
    rec.uid = "other".to_string();
    assert!(matches!(repo.update(rec), Err(RepoError::NotFound)));
}

#[test]
fn list_sorts_ascending_by_due_text() {
    let mut repo = MemoryRepo::new();
    repo.create(payload("late", "2025-01-10 09:00")).unwrap();
    repo.create(payload("early", "2025-01-05 09:00")).unwrap();
    let listed = repo.list().unwrap();
    assert_eq!(listed.len(), 2);
    assert_eq!(listed[0].due_text, "2025-01-05 09:00");
    assert_eq!(listed[1].due_text, "2025-01-10 09:00");
}

#[test]
fn list_sorted_for_any_insertion_order() {
    let dues = ["2025-03-01 08:00", "2025-01-05 09:00", "2025-02-20 10:00"];
    // Two opposite insertion orders give the same sorted listing.
    let mut forward = MemoryRepo::new();
    for d in dues.iter() {
        forward.create(payload("x", d)).unwrap();
    }
    let mut backward = MemoryRepo::new();
    for d in dues.iter().rev() {
        backward.create(payload("x", d)).unwrap();
    }
    let f: Vec<String> = forward.list().unwrap().into_iter().map(|r| r.due_text).collect();
    let b: Vec<String> = backward.list().unwrap().into_iter().map(|r| r.due_text).collect();
    let expected = vec![
        "2025-01-05 09:00".to_string(),
        "2025-02-20 10:00".to_string(),
        "2025-03-01 08:00".to_string(),
    ];
    assert_eq!(f, expected);
    assert_eq!(b, expected);
}

fn fresh_db_path() -> String {
    format!("/tmp/deadline_tracker_{}.db", ulid::Ulid::generate())
}

#[test]
fn sqlite_backend_full_cycle() {
    let path = fresh_db_path();
    let mut repo = SQLiteRepo::new(&path).unwrap();
    let a = repo.create(payload("late", "2025-01-10 09:00")).unwrap();
    let b = repo.create(payload("early", "2025-01-05 09:00")).unwrap();
    let listed = repo.list().unwrap();
    assert_eq!(listed.len(), 2);
    assert_eq!(listed[0].uid, b.uid);
    assert_eq!(listed[1].uid, a.uid);

    let got = repo.get(&a.uid).unwrap().unwrap();
    assert_eq!(got, a);

    let merged = repo
        .patch(&a.uid, Patch { name: Some("renamed".to_string()), ..Patch::default() })
        .unwrap();
    assert_eq!(merged.name, "renamed");
    assert_eq!(merged.progress, a.progress);

    repo.delete(&b.uid).unwrap();
    let listed = repo.list().unwrap();
    assert_eq!(listed.len(), 1);
    assert_eq!(listed[0].uid, a.uid);
    let gone = repo.get(&b.uid).unwrap().unwrap();
    assert!(gone.deleted);

    assert!(matches!(repo.patch("nosuchuid", Patch::default()), Err(RepoError::NotFound)));
    assert!(matches!(repo.delete("nosuchuid"), Err(RepoError::NotFound)));

    // The store is durable: a new connection to the same file sees the data.
    let reopened = SQLiteRepo::new(&path).unwrap();
    let again = reopened.get(&a.uid).unwrap().unwrap();
    assert_eq!(again.name, "renamed");
}

#[test]
fn sqlite_patch_on_missing_uid_changes_no_row() {
    let path = fresh_db_path();
    let mut repo = SQLiteRepo::new(&path).unwrap();
    let a = repo.create(payload("a", "2025-01-10 09:00")).unwrap();
    let before = repo.list().unwrap();
    let r = repo.patch("nosuchuid", Patch { progress: Some(1), ..Patch::default() });
    assert!(matches!(r, Err(RepoError::NotFound)));
    let after = repo.list().unwrap();
    assert_eq!(before, after);
    assert_eq!(repo.get(&a.uid).unwrap().unwrap(), a);
}

#[test]
fn factory_selects_backend() {
    let repo = init_repo(None).unwrap();
    assert!(matches!(repo, Repo::Memory(_)));
    let repo = init_repo(Some("/tmp")).unwrap();
    assert!(matches!(repo, Repo::Sqlite(_)));
}

#[test]
fn contract_holds_through_the_interface() {
    // The same calls through the polymorphic contract, on the factory's
    // volatile pick.
    let mut repo = init_repo(None).unwrap();
    let rec = repo.create(payload("via trait", "2025-04-01 10:00")).unwrap();
    let got = repo.get(&rec.uid).unwrap().unwrap();
    assert_eq!(got, rec);
    repo.delete(&rec.uid).unwrap();
    assert!(repo.list().unwrap().is_empty());
    assert!(repo.get(&rec.uid).unwrap().unwrap().deleted);
}

#[test]
fn error_messages() {
    assert_eq!(RepoError::NotFound.message(), "not found");
    assert_eq!(RepoError::Sql("boom".to_string()).message(), "sqlite error: boom");
    assert_eq!(
        RepoError::Unavailable("no disk".to_string()).message(),
        "unavailable: no disk"
    );
    assert_eq!(RepoError::Serde("bad".to_string()).message(), "serialization error: bad");
    assert_eq!(RepoError::Unknown("what".to_string()).message(), "unknown: what");
}

#[test]
fn uid_tokens_are_26_characters() {
    let mut repo = MemoryRepo::new();
    let rec = repo.create(payload("a", "2025-01-10 09:00")).unwrap();
    assert_eq!(rec.uid.chars().count(), 26);
}

#[test]
fn memory_duplicate_uid_is_refused() {
    let mut repo = MemoryRepo::new();
    repo.create_at(payload("a", "2025-01-10 09:00"), "same-uid".to_string(), 1_000)
        .unwrap();
    let second = repo.create_at(payload("b", "2025-01-11 09:00"), "same-uid".to_string(), 1_001);
    assert!(matches!(second, Err(RepoError::Unknown(_))));
    // The collision left the store unchanged.
    assert_eq!(repo.get("same-uid").unwrap().unwrap().name, "a");
}

#[test]
fn sqlite_duplicate_uid_is_an_sql_error() {
    let path = fresh_db_path();
    let mut repo = SQLiteRepo::new(&path).unwrap();
    repo.create_at(payload("a", "2025-01-10 09:00"), "same-uid".to_string(), 1_000)
        .unwrap();
    let second = repo.create_at(payload("b", "2025-01-11 09:00"), "same-uid".to_string(), 1_001);
    assert!(matches!(second, Err(RepoError::Sql(_))));
    assert_eq!(repo.get("same-uid").unwrap().unwrap().name, "a");
}

#[test]
fn unreachable_database_is_unavailable() {
    let r = SQLiteRepo::new("/no_such_directory_anywhere/deadlines.db");
    assert!(matches!(r, Err(RepoError::Unavailable(_))));
}

#[test]
fn out_of_range_stored_row_is_a_serde_error() {
    // A row written past the library, with a difficulty no record can hold.
    let path = fresh_db_path();
    {
        let repo = SQLiteRepo::new(&path).unwrap();
        let _ = repo;
    }
    let conn = rusqlite::Connection::open(&path).unwrap();
    conn.execute(
        "INSERT INTO homeworks (uid,name,due_text,difficulty,progress,tags_json,milestones_json,deleted,created_at,updated_at,schema_version) VALUES ('bad-row','x','2025-01-01 00:00',999,0,'[]','[]',0,0,0,1)",
        (),
    )
    .unwrap();
    drop(conn);
    let repo = SQLiteRepo::new(&path).unwrap();
    let r = repo.get("bad-row");
    assert!(matches!(r, Err(RepoError::Serde(_))));
}

#[test]
fn garbled_stored_tags_degrade_to_empty() {
    // A tags column written past the library that is not the array text.
    let path = fresh_db_path();
    {
        let repo = SQLiteRepo::new(&path).unwrap();
        let _ = repo;
    }
    let conn = rusqlite::Connection::open(&path).unwrap();
    conn.execute(
        "INSERT INTO homeworks (uid,name,due_text,difficulty,progress,tags_json,milestones_json,deleted,created_at,updated_at,schema_version) VALUES ('odd-row','x','2025-01-01 00:00',5,0,'not an array','[]',0,0,0,1)",
        (),
    )
    .unwrap();
    drop(conn);
    let repo = SQLiteRepo::new(&path).unwrap();
    let rec = repo.get("odd-row").unwrap().unwrap();
    assert!(rec.tags.is_empty());
}
