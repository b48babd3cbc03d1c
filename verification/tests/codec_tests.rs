use deadline_tracker::jsonfile::JsonRepo;
use deadline_tracker::record::{HomeworkRecord, NewHomework};

fn record(uid: &str, name: &str, due: &str) -> HomeworkRecord {
    HomeworkRecord {
        uid: uid.to_string(),
        name: name.to_string(),
        due_text: due.to_string(),
        difficulty: 8,
        progress: 25,
        tags: vec!["school".to_string()],
        milestones: vec![(30, "draft".to_string())],
        deleted: false,
        created_at: 1_700_000_000,
        updated_at: 1_700_000_500,
        schema_version: 1,
    }
}

fn doc_with(records: Vec<HomeworkRecord>) -> JsonRepo {
    let mut doc = JsonRepo::new();
    for r in records {
        let uid = r.uid.clone();
        let created = r.created_at;
        doc.create_at(
            NewHomework {
                name: r.name.clone(),
                due_text: r.due_text.clone(),
                difficulty: r.difficulty,
                progress: r.progress,
                tags: r.tags.clone(),
                milestones: r.milestones.clone(),
            },
            uid,
            created,
        )
        .unwrap();
    }
    doc
}

#[test]
fn document_round_trip() {
    let doc = doc_with(vec![
        record("uid-1", "first", "2025-01-05 09:00"),
        record("uid-2", "second", "2025-01-10 09:00"),
    ]);
    let text = doc.to_text();
    let reloaded = JsonRepo::from_text(&text);
    assert_eq!(reloaded.to_text(), text);
    let a = reloaded.get("uid-1").unwrap().unwrap();
    assert_eq!(a.name, "first");
    assert_eq!(a.tags, vec!["school".to_string()]);
    assert_eq!(a.milestones, vec![(30, "draft".to_string())]);
    let listed = reloaded.list().unwrap();
    assert_eq!(listed.len(), 2);
}

#[test]
fn empty_document_round_trip() {
    let doc = JsonRepo::new();
    let text = doc.to_text();
    assert_eq!(text, "[]");
    let reloaded = JsonRepo::from_text(&text);
    assert!(reloaded.list().unwrap().is_empty());
}

#[test]
fn awkward_text_round_trips() {
    // Quotes, backslashes, control characters and non-ASCII text all
    // survive the trip through the file format.
    let mut doc = JsonRepo::new();
    doc.create_at(
        NewHomework {
            name: "say \"hi\" \\ twice\nplease\tnow \u{1F600} é".to_string(),
            due_text: "2025-01-05 09:00".to_string(),
            difficulty: 1,
            progress: 0,
            tags: vec!["a,b".to_string(), "[]{}".to_string(), "".to_string()],
            milestones: vec![(0, "st\"art".to_string()), (255, "\u{0001}end".to_string())],
        },
        "uid-x".to_string(),
        -42,
    )
    .unwrap();
    let text = doc.to_text();
    let reloaded = JsonRepo::from_text(&text);
    let got = reloaded.get("uid-x").unwrap().unwrap();
    assert_eq!(got.name, "say \"hi\" \\ twice\nplease\tnow \u{1F600} é");
    assert_eq!(got.tags, vec!["a,b".to_string(), "[]{}".to_string(), "".to_string()]);
    assert_eq!(got.milestones, vec![(0, "st\"art".to_string()), (255, "\u{0001}end".to_string())]);
    assert_eq!(got.created_at, -42);
}

#[test]
fn parse_failure_degrades_to_empty() {
    let garbled = JsonRepo::from_text("this is not the format");
    assert!(garbled.list().unwrap().is_empty());
    let truncated = JsonRepo::from_text("[{\"uid\":\"a\"");
    assert!(truncated.list().unwrap().is_empty());
    let trailing = JsonRepo::from_text("[] trailing");
    assert!(trailing.list().unwrap().is_empty());
}

#[test]
fn emitted_text_is_real_json() {
    // An independent reader agrees about the emitted document.
    let doc = doc_with(vec![record("uid-1", "name with \"quotes\"", "2025-01-05 09:00")]);
    let text = doc.to_text();
    let value: serde_json::Value = serde_json::from_str(&text).unwrap();
    let arr = value.as_array().unwrap();
    assert_eq!(arr.len(), 1);
    let obj = &arr[0];
    assert_eq!(obj["uid"], "uid-1");
    assert_eq!(obj["name"], "name with \"quotes\"");
    assert_eq!(obj["due_text"], "2025-01-05 09:00");
    assert_eq!(obj["difficulty"], 8);
    assert_eq!(obj["progress"], 25);
    assert_eq!(obj["tags"][0], "school");
    assert_eq!(obj["milestones"][0][0], 30);
    assert_eq!(obj["milestones"][0][1], "draft");
    assert_eq!(obj["deleted"], false);
    assert_eq!(obj["created_at"], 1_700_000_000i64);
    assert_eq!(obj["schema_version"], 1);
}

#[test]
fn number_edges_round_trip() {
    let mut doc = JsonRepo::new();
    doc.create_at(
        NewHomework {
            name: "edges".to_string(),
            due_text: "2025-01-05 09:00".to_string(),
            difficulty: 10,
            progress: 100,
            tags: vec![],
            milestones: vec![],
        },
        "uid-edge".to_string(),
        i64::MIN,
    )
    .unwrap();
    let mut rec = doc.get("uid-edge").unwrap().unwrap();
    rec.created_at = i64::MIN;
    rec.updated_at = i64::MAX;
    rec.schema_version = u16::MAX;
    doc.update_at(rec, i64::MAX).unwrap();
    let text = doc.to_text();
    let reloaded = JsonRepo::from_text(&text);
    let got = reloaded.get("uid-edge").unwrap().unwrap();
    assert_eq!(got.created_at, i64::MIN);
    assert_eq!(got.updated_at, i64::MAX);
    assert_eq!(got.schema_version, u16::MAX);
}
