//! The durable backend: one indexed table in an embedded SQL database.
//!
//! The database engine is outside what can be verified, so every call into
//! it stands behind a trusted wrapper whose contract states, over the named
//! table contents, what the engine's documentation and source show. The
//! logic around the calls — building rows, merging partial updates, turning
//! rows back into records — is verified.

use vstd::prelude::*;

use rusqlite::OptionalExtension;

use crate::clock::now_timestamp;
use crate::codec::{
    enc_milestones, enc_tags, milestones_from_text, milestones_to_text, parse_milestones_text,
    parse_tags_text, tags_from_text, tags_to_text,
};
use crate::ids::new_uid;
use crate::record::{
    apply_patch_spec, new_record, HomeworkRecord, NewHomework, Patch, RecordV,
};
use crate::repo::RepoError;
use crate::store::{
    listing_ok, spec_create, spec_delete, spec_get, spec_patch, spec_update, spec_update_rec,
    StoreModel,
};
use crate::text::lex_le;

verus! {

#[verifier::external_type_specification]
#[verifier::external_body]
pub struct ExConnection(rusqlite::Connection);

/// One row of the table, with the two serialized-text columns still as
/// text.
pub struct SqlRow {
    pub uid: String,
    pub name: String,
    pub due_text: String,
    pub difficulty: i64,
    pub progress: i64,
    pub tags_json: String,
    pub milestones_json: String,
    pub deleted: i64,
    pub created_at: i64,
    pub updated_at: i64,
    pub schema_version: i64,
}

/// The mathematical shape of one row.
#[verifier::ext_equal]
pub ghost struct RowV {
    pub uid: Seq<char>,
    pub name: Seq<char>,
    pub due_text: Seq<char>,
    pub difficulty: i64,
    pub progress: i64,
    pub tags_json: Seq<char>,
    pub milestones_json: Seq<char>,
    pub deleted: i64,
    pub created_at: i64,
    pub updated_at: i64,
    pub schema_version: i64,
}

impl View for SqlRow {
    type V = RowV;

    open spec fn view(&self) -> RowV {
        RowV {
            uid: self.uid@,
            name: self.name@,
            due_text: self.due_text@,
            difficulty: self.difficulty,
            progress: self.progress,
            tags_json: self.tags_json@,
            milestones_json: self.milestones_json@,
            deleted: self.deleted,
            created_at: self.created_at,
            updated_at: self.updated_at,
            schema_version: self.schema_version,
        }
    }
}

/// The contents of the connection's `homeworks` table, keyed by uid; the
/// empty map while the table does not exist.
pub uninterp spec fn table_of(conn: rusqlite::Connection) -> Map<Seq<char>, RowV>;

/// The row a record is stored as: scalar fields one to one, tags and
/// milestones as their array text.
pub open spec fn row_of(r: RecordV) -> RowV {
    RowV {
        uid: r.uid,
        name: r.name,
        due_text: r.due_text,
        difficulty: r.difficulty as i64,
        progress: r.progress as i64,
        tags_json: enc_tags(r.tags),
        milestones_json: enc_milestones(r.milestones),
        deleted: if r.deleted {
            1
        } else {
            0
        },
        created_at: r.created_at,
        updated_at: r.updated_at,
        schema_version: r.schema_version as i64,
    }
}

/// The record a row reads back as: a scalar out of its field's range
/// refuses the row; an array text that does not parse degrades to the empty
/// array, the same availability choice the flat file makes.
pub open spec fn rec_of(row: RowV) -> Option<RecordV> {
    if 0 <= row.difficulty <= 255 && 0 <= row.progress <= 255 && 0 <= row.schema_version <= 65535 {
        Some(
            RecordV {
                uid: row.uid,
                name: row.name,
                due_text: row.due_text,
                difficulty: row.difficulty as u8,
                progress: row.progress as u8,
                tags: match parse_tags_text(row.tags_json) {
                    Some(ts) => ts,
                    None => Seq::empty(),
                },
                milestones: match parse_milestones_text(row.milestones_json) {
                    Some(ms) => ms,
                    None => Seq::empty(),
                },
                deleted: row.deleted != 0,
                created_at: row.created_at,
                updated_at: row.updated_at,
                schema_version: row.schema_version as u16,
            },
        )
    } else {
        None
    }
}

/// A stored record reads back as itself.
pub proof fn lemma_row_round_trip(r: RecordV)
    ensures
        rec_of(row_of(r)) == Some(r),
{
    crate::codec::lemma_tags_text_round_trip(r.tags);
    crate::codec::lemma_milestones_text_round_trip(r.milestones);
    assert(rec_of(row_of(r))->Some_0 =~= r);
}

/// The record-level model of a table: every row that reads back as a
/// record, under its uid.
pub open spec fn sql_model(t: Map<Seq<char>, RowV>) -> StoreModel {
    Map::new(
        |k: Seq<char>| t.contains_key(k) && rec_of(t[k]) is Some,
        |k: Seq<char>| rec_of(t[k])->Some_0,
    )
}

/// Storing a record's row under its uid is a record-level insert.
pub proof fn lemma_model_insert(t: Map<Seq<char>, RowV>, k: Seq<char>, row: RowV, r: RecordV)
    requires
        rec_of(row) == Some(r),
    ensures
        sql_model(t.insert(k, row)) == sql_model(t).insert(k, r),
{
    assert(sql_model(t.insert(k, row)) =~= sql_model(t).insert(k, r));
}

/// Opens (creating if missing) the database file.
///
/// Relies on `rusqlite::Connection::open`, which opens or creates the file,
/// and `Connection::pragma_update` for best-effort write-ahead logging.
/// What the opened table holds depends on the file on disk, so nothing is
/// promised about the contents.
#[verifier::external_body]
fn open_db(path: &str) -> (r: Result<rusqlite::Connection, String>) {
    let conn = rusqlite::Connection::open(path).map_err(|e| e.to_string())?;
    let _ = conn.pragma_update(None, "journal_mode", "WAL");
    let _ = conn.pragma_update(None, "foreign_keys", "ON");
    Ok(conn)
}

/// Creates the table and its indexes if they are missing.
///
/// Relies on `rusqlite::Connection::execute_batch` and SQL `CREATE TABLE IF
/// NOT EXISTS` / `CREATE INDEX IF NOT EXISTS`: creating a missing table
/// leaves it empty and an existing one untouched, so the contents are kept
/// either way.
#[verifier::external_body]
fn sql_init_schema(conn: &mut rusqlite::Connection) -> (r: Result<(), String>)
    ensures
        table_of(*final(conn)) == table_of(*old(conn)),
{
    conn.execute_batch(
        "CREATE TABLE IF NOT EXISTS homeworks (
            uid TEXT PRIMARY KEY,
            name TEXT NOT NULL,
            due_text TEXT NOT NULL,
            difficulty INTEGER NOT NULL,
            progress INTEGER NOT NULL,
            tags_json TEXT NOT NULL,
            milestones_json TEXT NOT NULL,
            deleted INTEGER NOT NULL DEFAULT 0,
            created_at INTEGER NOT NULL,
            updated_at INTEGER NOT NULL,
            schema_version INTEGER NOT NULL DEFAULT 1
        );
        CREATE INDEX IF NOT EXISTS idx_homeworks_due_text ON homeworks(due_text);
        CREATE INDEX IF NOT EXISTS idx_homeworks_updated_at ON homeworks(updated_at);
        CREATE INDEX IF NOT EXISTS idx_homeworks_deleted ON homeworks(deleted);",
    ).map_err(|e| e.to_string())
}

/// Inserts one row inside a transaction.
///
/// Relies on `Connection::transaction`, `Transaction::execute` with an SQL
/// `INSERT`, and `Transaction::commit`: the uid column is the primary key,
/// so the insert succeeds only if the uid was absent, and then adds exactly
/// this row; on any failure the transaction is rolled back when dropped and
/// the table is unchanged.
#[verifier::external_body]
fn sql_insert(conn: &mut rusqlite::Connection, row: &SqlRow) -> (r: Result<(), String>)
    ensures
        match r {
            Ok(_) => !table_of(*old(conn)).contains_key(row@.uid) && table_of(*final(conn))
                == table_of(*old(conn)).insert(row@.uid, row@),
            Err(_) => table_of(*final(conn)) == table_of(*old(conn)),
        },
{
    let tx = conn.transaction().map_err(|e| e.to_string())?;
    tx.execute(
        "INSERT INTO homeworks (uid,name,due_text,difficulty,progress,tags_json,milestones_json,deleted,created_at,updated_at,schema_version) VALUES (?1,?2,?3,?4,?5,?6,?7,?8,?9,?10,?11)",
        (&row.uid, &row.name, &row.due_text, row.difficulty, row.progress, &row.tags_json,
            &row.milestones_json, row.deleted, row.created_at, row.updated_at, row.schema_version),
    ).map_err(|e| e.to_string())?;
    tx.commit().map_err(|e| e.to_string())
}

/// Replaces every column of the row with the given uid, inside a
/// transaction.
///
/// Relies on `Transaction::execute` with an SQL `UPDATE ... WHERE uid=?`:
/// the uid is the primary key, so the changed-row count is one exactly when
/// the uid is present, and the row then holds exactly these columns; on any
/// failure the transaction is rolled back and the table is unchanged.
#[verifier::external_body]
fn sql_update(conn: &mut rusqlite::Connection, row: &SqlRow) -> (r: Result<bool, String>)
    ensures
        match r {
            Ok(changed) => {
                &&& changed == table_of(*old(conn)).contains_key(row@.uid)
                &&& changed ==> table_of(*final(conn)) == table_of(*old(conn)).insert(
                    row@.uid,
                    row@,
                )
                &&& !changed ==> table_of(*final(conn)) == table_of(*old(conn))
            },
            Err(_) => table_of(*final(conn)) == table_of(*old(conn)),
        },
{
    let tx = conn.transaction().map_err(|e| e.to_string())?;
    let changed = tx.execute(
        "UPDATE homeworks SET name=?2,due_text=?3,difficulty=?4,progress=?5,tags_json=?6,milestones_json=?7,deleted=?8,created_at=?9,updated_at=?10,schema_version=?11 WHERE uid=?1",
        (&row.uid, &row.name, &row.due_text, row.difficulty, row.progress, &row.tags_json,
            &row.milestones_json, row.deleted, row.created_at, row.updated_at, row.schema_version),
    ).map_err(|e| e.to_string())?;
    tx.commit().map_err(|e| e.to_string())?;
    Ok(changed > 0)
}

/// Sets the soft-delete flag and update moment of the row with the given
/// uid, inside a transaction.
///
/// Relies on `Transaction::execute` with an SQL `UPDATE ... SET deleted=1,
/// updated_at=? WHERE uid=?`: the changed-row count is one exactly when the
/// uid is present, and only those two columns change; on any failure the
/// transaction is rolled back and the table is unchanged.
#[verifier::external_body]
fn sql_mark_deleted(conn: &mut rusqlite::Connection, uid: &str, now: i64) -> (r: Result<
    bool,
    String,
>)
    ensures
        match r {
            Ok(changed) => {
                &&& changed == table_of(*old(conn)).contains_key(uid@)
                &&& changed ==> table_of(*final(conn)) == table_of(*old(conn)).insert(
                    uid@,
                    RowV { deleted: 1, updated_at: now, ..table_of(*old(conn))[uid@] },
                )
                &&& !changed ==> table_of(*final(conn)) == table_of(*old(conn))
            },
            Err(_) => table_of(*final(conn)) == table_of(*old(conn)),
        },
{
    let tx = conn.transaction().map_err(|e| e.to_string())?;
    let changed = tx.execute(
        "UPDATE homeworks SET deleted=1, updated_at=?2 WHERE uid=?1",
        (uid, now),
    ).map_err(|e| e.to_string())?;
    tx.commit().map_err(|e| e.to_string())?;
    Ok(changed > 0)
}

/// Reads the row with the given uid, if any.
///
/// Relies on `Connection::prepare`, `Statement::query_row` and
/// `OptionalExtension::optional` with an SQL `SELECT ... WHERE uid=?`: the
/// uid is the primary key, so a row comes back exactly when the uid is
/// present, it is that row, and its uid column is what the clause selected.
#[verifier::external_body]
fn sql_get(conn: &rusqlite::Connection, uid: &str) -> (r: Result<Option<SqlRow>, String>)
    ensures
        match r {
            Ok(o) => {
                &&& o is Some <==> table_of(*conn).contains_key(uid@)
                &&& o is Some ==> o->Some_0@ == table_of(*conn)[uid@] && o->Some_0@.uid == uid@
            },
            Err(_) => true,
        },
{
    let mut stmt = conn.prepare(
        "SELECT uid,name,due_text,difficulty,progress,tags_json,milestones_json,deleted,created_at,updated_at,schema_version FROM homeworks WHERE uid=?1",
    ).map_err(|e| e.to_string())?;
    stmt.query_row((uid,), |row| Ok(SqlRow {
        uid: row.get(0)?, name: row.get(1)?, due_text: row.get(2)?, difficulty: row.get(3)?,
        progress: row.get(4)?, tags_json: row.get(5)?, milestones_json: row.get(6)?,
        deleted: row.get(7)?, created_at: row.get(8)?, updated_at: row.get(9)?,
        schema_version: row.get(10)?,
    })).optional().map_err(|e| e.to_string())
}

/// Reads every row not soft-deleted, sorted ascending by due-date text.
///
/// Relies on `Statement::query_map` with an SQL `SELECT ... WHERE deleted=0
/// ORDER BY due_text ASC`: the result holds exactly the rows with a zero
/// deleted flag, each once (the uid is the primary key), ordered by the
/// due-date text under the default binary collation, which on this UTF-8
/// text is the lexicographic order of its characters.
#[verifier::external_body]
fn sql_select_active(conn: &rusqlite::Connection) -> (r: Result<Vec<SqlRow>, String>)
    ensures
        match r {
            Ok(v) => {
                &&& forall|a: int|
                    0 <= a < v@.len() ==> {
                        &&& table_of(*conn).contains_key((#[trigger] v@[a])@.uid)
                        &&& table_of(*conn)[v@[a]@.uid] == v@[a]@
                        &&& v@[a]@.deleted == 0
                    }
                &&& forall|a: int, b: int|
                    0 <= a < b < v@.len() ==> lex_le(
                        (#[trigger] v@[a])@.due_text,
                        (#[trigger] v@[b])@.due_text,
                    )
                &&& forall|a: int, b: int|
                    0 <= a < b < v@.len() ==> (#[trigger] v@[a])@.uid != (#[trigger] v@[b])@.uid
                &&& forall|k: Seq<char>|
                    #[trigger] table_of(*conn).contains_key(k) && table_of(*conn)[k].deleted == 0
                        ==> exists|a: int| 0 <= a < v@.len() && (#[trigger] v@[a])@.uid == k
            },
            Err(_) => true,
        },
{
    let mut stmt = conn.prepare(
        "SELECT uid,name,due_text,difficulty,progress,tags_json,milestones_json,deleted,created_at,updated_at,schema_version FROM homeworks WHERE deleted=0 ORDER BY due_text ASC",
    ).map_err(|e| e.to_string())?;
    let rows = stmt.query_map((), |row| Ok(SqlRow {
        uid: row.get(0)?, name: row.get(1)?, due_text: row.get(2)?, difficulty: row.get(3)?,
        progress: row.get(4)?, tags_json: row.get(5)?, milestones_json: row.get(6)?,
        deleted: row.get(7)?, created_at: row.get(8)?, updated_at: row.get(9)?,
        schema_version: row.get(10)?,
    })).map_err(|e| e.to_string())?;
    rows.collect::<rusqlite::Result<Vec<SqlRow>>>().map_err(|e| e.to_string())
}

/// Turns a record into its stored row.
pub fn record_to_row(rec: &HomeworkRecord) -> (row: SqlRow)
    ensures
        row@ == row_of(rec@),
{
    let row = SqlRow {
        uid: rec.uid.clone(),
        name: rec.name.clone(),
        due_text: rec.due_text.clone(),
        difficulty: rec.difficulty as i64,
        progress: rec.progress as i64,
        tags_json: tags_to_text(&rec.tags),
        milestones_json: milestones_to_text(&rec.milestones),
        deleted: if rec.deleted {
            1
        } else {
            0
        },
        created_at: rec.created_at,
        updated_at: rec.updated_at,
        schema_version: rec.schema_version as i64,
    };
    assert(row@ =~= row_of(rec@));
    row
}

/// Turns a stored row back into a record: a scalar out of range is refused
/// as malformed data; an array text that does not parse degrades to the
/// empty array.
pub fn row_to_record(row: &SqlRow) -> (r: Result<HomeworkRecord, RepoError>)
    ensures
        match r {
            Ok(rec) => rec_of(row@) == Some(rec@),
            Err(e) => rec_of(row@) is None && e is Serde,
        },
{
    if !(0 <= row.difficulty && row.difficulty <= 255 && 0 <= row.progress && row.progress <= 255
        && 0 <= row.schema_version && row.schema_version <= 65535) {
        return Err(RepoError::Serde("a stored field is out of range".to_owned()));
    }
    let tags = match tags_from_text(row.tags_json.as_str()) {
        Some(ts) => ts,
        None => {
            let e: Vec<String> = Vec::new();
            assert(e.deep_view() =~= Seq::<Seq<char>>::empty());
            e
        },
    };
    let milestones = match milestones_from_text(row.milestones_json.as_str()) {
        Some(ms) => ms,
        None => {
            let e: Vec<(u8, String)> = Vec::new();
            assert(e.deep_view() =~= Seq::<(u8, Seq<char>)>::empty());
            e
        },
    };
    let rec = HomeworkRecord {
        uid: row.uid.clone(),
        name: row.name.clone(),
        due_text: row.due_text.clone(),
        difficulty: row.difficulty as u8,
        progress: row.progress as u8,
        tags,
        milestones,
        deleted: row.deleted != 0,
        created_at: row.created_at,
        updated_at: row.updated_at,
        schema_version: row.schema_version as u16,
    };
    assert(rec@ =~= rec_of(row@)->Some_0);
    Ok(rec)
}

/// A key of the record-level model is a key of the table.
pub proof fn lemma_model_within_rows(s: SQLiteRepo)
    ensures
        forall|k: Seq<char>| #[trigger] s@.contains_key(k) ==> s.rows().contains_key(k),
{
}

/// The durable backend: one connection to one database file. A caller that
/// shares it across threads guards the whole instance with one lock for
/// each operation's full duration.
pub struct SQLiteRepo {
    conn: rusqlite::Connection,
}

impl View for SQLiteRepo {
    type V = StoreModel;

    /// The record-level abstract store: every stored row that reads back as
    /// a record.
    closed spec fn view(&self) -> StoreModel {
        sql_model(table_of(self.conn))
    }
}

impl SQLiteRepo {
    /// The raw table contents, row level.
    pub closed spec fn rows(&self) -> Map<Seq<char>, RowV> {
        table_of(self.conn)
    }

    /// Opens (creating if missing) the database file at the path and makes
    /// sure the table exists. What the store then holds is whatever the
    /// file held.
    pub fn new(db_path: &str) -> (r: Result<SQLiteRepo, RepoError>)
        ensures
            r is Err ==> r->Err_0 is Unavailable,
    {
        match open_db(db_path) {
            Ok(mut conn) => {
                match sql_init_schema(&mut conn) {
                    Ok(_) => Ok(SQLiteRepo { conn }),
                    Err(m) => Err(RepoError::Unavailable(m)),
                }
            },
            Err(m) => Err(RepoError::Unavailable(m)),
        }
    }

    /// All records not soft-deleted, sorted ascending by due-date text.
    /// Fails with `Sql` when the engine does, and with `Serde` when a
    /// stored row cannot be read back as a record.
    pub fn list(&self) -> (r: Result<Vec<HomeworkRecord>, RepoError>)
        ensures
            r is Ok ==> listing_ok(self@, r->Ok_0.deep_view()),
    {
        let rows = match sql_select_active(&self.conn) {
            Ok(rows) => rows,
            Err(m) => {
                return Err(RepoError::Sql(m));
            },
        };
        let ghost t = table_of(self.conn);
        let mut out: Vec<HomeworkRecord> = Vec::new();
        let mut i: usize = 0;
        while i < rows.len()
            invariant
                i <= rows@.len(),
                out@.len() == i,
                out@.len() == out.deep_view().len(),
                forall|a: int|
                    0 <= a < i ==> rec_of((#[trigger] rows@[a])@) == Some(out.deep_view()[a]),
                forall|a: int| 0 <= a < i ==> (#[trigger] out.deep_view()[a]).uid == rows@[a]@.uid,
                forall|a: int|
                    0 <= a < i ==> (#[trigger] out.deep_view()[a]).due_text == rows@[a]@.due_text,
            decreases rows@.len() - i,
        {
            let rec = match row_to_record(&rows[i]) {
                Ok(rec) => rec,
                Err(e) => {
                    return Err(e);
                },
            };
            out.push(rec);
            i = i + 1;
        }
        proof {
            let dv = out.deep_view();
            let m = self@;
            assert forall|a: int| 0 <= a < dv.len() implies {
                &&& m.contains_key((#[trigger] dv[a]).uid)
                &&& m[dv[a].uid] == dv[a]
                &&& !dv[a].deleted
            } by {
                assert(t.contains_key(rows@[a]@.uid));
                assert(rec_of(t[dv[a].uid]) == Some(dv[a]));
            }
            assert forall|k: Seq<char>|
                #[trigger] m.contains_key(k) && !m[k].deleted implies crate::store::uid_in(
                dv,
                k,
            ) by {
                assert(t.contains_key(k));
                assert(rec_of(t[k]) == Some(m[k]));
                assert(t[k].deleted == 0);
                let a = choose|a: int| 0 <= a < rows@.len() && (#[trigger] rows@[a])@.uid == k;
                assert(dv[a].uid == k);
            }
        }
        Ok(out)
    }

    /// The record under the uid, whatever its deleted flag, or nothing if
    /// no record with that uid has ever existed. Fails with `Sql` when the
    /// engine does, and with `Serde` when the stored row cannot be read
    /// back.
    pub fn get(&self, uid: &str) -> (r: Result<Option<HomeworkRecord>, RepoError>)
        ensures
            match r {
                Ok(o) => match o {
                    Some(rec) => self.rows().contains_key(uid@) && spec_get(self@, uid@) == Some(
                        rec@,
                    ),
                    None => !self.rows().contains_key(uid@) && spec_get(self@, uid@) is None,
                },
                Err(_) => true,
            },
    {
        match sql_get(&self.conn, uid) {
            Ok(Some(row)) => {
                match row_to_record(&row) {
                    Ok(rec) => Ok(Some(rec)),
                    Err(e) => Err(e),
                }
            },
            Ok(None) => Ok(None),
            Err(m) => Err(RepoError::Sql(m)),
        }
    }

    /// Creates a record for the payload under a fresh uid, with both
    /// timestamps set to the creation moment. The primary key makes a
    /// duplicate uid fail as an `Sql` error, changing nothing.
    pub fn create(&mut self, payload: NewHomework) -> (r: Result<HomeworkRecord, RepoError>)
        ensures
            match r {
                Ok(rec) => {
                    &&& !old(self).rows().contains_key(rec@.uid)
                    &&& rec@.uid.len() == 26
                    &&& rec@ == new_record(payload@, rec@.uid, rec@.created_at)
                    &&& final(self)@ == spec_create(
                        old(self)@,
                        payload@,
                        rec@.uid,
                        rec@.created_at,
                    )
                },
                Err(_) => final(self)@ == old(self)@,
            },
    {
        let uid = new_uid();
        let now = now_timestamp();
        self.create_at(payload, uid, now)
    }

    /// Creates the record for the payload under the given uid at the given
    /// moment; a taken uid fails as an `Sql` error, changing nothing.
    pub fn create_at(&mut self, payload: NewHomework, uid: String, now: i64) -> (r: Result<
        HomeworkRecord,
        RepoError,
    >)
        ensures
            match r {
                Ok(rec) => {
                    &&& !old(self).rows().contains_key(uid@)
                    &&& rec@ == new_record(payload@, uid@, now)
                    &&& final(self)@ == spec_create(old(self)@, payload@, uid@, now)
                },
                Err(e) => {
                    &&& e is Sql
                    &&& final(self)@ == old(self)@
                },
            },
    {
        let rec = HomeworkRecord::from_payload(payload, uid, now);
        let row = record_to_row(&rec);
        match sql_insert(&mut self.conn, &row) {
            Ok(_) => {
                proof {
                    lemma_row_round_trip(rec@);
                    lemma_model_insert(table_of(old(self).conn), rec@.uid, row@, rec@);
                }
                Ok(rec)
            },
            Err(m) => Err(RepoError::Sql(m)),
        }
    }

    /// Replaces the record with the argument's uid wholly, stamping a fresh
    /// update moment; `NotFound` exactly when the uid is absent from the
    /// table.
    pub fn update(&mut self, record: HomeworkRecord) -> (r: Result<HomeworkRecord, RepoError>)
        ensures
            match r {
                Ok(rec) => {
                    &&& old(self).rows().contains_key(record@.uid)
                    &&& rec@ == spec_update_rec(record@, rec@.updated_at)
                    &&& final(self)@ == spec_update(old(self)@, record@, rec@.updated_at)
                },
                Err(e) => {
                    &&& e is NotFound ==> !old(self).rows().contains_key(record@.uid)
                    &&& final(self)@ == old(self)@
                },
            },
    {
        let now = now_timestamp();
        self.update_at(record, now)
    }

    /// Replaces the record with the argument's uid wholly, stamping the
    /// given update moment; `NotFound` exactly when the uid is absent from
    /// the table.
    pub fn update_at(&mut self, record: HomeworkRecord, now: i64) -> (r: Result<
        HomeworkRecord,
        RepoError,
    >)
        ensures
            match r {
                Ok(rec) => {
                    &&& old(self).rows().contains_key(record@.uid)
                    &&& rec@ == spec_update_rec(record@, now)
                    &&& final(self)@ == spec_update(old(self)@, record@, now)
                },
                Err(e) => {
                    &&& e is NotFound ==> !old(self).rows().contains_key(record@.uid)
                    &&& final(self)@ == old(self)@
                },
            },
    {
        let ghost orig = record@;
        let mut record = record;
        record.updated_at = now;
        assert(record@ =~= spec_update_rec(orig, now));
        let row = record_to_row(&record);
        match sql_update(&mut self.conn, &row) {
            Ok(true) => {
                proof {
                    lemma_row_round_trip(record@);
                    lemma_model_insert(table_of(old(self).conn), record@.uid, row@, record@);
                }
                Ok(record)
            },
            Ok(false) => Err(RepoError::NotFound),
            Err(m) => Err(RepoError::Sql(m)),
        }
    }

    /// Merges a partial update into the record under the uid, stamping a
    /// fresh update moment; `NotFound` exactly when the uid is absent from
    /// the table.
    pub fn patch(&mut self, uid: &str, patch: Patch) -> (r: Result<HomeworkRecord, RepoError>)
        ensures
            match r {
                Ok(rec) => {
                    &&& old(self)@.contains_key(uid@)
                    &&& rec@ == apply_patch_spec(old(self)@[uid@], patch@, rec@.updated_at)
                    &&& final(self)@ == spec_patch(old(self)@, uid@, patch@, rec@.updated_at)
                },
                Err(e) => {
                    &&& e is NotFound ==> !old(self).rows().contains_key(uid@)
                    &&& final(self)@ == old(self)@
                },
            },
    {
        let now = now_timestamp();
        self.patch_at(uid, patch, now)
    }

    /// Merges a partial update at the given moment; `NotFound` exactly when
    /// the uid is absent from the table.
    pub fn patch_at(&mut self, uid: &str, patch: Patch, now: i64) -> (r: Result<
        HomeworkRecord,
        RepoError,
    >)
        ensures
            match r {
                Ok(rec) => {
                    &&& old(self)@.contains_key(uid@)
                    &&& rec@ == apply_patch_spec(old(self)@[uid@], patch@, now)
                    &&& final(self)@ == spec_patch(old(self)@, uid@, patch@, now)
                },
                Err(e) => {
                    &&& e is NotFound ==> !old(self).rows().contains_key(uid@)
                    &&& final(self)@ == old(self)@
                },
            },
    {
        let current = match sql_get(&self.conn, uid) {
            Ok(Some(row)) => {
                match row_to_record(&row) {
                    Ok(rec) => rec,
                    Err(e) => {
                        return Err(e);
                    },
                }
            },
            Ok(None) => {
                return Err(RepoError::NotFound);
            },
            Err(m) => {
                return Err(RepoError::Sql(m));
            },
        };
        let mut merged = current;
        merged.apply_patch(patch, now);
        let row = record_to_row(&merged);
        let out = merged.clone();
        match sql_update(&mut self.conn, &row) {
            Ok(true) => {
                proof {
                    lemma_row_round_trip(merged@);
                    lemma_model_insert(table_of(old(self).conn), merged@.uid, row@, merged@);
                    assert(final(self)@ =~= spec_patch(old(self)@, uid@, patch@, now));
                }
                Ok(out)
            },
            Ok(false) => Err(RepoError::NotFound),
            Err(m) => Err(RepoError::Sql(m)),
        }
    }

    /// Sets the soft-delete flag and stamps a fresh update moment, keeping
    /// the row; `NotFound` exactly when the uid is absent from the table. A
    /// second delete succeeds again.
    pub fn delete(&mut self, uid: &str) -> (r: Result<(), RepoError>)
        ensures
            match r {
                Ok(_) => {
                    &&& old(self).rows().contains_key(uid@)
                    &&& old(self)@.contains_key(uid@) ==> exists|now: i64|
                        final(self)@ == spec_delete(old(self)@, uid@, now)
                    &&& !old(self)@.contains_key(uid@) ==> final(self)@ == old(self)@
                },
                Err(e) => {
                    &&& e is NotFound ==> !old(self).rows().contains_key(uid@)
                    &&& final(self)@ == old(self)@
                },
            },
    {
        let now = now_timestamp();
        self.delete_at(uid, now)
    }

    /// Sets the soft-delete flag, stamping the given update moment;
    /// `NotFound` exactly when the uid is absent from the table.
    pub fn delete_at(&mut self, uid: &str, now: i64) -> (r: Result<(), RepoError>)
        ensures
            match r {
                Ok(_) => {
                    &&& old(self).rows().contains_key(uid@)
                    &&& old(self)@.contains_key(uid@) ==> final(self)@ == spec_delete(
                        old(self)@,
                        uid@,
                        now,
                    )
                    &&& !old(self)@.contains_key(uid@) ==> final(self)@ == old(self)@
                },
                Err(e) => {
                    &&& e is NotFound ==> !old(self).rows().contains_key(uid@)
                    &&& final(self)@ == old(self)@
                },
            },
    {
        match sql_mark_deleted(&mut self.conn, uid, now) {
            Ok(true) => {
                proof {
                    let t = table_of(old(self).conn);
                    if !old(self)@.contains_key(uid@) {
                        assert(final(self)@ =~= old(self)@);
                    }
                    if old(self)@.contains_key(uid@) {
                        let r0 = rec_of(t[uid@])->Some_0;
                        let rowdel = RowV { deleted: 1, updated_at: now, ..t[uid@] };
                        assert(rec_of(rowdel) == Some(crate::store::spec_delete_rec(r0, now))) by {
                            assert(rec_of(rowdel)->Some_0 =~= crate::store::spec_delete_rec(
                                r0,
                                now,
                            ));
                        }
                        lemma_model_insert(t, uid@, rowdel, crate::store::spec_delete_rec(r0, now));
                    }
                }
                Ok(())
            },
            Ok(false) => Err(RepoError::NotFound),
            Err(m) => Err(RepoError::Sql(m)),
        }
    }
}

} // verus!
