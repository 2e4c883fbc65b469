//! The local database schema, as an ordered list of forward migrations.
use vstd::prelude::*;

verus! {

#[derive(Clone, Copy, PartialEq, Eq, Debug, Structural)]
pub enum MigrationKind {
    Up,
    Down,
}

/// One schema step, applied in ascending `version` order.
pub struct Migration {
    pub version: i64,
    pub description: String,
    pub sql: String,
    pub kind: MigrationKind,
}

pub const MEETINGS_SQL: &'static str = "
                CREATE TABLE IF NOT EXISTS meetings (
                    id TEXT PRIMARY KEY,
                    title TEXT,
                    start_time INTEGER,
                    duration_ms INTEGER,
                    summary_json TEXT,
                    created_at TEXT DEFAULT CURRENT_TIMESTAMP,
                    calendar_event_id TEXT,
                    source TEXT
                );
            ";

pub const TRANSCRIPTS_SQL: &'static str = "
                CREATE TABLE IF NOT EXISTS transcripts (
                    id INTEGER PRIMARY KEY AUTOINCREMENT,
                    meeting_id TEXT,
                    speaker TEXT,
                    content TEXT,
                    timestamp_ms INTEGER,
                    FOREIGN KEY(meeting_id) REFERENCES meetings(id) ON DELETE CASCADE
                );
            ";

pub const CHUNKS_SQL: &'static str = "
                CREATE TABLE IF NOT EXISTS chunks (
                    id INTEGER PRIMARY KEY AUTOINCREMENT,
                    meeting_id TEXT NOT NULL,
                    chunk_index INTEGER NOT NULL,
                    speaker TEXT,
                    start_timestamp_ms INTEGER,
                    end_timestamp_ms INTEGER,
                    cleaned_text TEXT NOT NULL,
                    token_count INTEGER NOT NULL,
                    embedding BLOB,
                    created_at TEXT DEFAULT CURRENT_TIMESTAMP,
                    FOREIGN KEY(meeting_id) REFERENCES meetings(id) ON DELETE CASCADE
                );
            ";

fn step(version: i64, description: &str, sql: &str) -> (r: Migration)
    ensures
        r.version == version,
        r.description@ == description@,
        r.sql@ == sql@,
        r.kind == MigrationKind::Up,
{
    Migration {
        version,
        description: description.to_owned(),
        sql: sql.to_owned(),
        kind: MigrationKind::Up,
    }
}

/// Meetings, then transcripts, then embedded chunks: versions 1, 2, 3, all forward.
pub fn migrations() -> (r: Vec<Migration>)
    ensures
        r@.len() == 3,
        forall|i: int|
            0 <= i < 3 ==> (#[trigger] r@[i]).version == i + 1 && r@[i].kind == MigrationKind::Up,
        r@[0].description@ == "create_meetings_table"@,
        r@[1].description@ == "create_transcripts_table"@,
        r@[2].description@ == "create_chunks_table"@,
        r@[0].sql@ == MEETINGS_SQL@,
        r@[1].sql@ == TRANSCRIPTS_SQL@,
        r@[2].sql@ == CHUNKS_SQL@,
{
    let mut v: Vec<Migration> = Vec::new();
    v.push(step(1, "create_meetings_table", MEETINGS_SQL));
    v.push(step(2, "create_transcripts_table", TRANSCRIPTS_SQL));
    v.push(step(3, "create_chunks_table", CHUNKS_SQL));
    v
}

} // verus!
