//! Decisions taken while bringing a database schema up to date: the vector
//! dimension declared by the embedding column, whether a column exists,
//! whether the full-text table predates the preprocessed column, and the
//! statement that adds a missing column.

use vstd::prelude::*;
use crate::text::{
    chars_of, contains_seq, decimal, push_decimal, contains_str, copy_range, ends_with, has_prefix, has_suffix,
    parse_bounded, parse_digits_of, push_str, starts_with, string_of, to_upper, trim, trim_chars,
    upper_seq,
};
use crate::types::str_eq;

verus! {

/// Why the stored schema cannot be used.
#[derive(Debug, Clone, PartialEq, Eq)]
pub enum SchemaError {
    /// The memories table has no embedding column.
    MissingEmbeddingColumn,
    /// The embedding column's declared type is not a vector type.
    UnsupportedEmbeddingType { declared_type: String },
    /// The stored vectors have another dimension than the configured one.
    DimensionMismatch { actual: usize, expected: usize },
}

/// The text between the vector type's opening bracket and the final `)`,
/// once `t` is trimmed and upper-cased; `None` when `t` is not
/// `F32_BLOB(...)` or `VECTOR(...)`.
pub open spec fn vector_dimension_text(t: Seq<char>) -> Option<Seq<char>> {
    let n = upper_seq(trim(t));
    let inner = if starts_with(n, "F32_BLOB("@) {
        Some(n.skip(9))
    } else if starts_with(n, "VECTOR("@) {
        Some(n.skip(7))
    } else {
        None
    };
    match inner {
        Some(i) => if ends_with(i, ")"@) {
            Some(i.drop_last())
        } else {
            None
        },
        None => None,
    }
}

/// The dimension declared by a column type such as `F32_BLOB(1024)` or
/// `VECTOR(4)` (any case, surrounding white space allowed).
pub open spec fn spec_vector_dimension(t: Seq<char>) -> Option<nat> {
    match vector_dimension_text(t) {
        Some(d) => parse_bounded(d, usize::MAX as nat),
        None => None,
    }
}

/// Reads the vector dimension from an embedding column's declared type.
pub fn parse_vector_dimension(declared_type: &str) -> (r: Option<usize>)
    ensures
        match r {
            Some(x) => spec_vector_dimension(declared_type@) == Some(x as nat),
            None => spec_vector_dimension(declared_type@) is None,
        },
{
    proof {
        reveal_strlit("F32_BLOB(");
        reveal_strlit("VECTOR(");
    }
    let raw = chars_of(declared_type);
    let trimmed = trim_chars(&raw);
    let n = to_upper(&trimmed);
    let inner: Vec<char> = if has_prefix(&n, "F32_BLOB(") {
        copy_range(&n, 9, n.len())
    } else if has_prefix(&n, "VECTOR(") {
        copy_range(&n, 7, n.len())
    } else {
        return None;
    };
    assert(inner@ == n@.skip(if starts_with(n@, "F32_BLOB("@) { 9int } else { 7int }));
    if !has_suffix(&inner, ")") {
        return None;
    }
    proof {
        reveal_strlit(")");
    }
    let digits = copy_range(&inner, 0, inner.len() - 1);
    assert(digits@ =~= inner@.drop_last());
    parse_digits_of(&digits)
}

/// A column of a table as the schema reports it: its name and declared type.
pub struct ColumnInfo {
    pub name: String,
    pub declared_type: String,
}

/// Whether a column named `name` is among `cols`.
pub fn has_column(cols: &Vec<ColumnInfo>, column: &str) -> (r: bool)
    ensures
        r == exists|i: int| 0 <= i < cols@.len() && (#[trigger] cols@[i]).name@ == column@,
{
    let mut i: usize = 0;
    while i < cols.len()
        invariant
            0 <= i <= cols.len(),
            forall|j: int| 0 <= j < i ==> (#[trigger] cols@[j]).name@ != column@,
        decreases cols.len() - i,
    {
        if str_eq(cols[i].name.as_str(), column) {
            return true;
        }
        i = i + 1;
    }
    false
}

/// The vector dimension of the first column named `embedding`: `Ok(None)`
/// when there is no such column, an error when its type is not a vector
/// type.
pub fn embedding_dimension(cols: &Vec<ColumnInfo>) -> (r: Result<Option<usize>, SchemaError>)
    ensures
        (forall|i: int| 0 <= i < cols@.len() ==> (#[trigger] cols@[i]).name@ != "embedding"@)
            ==> r == Ok::<Option<usize>, SchemaError>(None),
        forall|i: int|
            0 <= i < cols@.len() && (#[trigger] cols@[i]).name@ == "embedding"@ && (forall|j: int|
                0 <= j < i ==> (#[trigger] cols@[j]).name@ != "embedding"@) ==> match r {
                Ok(Some(d)) => spec_vector_dimension(cols@[i].declared_type@) == Some(d as nat),
                Ok(None) => false,
                Err(e) => spec_vector_dimension(cols@[i].declared_type@) is None && e
                    == SchemaError::UnsupportedEmbeddingType { declared_type: cols@[i].declared_type },
            },
{
    let mut i: usize = 0;
    while i < cols.len()
        invariant
            0 <= i <= cols.len(),
            forall|j: int| 0 <= j < i ==> (#[trigger] cols@[j]).name@ != "embedding"@,
        decreases cols.len() - i,
    {
        if str_eq(cols[i].name.as_str(), "embedding") {
            match parse_vector_dimension(cols[i].declared_type.as_str()) {
                Some(d) => {
                    return Ok(Some(d));
                },
                None => {
                    return Err(
                        SchemaError::UnsupportedEmbeddingType {
                            declared_type: cols[i].declared_type.clone(),
                        },
                    );
                },
            }
        }
        i = i + 1;
    }
    Ok(None)
}

/// Checks the dimension found in the stored schema against the configured
/// one.
pub fn check_embedding_dimension(actual: Option<usize>, expected: usize) -> (r: Result<
    (),
    SchemaError,
>)
    ensures
        r == match actual {
            None => Err(SchemaError::MissingEmbeddingColumn),
            Some(a) => if a == expected {
                Ok(())
            } else {
                Err(SchemaError::DimensionMismatch { actual: a, expected })
            },
        },
{
    match actual {
        None => Err(SchemaError::MissingEmbeddingColumn),
        Some(a) => if a == expected {
            Ok(())
        } else {
            Err(SchemaError::DimensionMismatch { actual: a, expected })
        },
    }
}

/// Whether the full-text table, given by its `CREATE` statement, still
/// indexes the raw content and must be dropped and rebuilt.
pub fn fts_table_needs_rebuild(create_sql: &str) -> (r: bool)
    ensures
        r == !contains_seq(create_sql@, "search_content"@),
{
    !contains_str(create_sql, "search_content")
}

/// The statement that adds `column` with `definition` to `table`.
pub fn add_column_sql(table: &str, column: &str, definition: &str) -> (r: String)
    ensures
        r@ == "ALTER TABLE "@ + table@ + " ADD COLUMN "@ + column@ + " "@ + definition@,
{
    let mut out: Vec<char> = Vec::new();
    push_str(&mut out, "ALTER TABLE ");
    push_str(&mut out, table);
    push_str(&mut out, " ADD COLUMN ");
    push_str(&mut out, column);
    push_str(&mut out, " ");
    push_str(&mut out, definition);
    string_of(&out)
}


/// The statement that creates the memories table, up to the embedding
/// column's dimension.
pub const CREATE_MEMORIES_HEAD: &'static str = "\n        CREATE TABLE IF NOT EXISTS memories (\n            id TEXT PRIMARY KEY,\n            content TEXT NOT NULL,\n            embedding F32_BLOB(";

/// The statement that creates the memories table, after the embedding
/// column's dimension.
pub const CREATE_MEMORIES_TAIL: &'static str = "),\n            type TEXT NOT NULL,\n            tags TEXT,\n            metadata TEXT,\n            importance REAL DEFAULT 0.5,\n            access_count INTEGER DEFAULT 0,\n            last_accessed_at INTEGER,\n            created_at INTEGER NOT NULL,\n            updated_at INTEGER NOT NULL\n        )\n        ";

/// The statement that creates the memories table (when it does not exist
/// yet) with embeddings of `dimension` components.
pub fn create_memories_sql(dimension: usize) -> (r: String)
    ensures
        r@ == CREATE_MEMORIES_HEAD@ + decimal(dimension as nat) + CREATE_MEMORIES_TAIL@,
{
    let mut out: Vec<char> = Vec::new();
    push_str(&mut out, CREATE_MEMORIES_HEAD);
    push_decimal(&mut out, dimension as u64);
    push_str(&mut out, CREATE_MEMORIES_TAIL);
    string_of(&out)
}


// ── Statements ─────────────────────────────────────────────────────────────

/// The full-text table over `search_content`, kept in step with `memories`.
pub const CREATE_FTS_TABLE_SQL: &'static str = "\n        CREATE VIRTUAL TABLE IF NOT EXISTS memories_fts USING fts5(\n            search_content,\n            content='memories',\n            content_rowid='rowid',\n            tokenize='unicode61 remove_diacritics 0'\n        )\n        ";

/// Indexes the `search_content` of a new memory.
pub const CREATE_FTS_INSERT_TRIGGER_SQL: &'static str = "\n        CREATE TRIGGER IF NOT EXISTS memories_ai AFTER INSERT ON memories BEGIN\n            INSERT INTO memories_fts(rowid, search_content) VALUES (new.rowid, new.search_content);\n        END\n        ";

/// Drops a deleted memory from the full-text index.
pub const CREATE_FTS_DELETE_TRIGGER_SQL: &'static str = "\n        CREATE TRIGGER IF NOT EXISTS memories_ad AFTER DELETE ON memories BEGIN\n            INSERT INTO memories_fts(memories_fts, rowid, search_content) VALUES('delete', old.rowid, old.search_content);\n        END\n        ";

/// Re-indexes an updated memory.
pub const CREATE_FTS_UPDATE_TRIGGER_SQL: &'static str = "\n        CREATE TRIGGER IF NOT EXISTS memories_au AFTER UPDATE ON memories BEGIN\n            INSERT INTO memories_fts(memories_fts, rowid, search_content) VALUES('delete', old.rowid, old.search_content);\n            INSERT INTO memories_fts(rowid, search_content) VALUES (new.rowid, new.search_content);\n        END\n        ";

/// The table of links between memories.
pub const CREATE_LINKS_TABLE_SQL: &'static str = "\n        CREATE TABLE IF NOT EXISTS memory_links (\n            id TEXT PRIMARY KEY,\n            source_id TEXT NOT NULL,\n            target_id TEXT NOT NULL,\n            link_type TEXT NOT NULL,\n            strength REAL DEFAULT 0.7,\n            bidirectional INTEGER DEFAULT 1,\n            metadata TEXT,\n            created_at INTEGER NOT NULL,\n            updated_at INTEGER NOT NULL,\n            FOREIGN KEY (source_id) REFERENCES memories(id) ON DELETE CASCADE,\n            FOREIGN KEY (target_id) REFERENCES memories(id) ON DELETE CASCADE\n        )\n        ";

/// Drops the old B-tree index on embeddings, which vector search cannot use.
pub const DROP_OLD_VECTOR_INDEX_SQL: &'static str = "DROP INDEX IF EXISTS idx_embedding";

/// The approximate nearest-neighbour index on embeddings (may be refused for small dimensions).
pub const CREATE_VECTOR_INDEX_SQL: &'static str = "CREATE INDEX IF NOT EXISTS idx_vec_memories ON memories(libsql_vector_idx(embedding))";

/// The index on memory types.
pub const CREATE_TYPE_INDEX_SQL: &'static str = "CREATE INDEX IF NOT EXISTS idx_type ON memories(type)";

/// The index on creation times, newest first.
pub const CREATE_CREATED_AT_INDEX_SQL: &'static str = "CREATE INDEX IF NOT EXISTS idx_created_at ON memories(created_at DESC)";

/// Rebuilds the full-text index from `memories`.
pub const REBUILD_FTS_SQL: &'static str = "INSERT INTO memories_fts(memories_fts) VALUES('rebuild')";

/// The index on link sources.
pub const CREATE_SOURCE_INDEX_SQL: &'static str = "CREATE INDEX IF NOT EXISTS idx_source_id ON memory_links(source_id)";

/// The index on link targets.
pub const CREATE_TARGET_INDEX_SQL: &'static str = "CREATE INDEX IF NOT EXISTS idx_target_id ON memory_links(target_id)";

/// Reads the statement that created the full-text table.
pub const FTS_TABLE_SQL_QUERY: &'static str = "SELECT sql FROM sqlite_master WHERE type='table' AND name='memories_fts'";

/// Drops the insert trigger of an old full-text table.
pub const DROP_FTS_INSERT_TRIGGER_SQL: &'static str = "DROP TRIGGER IF EXISTS memories_ai";

/// Drops the delete trigger of an old full-text table.
pub const DROP_FTS_DELETE_TRIGGER_SQL: &'static str = "DROP TRIGGER IF EXISTS memories_ad";

/// Drops the update trigger of an old full-text table.
pub const DROP_FTS_UPDATE_TRIGGER_SQL: &'static str = "DROP TRIGGER IF EXISTS memories_au";

/// Drops an old full-text table.
pub const DROP_FTS_TABLE_SQL: &'static str = "DROP TABLE IF EXISTS memories_fts";

/// The rows whose `search_content` is not filled in yet.
pub const UNINDEXED_ROWS_SQL: &'static str = "SELECT rowid, content FROM memories WHERE search_content IS NULL";

/// Fills in the `search_content` of a row.
pub const SET_SEARCH_CONTENT_SQL: &'static str = "UPDATE memories SET search_content = ? WHERE rowid = ?";

} // verus!
