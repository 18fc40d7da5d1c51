use memx::schema::{
    add_column_sql, check_embedding_dimension, create_memories_sql, embedding_dimension,
    fts_table_needs_rebuild, has_column, parse_vector_dimension, ColumnInfo, SchemaError,
};

fn col(name: &str, declared_type: &str) -> ColumnInfo {
    ColumnInfo { name: name.to_string(), declared_type: declared_type.to_string() }
}

#[test]
fn vector_dimension_is_read_from_the_declared_type() {
    assert_eq!(parse_vector_dimension("F32_BLOB(1024)"), Some(1024));
    assert_eq!(parse_vector_dimension(" vector(8) "), Some(8));
    assert_eq!(parse_vector_dimension("f32_blob(4)"), Some(4));
    assert_eq!(parse_vector_dimension("F32_BLOB( 4 )"), None);
    assert_eq!(parse_vector_dimension("BLOB"), None);
    assert_eq!(parse_vector_dimension("F32_BLOB(x)"), None);
}

#[test]
fn embedding_dimension_comes_from_the_embedding_column() {
    let cols = vec![col("id", "TEXT"), col("embedding", "F32_BLOB(8)")];
    assert_eq!(embedding_dimension(&cols), Ok(Some(8)));
    assert_eq!(embedding_dimension(&vec![col("id", "TEXT")]), Ok(None));
    assert_eq!(
        embedding_dimension(&vec![col("embedding", "BLOB")]),
        Err(SchemaError::UnsupportedEmbeddingType { declared_type: "BLOB".to_string() })
    );
}

#[test]
fn stored_dimension_must_match_configuration() {
    assert_eq!(check_embedding_dimension(Some(8), 8), Ok(()));
    assert_eq!(
        check_embedding_dimension(Some(8), 4),
        Err(SchemaError::DimensionMismatch { actual: 8, expected: 4 })
    );
    assert_eq!(check_embedding_dimension(None, 4), Err(SchemaError::MissingEmbeddingColumn));
}

#[test]
fn columns_are_found_by_name() {
    let cols = vec![col("id", "TEXT"), col("retrieval_count", "INTEGER")];
    assert!(has_column(&cols, "retrieval_count"));
    assert!(!has_column(&cols, "last_retrieved_at"));
}

#[test]
fn old_fts_table_is_rebuilt() {
    assert!(fts_table_needs_rebuild("CREATE VIRTUAL TABLE memories_fts USING fts5(content)"));
    assert!(!fts_table_needs_rebuild("CREATE VIRTUAL TABLE memories_fts USING fts5(search_content)"));
}

#[test]
fn add_column_statement() {
    assert_eq!(
        add_column_sql("memories", "retrieval_count", "INTEGER DEFAULT 0"),
        "ALTER TABLE memories ADD COLUMN retrieval_count INTEGER DEFAULT 0"
    );
}

#[test]
fn create_statement_declares_the_dimension() {
    let sql = create_memories_sql(1024);
    assert!(sql.contains("CREATE TABLE IF NOT EXISTS memories ("));
    assert!(sql.contains("embedding F32_BLOB(1024),"));
    assert!(create_memories_sql(7).contains("F32_BLOB(7)"));
}
