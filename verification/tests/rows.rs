use memx::rows::{
    bidirectional_flag, bidirectional_from_flag, bidirectional_or_default, decode_memory_fields,
    encode_tags, link_type_from_row, links_query, memory_fields, track_retrievals_sql,
    update_statements, RowError, ALL_LINKS_SQL, OUTGOING_LINKS_SQL, UPDATE_CONTENT_AND_EMBEDDING_SQL,
    UPDATE_CONTENT_SQL, UPDATE_IMPORTANCE_SQL,
};
use memx::types::{LinkType, MemoryType};

#[test]
fn tags_are_stored_as_a_json_array() {
    assert_eq!(encode_tags(&Some(vec!["rust".to_string(), "dev".to_string()])).unwrap(), "[\"rust\",\"dev\"]");
    assert_eq!(encode_tags(&None).unwrap(), "[]");
    assert_eq!(encode_tags(&Some(vec!["a\"b".to_string()])).unwrap(), "[\"a\\\"b\"]");
}

#[test]
fn stored_kind_and_tags_are_read_back() {
    let (t, tags) = decode_memory_fields("episodic", "[\"x\",\"y\"]").unwrap();
    assert_eq!(t, MemoryType::Episodic);
    assert_eq!(tags, vec!["x", "y"]);
    assert_eq!(
        decode_memory_fields("bogus", "[]"),
        Err(RowError::InvalidMemoryType { text: "bogus".to_string() })
    );
    assert_eq!(decode_memory_fields("semantic", "not json"), Err(RowError::BadTags));
    assert_eq!(
        decode_memory_fields("bogus", "not json"),
        Err(RowError::InvalidMemoryType { text: "bogus".to_string() })
    );
}

#[test]
fn encoded_tags_decode_to_the_same_tags() {
    let tags = vec!["数据库".to_string(), "quote\"d".to_string(), "".to_string()];
    let text = encode_tags(&Some(tags.clone())).unwrap();
    let (_, back) = decode_memory_fields("semantic", &text).unwrap();
    assert_eq!(back, tags);
}

#[test]
fn memory_fields_check_the_kind_first() {
    assert_eq!(memory_fields("reflective", Some(vec![])), Ok((MemoryType::Reflective, vec![])));
    assert_eq!(memory_fields("reflective", None), Err(RowError::BadTags));
}

#[test]
fn link_direction_flags() {
    assert!(bidirectional_or_default(None));
    assert!(!bidirectional_or_default(Some(false)));
    assert_eq!(bidirectional_flag(true), 1);
    assert_eq!(bidirectional_flag(false), 0);
    assert!(bidirectional_from_flag(bidirectional_flag(true)));
    assert!(!bidirectional_from_flag(bidirectional_flag(false)));
    assert!(bidirectional_from_flag(-3));
}

#[test]
fn stored_link_type_is_checked() {
    assert_eq!(link_type_from_row("temporal"), Ok(LinkType::Temporal));
    assert_eq!(link_type_from_row("x"), Err(RowError::InvalidLinkType { text: "x".to_string() }));
}

#[test]
fn link_listing_query_includes_reverse_links_on_request() {
    assert_eq!(links_query(true), ALL_LINKS_SQL);
    assert_eq!(links_query(false), OUTGOING_LINKS_SQL);
    assert!(ALL_LINKS_SQL.contains("WHERE source_id = ? OR (target_id = ? AND bidirectional = 1)"));
    assert!(OUTGOING_LINKS_SQL.contains("WHERE source_id = ?\n"));
}

#[test]
fn update_runs_content_then_importance_statements() {
    assert_eq!(update_statements(true, true, true), vec![UPDATE_CONTENT_AND_EMBEDDING_SQL, UPDATE_IMPORTANCE_SQL]);
    assert_eq!(update_statements(true, false, false), vec![UPDATE_CONTENT_SQL]);
    assert_eq!(update_statements(false, true, true), vec![UPDATE_IMPORTANCE_SQL]);
    assert!(update_statements(false, false, false).is_empty());
}

#[test]
fn retrieval_statement_has_one_placeholder_per_memory() {
    assert_eq!(
        track_retrievals_sql(3),
        "UPDATE memories SET retrieval_count = retrieval_count + 1, last_retrieved_at = ? WHERE id IN (?, ?, ?)"
    );
    assert!(track_retrievals_sql(1).ends_with("IN (?)"));
}
