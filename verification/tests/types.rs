use memx::types::{memory_type_arg, memory_type_or_default, str_eq, LinkType, MemoryType};

#[test]
fn memory_types_round_trip_through_their_names() {
    for t in [
        MemoryType::Episodic,
        MemoryType::Semantic,
        MemoryType::Procedural,
        MemoryType::Emotional,
        MemoryType::Reflective,
    ] {
        assert_eq!(MemoryType::parse(t.as_str()), Some(t));
    }
    assert_eq!(MemoryType::Semantic.as_str(), "semantic");
    assert_eq!(MemoryType::parse("Semantic"), None);
}

#[test]
fn link_types_round_trip_through_their_names() {
    for t in [
        LinkType::Similar,
        LinkType::Related,
        LinkType::Contradicts,
        LinkType::Extends,
        LinkType::Supersedes,
        LinkType::CausedBy,
        LinkType::Temporal,
    ] {
        assert_eq!(LinkType::parse(t.as_str()), Some(t));
    }
    assert_eq!(LinkType::CausedBy.as_str(), "caused_by");
    assert_eq!(LinkType::parse("causedby"), None);
}

#[test]
fn new_memories_default_to_semantic() {
    assert_eq!(memory_type_or_default(None), MemoryType::Semantic);
    assert_eq!(memory_type_or_default(Some(MemoryType::Episodic)), MemoryType::Episodic);
}

#[test]
fn command_line_memory_type_is_checked() {
    assert_eq!(memory_type_arg(None), Ok(None));
    assert_eq!(memory_type_arg(Some("procedural")), Ok(Some(MemoryType::Procedural)));
    assert_eq!(memory_type_arg(Some("bogus")).err().unwrap().name, "bogus");
}

#[test]
fn string_equality() {
    assert!(str_eq("你好", "你好"));
    assert!(!str_eq("a", "ab"));
}
