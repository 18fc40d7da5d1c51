use memx::search::{
    candidate_limit, dedup_ranked, mark_accessed, effective_frequency_count, effective_recency_timestamp,
    mark_all_retrieved, mark_retrieved, rejects_weak_results, select_results, tag_signature, MemoryStats, RankedMemory,
    MAX_RESULTS_PER_TAG_SIGNATURE,
};
use memx::types::MemoryType;

fn sample_memory() -> MemoryStats {
    MemoryStats {
        access_count: 0,
        last_accessed_at: None,
        retrieval_count: 0,
        last_retrieved_at: None,
        created_at: 100,
    }
}

fn ranked(content: &str, memory_type: MemoryType, tags: &[&str]) -> RankedMemory {
    RankedMemory {
        content: content.to_string(),
        memory_type,
        tags: tags.iter().map(|t| t.to_string()).collect(),
    }
}

#[test]
fn recency_prefers_last_retrieved_at() {
    let mut memory = sample_memory();
    memory.created_at = 100;
    memory.last_retrieved_at = Some(200);

    assert_eq!(effective_recency_timestamp(&memory), 200);
}

#[test]
fn recency_falls_back_to_created_at() {
    let memory = sample_memory();

    assert_eq!(effective_recency_timestamp(&memory), 100);
}

#[test]
fn frequency_prefers_retrieval_count() {
    let mut memory = sample_memory();
    memory.access_count = 9;
    memory.retrieval_count = 2;

    assert_eq!(effective_frequency_count(&memory), 2);
}

#[test]
fn frequency_falls_back_to_access_count() {
    let mut memory = sample_memory();
    memory.access_count = 4;

    assert_eq!(effective_frequency_count(&memory), 4);
}

#[test]
fn marking_a_retrieval_moves_recency_and_frequency() {
    let mut memory = sample_memory();
    memory.access_count = 7;
    mark_retrieved(&mut memory, 500);
    assert_eq!(memory.retrieval_count, 1);
    assert_eq!(memory.last_retrieved_at, Some(500));
    assert_eq!(memory.access_count, 7);
    assert_eq!(effective_recency_timestamp(&memory), 500);
    assert_eq!(effective_frequency_count(&memory), 1);
}

#[test]
fn marking_all_results_touches_every_one_in_order() {
    let mut a = sample_memory();
    a.retrieval_count = 3;
    let b = sample_memory();
    let mut results = vec![a, b];
    mark_all_retrieved(&mut results, 900);
    assert_eq!(results.len(), 2);
    assert_eq!(results[0].retrieval_count, 4);
    assert_eq!(results[1].retrieval_count, 1);
    assert!(results.iter().all(|m| m.last_retrieved_at == Some(900)));
}

#[test]
fn tag_signature_sorts_tags_and_names_the_type() {
    let tags = vec!["release".to_string(), "operations".to_string()];
    assert_eq!(
        tag_signature(MemoryType::Procedural, &tags).as_deref(),
        Some("procedural::operations|release")
    );
    assert_eq!(tag_signature(MemoryType::Semantic, &Vec::new()), None);
}

#[test]
fn dedup_drops_repeated_content_after_trimming() {
    let entries = vec![
        ranked("User likes oat milk lattes", MemoryType::Semantic, &[]),
        ranked("  User likes oat milk lattes ", MemoryType::Semantic, &[]),
        ranked("User prefers quiet hotels", MemoryType::Semantic, &[]),
    ];
    assert_eq!(dedup_ranked(&entries, 10), vec![0, 2]);
}

#[test]
fn dedup_keeps_one_memory_per_tag_signature() {
    assert_eq!(MAX_RESULTS_PER_TAG_SIGNATURE, 1);
    let entries = vec![
        ranked("check schema before deployment", MemoryType::Procedural, &["release", "operations"]),
        ranked("verify flags before deployment", MemoryType::Procedural, &["operations", "release"]),
        ranked("prepare rollback scripts before deployment", MemoryType::Procedural, &["release", "operations"]),
        ranked("Do not promise zero false positives in client demos", MemoryType::Procedural, &["demo", "messaging"]),
    ];
    assert_eq!(dedup_ranked(&entries, 10), vec![0, 3]);
}

#[test]
fn dedup_stops_at_the_limit_and_zero_means_no_limit() {
    let entries = vec![
        ranked("a", MemoryType::Semantic, &[]),
        ranked("b", MemoryType::Semantic, &[]),
        ranked("c", MemoryType::Semantic, &[]),
    ];
    assert_eq!(dedup_ranked(&entries, 2), vec![0, 1]);
    assert_eq!(dedup_ranked(&entries, 0), vec![0, 1, 2]);
}

#[test]
fn dedup_counts_content_of_skipped_entries_as_seen() {
    let entries = vec![
        ranked("one", MemoryType::Semantic, &["t"]),
        ranked("two", MemoryType::Semantic, &["t"]),
        ranked("two", MemoryType::Semantic, &[]),
    ];
    assert_eq!(dedup_ranked(&entries, 10), vec![0]);
}

#[test]
fn candidates_are_three_times_the_limit() {
    assert_eq!(candidate_limit(10), 30);
    assert_eq!(candidate_limit(0), 0);
}

#[test]
fn reads_and_retrievals_are_counted_apart() {
    let mut a = sample_memory();
    mark_accessed(&mut a, 300);
    mark_retrieved(&mut a, 400);
    let mut b = sample_memory();
    mark_retrieved(&mut b, 400);
    mark_accessed(&mut b, 300);
    assert_eq!(a, b);
    assert_eq!(a.access_count, 1);
    assert_eq!(a.last_accessed_at, Some(300));
    assert_eq!(a.retrieval_count, 1);
    assert_eq!(a.last_retrieved_at, Some(400));
}

#[test]
fn weak_results_without_keyword_hits_are_rejected() {
    assert!(rejects_weak_results(true, false, true));
    assert!(!rejects_weak_results(true, true, true));
    assert!(!rejects_weak_results(true, false, false));
    assert!(!rejects_weak_results(false, false, true));
}

#[test]
fn results_are_deduplicated_or_truncated() {
    let entries = vec![
        ranked("same", MemoryType::Semantic, &[]),
        ranked("same", MemoryType::Semantic, &[]),
        ranked("other", MemoryType::Semantic, &[]),
    ];
    assert_eq!(select_results(&entries, 10, true), vec![0, 2]);
    assert_eq!(select_results(&entries, 2, false), vec![0, 1]);
    assert_eq!(select_results(&entries, 10, false), vec![0, 1, 2]);
    assert_eq!(select_results(&entries, 0, false), Vec::<usize>::new());
}
