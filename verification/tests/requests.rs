use memx::requests::{
    check_update_request, content_change, list_window, normalize_limit, DeleteMemoryResponse,
    ListMemoriesRequest, ListQuery, ListWindow, SearchMemoriesRequest, SearchQuery,
    UpdateRequestError,
};

#[test]
fn tool_search_limit_is_brought_into_range() {
    let req = |limit| SearchMemoriesRequest { query: "coffee".to_string(), limit };
    assert_eq!(req(None).effective_limit(), 10);
    assert_eq!(req(Some(0)).effective_limit(), 1);
    assert_eq!(req(Some(16)).effective_limit(), 16);
    assert_eq!(req(Some(500)).effective_limit(), 50);
}

#[test]
fn normalized_limit_respects_bounds() {
    assert_eq!(normalize_limit(None, 5, 20), 5);
    assert_eq!(normalize_limit(Some(0), 5, 20), 1);
    assert_eq!(normalize_limit(Some(99), 5, 20), 20);
    assert_eq!(normalize_limit(Some(3), 5, 0), 0);
}

#[test]
fn route_search_limit_is_capped_but_not_raised() {
    let q = |limit| SearchQuery { q: "x".to_string(), limit };
    assert_eq!(q(None).effective_limit(), 10);
    assert_eq!(q(Some(0)).effective_limit(), 0);
    assert_eq!(q(Some(80)).effective_limit(), 50);
}

#[test]
fn listing_window_defaults_and_caps() {
    assert_eq!(list_window(None, None), ListWindow { limit: 50, offset: 0 });
    assert_eq!(list_window(Some(500), Some(20)), ListWindow { limit: 200, offset: 20 });
    assert_eq!(ListMemoriesRequest::default().window(), ListWindow { limit: 50, offset: 0 });
    assert_eq!(ListQuery { limit: Some(10), offset: Some(20) }.window(), ListWindow { limit: 10, offset: 20 });
}

#[test]
fn updates_must_change_something() {
    assert_eq!(check_update_request(false, false), Err(UpdateRequestError::NothingToUpdate));
    assert_eq!(check_update_request(true, false), Ok(()));
    assert_eq!(check_update_request(false, true), Ok(()));
    assert_eq!(
        UpdateRequestError::NothingToUpdate.message(),
        "Provide at least one field to update: content or importance."
    );
}

#[test]
fn empty_content_leaves_content_alone() {
    assert_eq!(content_change(String::new()), None);
    assert_eq!(content_change("new text".to_string()).as_deref(), Some("new text"));
}

#[test]
fn deletion_answer_names_the_memory() {
    let r = DeleteMemoryResponse::deleted("abc".to_string());
    assert_eq!(r.id, "abc");
    assert!(r.deleted);
}
