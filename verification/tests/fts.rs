use memx::fts::{is_cjk, preprocess_for_fts};
use memx::search::{build_fts_query, cjk_or_group};

#[test]
fn cjk_chars_are_space_separated() {
    assert_eq!(preprocess_for_fts("你好世界"), "你 好 世 界");
}

#[test]
fn english_text_is_unchanged() {
    assert_eq!(preprocess_for_fts("hello world"), "hello world");
}

#[test]
fn mixed_text_separates_cjk_only() {
    assert_eq!(preprocess_for_fts("User 你好"), "User 你 好");
    assert_eq!(preprocess_for_fts("hello 世界 foo"), "hello 世 界 foo");
}

#[test]
fn empty_string_returns_empty() {
    assert_eq!(preprocess_for_fts(""), "");
}

#[test]
fn preprocess_trims_surrounding_whitespace() {
    assert_eq!(preprocess_for_fts("  hello  "), "hello");
    assert_eq!(preprocess_for_fts("  你好 "), "你 好");
}

#[test]
fn preprocess_separates_cjk_from_adjacent_latin() {
    assert_eq!(preprocess_for_fts("test你好world"), "test 你 好 world");
}

#[test]
fn cjk_ranges_are_recognised() {
    assert!(is_cjk('你'));
    assert!(is_cjk('\u{3400}'));
    assert!(is_cjk('\u{3000}'));
    assert!(is_cjk('\u{20000}'));
    assert!(!is_cjk('ア'));
    assert!(!is_cjk('한'));
    assert!(!is_cjk('a'));
    assert!(!is_cjk(' '));
}

#[test]
fn fts_query_of_cjk_only_text_is_one_or_group() {
    assert_eq!(build_fts_query("我是谁"), "(\"我\" OR \"是\" OR \"谁\")");
}

#[test]
fn fts_query_of_single_word_is_quoted() {
    assert_eq!(build_fts_query("database"), "\"database\"");
}

#[test]
fn fts_query_of_words_is_implicit_and() {
    assert_eq!(build_fts_query("hello world"), "\"hello\" \"world\"");
}

#[test]
fn fts_query_mixes_words_and_cjk_groups() {
    assert_eq!(build_fts_query("hello 你好 world"), "\"hello\" (\"你\" OR \"好\") \"world\"");
    assert_eq!(build_fts_query("test你好world"), "\"test\" (\"你\" OR \"好\") \"world\"");
}

#[test]
fn fts_query_escapes_quotes_in_words() {
    assert_eq!(build_fts_query("say\"hi"), "\"say\"\"hi\"");
}

#[test]
fn fts_query_of_blank_text_quotes_it_whole() {
    assert_eq!(build_fts_query("   "), "\"   \"");
    assert_eq!(build_fts_query(""), "\"\"");
}

#[test]
fn or_group_of_one_character_is_just_quoted() {
    assert_eq!(cjk_or_group(&['你']), "\"你\"");
    assert_eq!(cjk_or_group(&['你', '好']), "(\"你\" OR \"好\")");
}

#[test]
fn every_cjk_character_of_a_query_is_a_term() {
    let q = build_fts_query("数据库 performance 调优");
    for c in ['数', '据', '库', '调', '优'] {
        assert!(q.contains(&format!("\"{c}\"")));
    }
    assert!(q.contains("\"performance\""));
}
