//! The stored form of memories and links: a memory's kind by its name and
//! its tags as a JSON array of strings, a link's type by its name and its
//! direction as a flag, and the queries that list a memory's links.

use vstd::prelude::*;
use crate::text::{push_str, string_of, string_views};
use crate::types::{LinkType, MemoryType, parse_link_type, parse_memory_type};

verus! {

#[verifier::external_type_specification]
#[verifier::external_body]
pub struct ExJsonError(serde_json::Error);

/// The JSON text `serde_json::to_string` writes for a list of strings.
pub uninterp spec fn json_text_of_strings(items: Seq<Seq<char>>) -> Seq<char>;

/// The list of strings `serde_json::from_str` reads from `text`, or `None`
/// where it reports an error.
pub uninterp spec fn strings_of_json_text(text: Seq<char>) -> Option<Seq<Seq<char>>>;

/// Writes a list of strings as JSON with `serde_json::to_string`. Its
/// documentation says that serialization fails only where a `Serialize`
/// impl fails or a map has non-string keys, neither of which a list of
/// strings has, so the call succeeds; the text it writes is named, not
/// stated. Strings are written as JSON string literals with their special
/// characters escaped, so `serde_json::from_str` reads the same list back.
#[verifier::external_body]
fn json_encode_strings(items: &Vec<String>) -> (r: Result<String, serde_json::Error>)
    ensures
        r is Ok,
        r is Ok ==> r.unwrap()@ == json_text_of_strings(string_views(items@)),
        r is Ok ==> strings_of_json_text(r.unwrap()@) == Some(string_views(items@)),
{
    serde_json::to_string(items)
}

/// Reads a list of strings from JSON text with `serde_json::from_str`.
/// Whether it succeeds, and what it reads, are named and depend on the text
/// alone.
#[verifier::external_body]
fn json_decode_strings(text: &str) -> (r: Result<Vec<String>, serde_json::Error>)
    ensures
        r is Ok <==> strings_of_json_text(text@) is Some,
        r is Ok ==> strings_of_json_text(text@) == Some(string_views(r.unwrap()@)),
{
    serde_json::from_str::<Vec<String>>(text)
}

/// Why a stored memory's kind or tags could not be read, or its tags not
/// written.
#[derive(Debug, Clone, PartialEq, Eq)]
pub enum RowError {
    /// The stored kind is not the name of a memory type.
    InvalidMemoryType { text: String },
    /// The stored link type is not the name of a link type.
    InvalidLinkType { text: String },
    /// The stored tags are not a JSON array of strings.
    BadTags,
    /// The tags could not be written as JSON.
    TagEncoding,
}

/// The tags a new memory is stored with: those given, or none.
pub open spec fn tags_or_empty(tags: Option<Vec<String>>) -> Seq<Seq<char>> {
    match tags {
        Some(v) => string_views(v@),
        None => Seq::empty(),
    }
}

/// The stored text of the tags of a new memory: the JSON array of the tags
/// given, or of no tags. Reading that text back gives the same tags.
pub fn encode_tags(tags: &Option<Vec<String>>) -> (r: Result<String, RowError>)
    ensures
        r matches Ok(s) && s@ == json_text_of_strings(tags_or_empty(*tags)),
        r matches Ok(s) && strings_of_json_text(s@) == Some(tags_or_empty(*tags)),
{
    let empty: Vec<String> = Vec::new();
    let items = match tags {
        Some(v) => v,
        None => &empty,
    };
    proof {
        assert(string_views(empty@) =~= Seq::<Seq<char>>::empty());
    }
    match json_encode_strings(items) {
        Ok(s) => Ok(s),
        Err(_) => Err(RowError::TagEncoding),
    }
}

/// The kind and tags of a stored memory, from the stored kind's text and
/// the tags as read from their JSON text (`None` where they could not be
/// read). The kind is checked first.
pub fn memory_fields(type_text: &str, tags: Option<Vec<String>>) -> (r: Result<(MemoryType, Vec<String>), RowError>)
    ensures
        parse_memory_type(type_text@) is None ==> (r matches Err(RowError::InvalidMemoryType { text }) && text@ == type_text@),
        parse_memory_type(type_text@) is Some && tags is None ==> r == Err::<(MemoryType, Vec<String>), RowError>(RowError::BadTags),
        parse_memory_type(type_text@) is Some && tags is Some ==> (r matches Ok((t, v)) && Some(t) == parse_memory_type(type_text@) && v@ == tags.unwrap()@),
{
    match MemoryType::parse(type_text) {
        None => Err(RowError::InvalidMemoryType { text: type_text.to_owned() }),
        Some(t) => match tags {
            None => Err(RowError::BadTags),
            Some(v) => Ok((t, v)),
        },
    }
}

/// The kind and tags of a stored memory, read from their stored text.
pub fn decode_memory_fields(type_text: &str, tags_text: &str) -> (r: Result<(MemoryType, Vec<String>), RowError>)
    ensures
        parse_memory_type(type_text@) is None ==> (r matches Err(RowError::InvalidMemoryType { text }) && text@ == type_text@),
        parse_memory_type(type_text@) is Some && strings_of_json_text(tags_text@) is None ==> r == Err::<(MemoryType, Vec<String>), RowError>(RowError::BadTags),
        parse_memory_type(type_text@) is Some && strings_of_json_text(tags_text@) is Some ==> (r matches Ok((t, v)) && Some(t) == parse_memory_type(type_text@) && Some(string_views(v@)) == strings_of_json_text(tags_text@)),
{
    let tags = match json_decode_strings(tags_text) {
        Ok(v) => Some(v),
        Err(_) => None,
    };
    memory_fields(type_text, tags)
}


// ── Links ──────────────────────────────────────────────────────────────────

/// Whether a new link goes both ways: as given, or both ways.
pub fn bidirectional_or_default(b: Option<bool>) -> (r: bool)
    ensures
        r == (match b {
            Some(x) => x,
            None => true,
        }),
{
    match b {
        Some(x) => x,
        None => true,
    }
}

/// The stored flag of a link's direction: 1 for both ways, 0 for one.
pub fn bidirectional_flag(b: bool) -> (r: i64)
    ensures
        r == (if b { 1i64 } else { 0i64 }),
{
    if b { 1 } else { 0 }
}

/// A stored direction flag read back: any value but 0 means both ways.
pub fn bidirectional_from_flag(flag: i64) -> (r: bool)
    ensures
        r == (flag != 0),
{
    flag != 0
}

/// Law: a link's direction reads back as it was stored.
pub proof fn law_direction_reads_back(b: bool)
    ensures
        ((if b { 1i64 } else { 0i64 }) != 0) == b,
{
}

/// The link type of a stored link, from its stored name.
pub fn link_type_from_row(text: &str) -> (r: Result<LinkType, RowError>)
    ensures
        parse_link_type(text@) matches Some(t) ==> r == Ok::<LinkType, RowError>(t),
        parse_link_type(text@) is None ==> (r matches Err(RowError::InvalidLinkType { text: t }) && t@ == text@),
{
    match LinkType::parse(text) {
        Some(t) => Ok(t),
        None => Err(RowError::InvalidLinkType { text: text.to_owned() }),
    }
}

/// The query for the links of a memory that start at it.
pub const OUTGOING_LINKS_SQL: &'static str = "\n        SELECT id, source_id, target_id, link_type, strength, \n               bidirectional, metadata, created_at, updated_at\n        FROM memory_links\n        WHERE source_id = ?\n        ORDER BY strength DESC\n        ";

/// The query for the links of a memory that start at it, or end at it and
/// go both ways.
pub const ALL_LINKS_SQL: &'static str = "\n        SELECT id, source_id, target_id, link_type, strength, \n               bidirectional, metadata, created_at, updated_at\n        FROM memory_links\n        WHERE source_id = ? OR (target_id = ? AND bidirectional = 1)\n        ORDER BY strength DESC\n        ";

/// The query that lists a memory's links: with `include_reverse`, also the
/// links that end at it and go both ways.
pub fn links_query(include_reverse: bool) -> (r: &'static str)
    ensures
        r@ == (if include_reverse { ALL_LINKS_SQL@ } else { OUTGOING_LINKS_SQL@ }),
{
    if include_reverse { ALL_LINKS_SQL } else { OUTGOING_LINKS_SQL }
}


/// Stores a new memory, with its content prepared for the full-text index
/// in `search_content` (see `crate::fts::preprocess_for_fts`), so that the
/// index finds it at once.
pub const INSERT_MEMORY_SQL: &'static str = "\n        INSERT INTO memories (\n            id, content, search_content, embedding, type, tags, metadata,\n            importance, access_count, retrieval_count, created_at, updated_at\n        ) VALUES (?, ?, ?, vector32(?), ?, ?, ?, ?, 0, 0, ?, ?)\n        ";

/// Replaces a memory's content and embedding.
pub const UPDATE_CONTENT_AND_EMBEDDING_SQL: &'static str = "UPDATE memories SET content = ?, embedding = vector32(?), updated_at = ? WHERE id = ?";

/// Replaces a memory's content only.
pub const UPDATE_CONTENT_SQL: &'static str = "UPDATE memories SET content = ?, updated_at = ? WHERE id = ?";

/// Replaces a memory's importance.
pub const UPDATE_IMPORTANCE_SQL: &'static str = "UPDATE memories SET importance = ?, updated_at = ? WHERE id = ?";

/// The statements an update of a memory runs, in order: new content (with
/// its embedding, when one is given) and then a new importance; an update
/// with neither runs none and only reads the memory back.
pub open spec fn spec_update_statements(has_content: bool, has_embedding: bool, has_importance: bool) -> Seq<Seq<char>> {
    let content: Seq<Seq<char>> = if !has_content {
        Seq::empty()
    } else if has_embedding {
        seq![UPDATE_CONTENT_AND_EMBEDDING_SQL@]
    } else {
        seq![UPDATE_CONTENT_SQL@]
    };
    if has_importance { content.push(UPDATE_IMPORTANCE_SQL@) } else { content }
}

/// The statements an update of a memory runs.
pub fn update_statements(has_content: bool, has_embedding: bool, has_importance: bool) -> (r: Vec<&'static str>)
    ensures
        r@.map_values(|s: &'static str| s@) == spec_update_statements(has_content, has_embedding, has_importance),
{
    let mut v: Vec<&'static str> = Vec::new();
    if has_content {
        if has_embedding {
            v.push(UPDATE_CONTENT_AND_EMBEDDING_SQL);
        } else {
            v.push(UPDATE_CONTENT_SQL);
        }
    }
    if has_importance {
        v.push(UPDATE_IMPORTANCE_SQL);
    }
    assert(v@.map_values(|s: &'static str| s@) =~= spec_update_statements(has_content, has_embedding, has_importance));
    v
}


/// Law: an update writes new content, and does so together with the new
/// embedding whenever one comes with it, whatever else changes; it writes a
/// new importance when there is one, after the content; and it writes
/// nothing else.
pub proof fn law_update_writes_what_changed(has_content: bool, has_embedding: bool, has_importance: bool)
    ensures
        ({
            let s = spec_update_statements(has_content, has_embedding, has_importance);
            &&& s.len() == (if has_content { 1int } else { 0 }) + (if has_importance { 1int } else { 0 })
            &&& has_content && has_embedding ==> s[0] == UPDATE_CONTENT_AND_EMBEDDING_SQL@
            &&& has_content && !has_embedding ==> s[0] == UPDATE_CONTENT_SQL@
            &&& has_importance ==> s.last() == UPDATE_IMPORTANCE_SQL@
        }),
{
}

/// `n` query placeholders separated by `, `.
pub open spec fn placeholders(n: nat) -> Seq<char>
    decreases n,
{
    if n == 0 {
        Seq::empty()
    } else if n == 1 {
        seq!['?']
    } else {
        placeholders((n - 1) as nat) + seq![',', ' ', '?']
    }
}

/// The statement that records a retrieval of `count` memories at once: one
/// more retrieval each, and the time given as their last retrieval.
pub open spec fn spec_track_retrievals_sql(count: nat) -> Seq<char> {
    "UPDATE memories SET retrieval_count = retrieval_count + 1, last_retrieved_at = ? WHERE id IN ("@
        + placeholders(count) + seq![')']
}

/// The statement that records a retrieval of `count` memories.
pub fn track_retrievals_sql(count: usize) -> (r: String)
    ensures
        r@ == spec_track_retrievals_sql(count as nat),
{
    let mut out: Vec<char> = Vec::new();
    push_str(&mut out, "UPDATE memories SET retrieval_count = retrieval_count + 1, last_retrieved_at = ? WHERE id IN (");
    let ghost head = out@;
    let mut k: usize = 0;
    while k < count
        invariant
            0 <= k <= count,
            out@ == head + placeholders(k as nat),
        decreases count - k,
    {
        if k > 0 {
            out.push(',');
            out.push(' ');
        }
        out.push('?');
        proof {
            if k == 0 {
                assert(placeholders(0) =~= Seq::<char>::empty());
                assert(out@ =~= head + placeholders(1));
            } else {
                assert(out@ =~= head + placeholders(k as nat) + seq![',', ' ', '?']);
            }
        }
        k = k + 1;
    }
    out.push(')');
    assert(out@ =~= spec_track_retrievals_sql(count as nat));
    string_of(&out)
}

} // verus!
