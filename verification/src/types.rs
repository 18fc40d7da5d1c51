//! The kinds of memory and of link between memories, and their names.

use vstd::prelude::*;
use crate::text::{chars_eq, chars_of};

verus! {

/// Whether two strings hold the same characters.
pub fn str_eq(a: &str, b: &str) -> (r: bool)
    ensures
        r == (a@ == b@),
{
    let x = chars_of(a);
    let y = chars_of(b);
    chars_eq(&x, &y)
}

/// The kind of a memory.
#[derive(Debug, Clone, Copy, PartialEq, Eq, Structural)]
pub enum MemoryType {
    Episodic,
    Semantic,
    Procedural,
    Emotional,
    Reflective,
}

/// The stored name of each memory type.
pub open spec fn memory_type_name(t: MemoryType) -> Seq<char> {
    match t {
        MemoryType::Episodic => "episodic"@,
        MemoryType::Semantic => "semantic"@,
        MemoryType::Procedural => "procedural"@,
        MemoryType::Emotional => "emotional"@,
        MemoryType::Reflective => "reflective"@,
    }
}

/// The memory type whose stored name is `s`, if any.
pub open spec fn parse_memory_type(s: Seq<char>) -> Option<MemoryType> {
    if s == "episodic"@ {
        Some(MemoryType::Episodic)
    } else if s == "semantic"@ {
        Some(MemoryType::Semantic)
    } else if s == "procedural"@ {
        Some(MemoryType::Procedural)
    } else if s == "emotional"@ {
        Some(MemoryType::Emotional)
    } else if s == "reflective"@ {
        Some(MemoryType::Reflective)
    } else {
        None
    }
}

impl MemoryType {
    /// The stored name of this memory type.
    pub fn as_str(&self) -> (r: &'static str)
        ensures
            r@ == memory_type_name(*self),
    {
        match self {
            MemoryType::Episodic => "episodic",
            MemoryType::Semantic => "semantic",
            MemoryType::Procedural => "procedural",
            MemoryType::Emotional => "emotional",
            MemoryType::Reflective => "reflective",
        }
    }

    /// The memory type with the stored name `s`; `None` for any other text.
    pub fn parse(s: &str) -> (r: Option<MemoryType>)
        ensures
            r == parse_memory_type(s@),
    {
        if str_eq(s, "episodic") {
            Some(MemoryType::Episodic)
        } else if str_eq(s, "semantic") {
            Some(MemoryType::Semantic)
        } else if str_eq(s, "procedural") {
            Some(MemoryType::Procedural)
        } else if str_eq(s, "emotional") {
            Some(MemoryType::Emotional)
        } else if str_eq(s, "reflective") {
            Some(MemoryType::Reflective)
        } else {
            None
        }
    }
}

/// The kind a new memory is stored with: the one given, or semantic.
pub fn memory_type_or_default(t: Option<MemoryType>) -> (r: MemoryType)
    ensures
        r == (match t {
            Some(k) => k,
            None => MemoryType::Semantic,
        }),
{
    match t {
        Some(k) => k,
        None => MemoryType::Semantic,
    }
}

/// The kind of a link between two memories.
#[derive(Debug, Clone, Copy, PartialEq, Eq, Structural)]
pub enum LinkType {
    Similar,
    Related,
    Contradicts,
    Extends,
    Supersedes,
    CausedBy,
    Temporal,
}

/// The stored name of each link type.
pub open spec fn link_type_name(t: LinkType) -> Seq<char> {
    match t {
        LinkType::Similar => "similar"@,
        LinkType::Related => "related"@,
        LinkType::Contradicts => "contradicts"@,
        LinkType::Extends => "extends"@,
        LinkType::Supersedes => "supersedes"@,
        LinkType::CausedBy => "caused_by"@,
        LinkType::Temporal => "temporal"@,
    }
}

/// The link type whose stored name is `s`, if any.
pub open spec fn parse_link_type(s: Seq<char>) -> Option<LinkType> {
    if s == "similar"@ {
        Some(LinkType::Similar)
    } else if s == "related"@ {
        Some(LinkType::Related)
    } else if s == "contradicts"@ {
        Some(LinkType::Contradicts)
    } else if s == "extends"@ {
        Some(LinkType::Extends)
    } else if s == "supersedes"@ {
        Some(LinkType::Supersedes)
    } else if s == "caused_by"@ {
        Some(LinkType::CausedBy)
    } else if s == "temporal"@ {
        Some(LinkType::Temporal)
    } else {
        None
    }
}

impl LinkType {
    /// The stored name of this link type.
    pub fn as_str(&self) -> (r: &'static str)
        ensures
            r@ == link_type_name(*self),
    {
        match self {
            LinkType::Similar => "similar",
            LinkType::Related => "related",
            LinkType::Contradicts => "contradicts",
            LinkType::Extends => "extends",
            LinkType::Supersedes => "supersedes",
            LinkType::CausedBy => "caused_by",
            LinkType::Temporal => "temporal",
        }
    }

    /// The link type with the stored name `s`; `None` for any other text.
    pub fn parse(s: &str) -> (r: Option<LinkType>)
        ensures
            r == parse_link_type(s@),
    {
        if str_eq(s, "similar") {
            Some(LinkType::Similar)
        } else if str_eq(s, "related") {
            Some(LinkType::Related)
        } else if str_eq(s, "contradicts") {
            Some(LinkType::Contradicts)
        } else if str_eq(s, "extends") {
            Some(LinkType::Extends)
        } else if str_eq(s, "supersedes") {
            Some(LinkType::Supersedes)
        } else if str_eq(s, "caused_by") {
            Some(LinkType::CausedBy)
        } else if str_eq(s, "temporal") {
            Some(LinkType::Temporal)
        } else {
            None
        }
    }
}

/// Law: a memory type read back from its stored name is the same type.
pub proof fn law_memory_type_round_trip(t: MemoryType)
    ensures
        parse_memory_type(memory_type_name(t)) == Some(t),
{
    reveal_strlit("episodic");
    reveal_strlit("semantic");
    reveal_strlit("procedural");
    reveal_strlit("emotional");
    reveal_strlit("reflective");
    match t {
        MemoryType::Episodic => {
        },
        MemoryType::Semantic => {
            assert("episodic"@[0] != "semantic"@[0]);
        },
        MemoryType::Procedural => {
            assert("episodic"@.len() != "procedural"@.len());
            assert("semantic"@.len() != "procedural"@.len());
        },
        MemoryType::Emotional => {
            assert("episodic"@.len() != "emotional"@.len());
            assert("semantic"@.len() != "emotional"@.len());
            assert("procedural"@.len() != "emotional"@.len());
        },
        MemoryType::Reflective => {
            assert("episodic"@.len() != "reflective"@.len());
            assert("semantic"@.len() != "reflective"@.len());
            assert("procedural"@[0] != "reflective"@[0]);
            assert("emotional"@.len() != "reflective"@.len());
        },
    }
}

/// Law: text that parses as a memory type is exactly that type's stored name.
pub proof fn law_memory_type_parse_is_name(s: Seq<char>)
    ensures
        parse_memory_type(s) matches Some(t) ==> memory_type_name(t) == s,
{
}

/// Law: a link type read back from its stored name is the same type.
pub proof fn law_link_type_round_trip(t: LinkType)
    ensures
        parse_link_type(link_type_name(t)) == Some(t),
{
    reveal_strlit("similar");
    reveal_strlit("related");
    reveal_strlit("contradicts");
    reveal_strlit("extends");
    reveal_strlit("supersedes");
    reveal_strlit("caused_by");
    reveal_strlit("temporal");
    match t {
        LinkType::Similar => {
        },
        LinkType::Related => {
            assert("similar"@[0] != "related"@[0]);
        },
        LinkType::Contradicts => {
            assert("similar"@.len() != "contradicts"@.len());
            assert("related"@.len() != "contradicts"@.len());
        },
        LinkType::Extends => {
            assert("similar"@[0] != "extends"@[0]);
            assert("related"@[0] != "extends"@[0]);
            assert("contradicts"@.len() != "extends"@.len());
        },
        LinkType::Supersedes => {
            assert("similar"@.len() != "supersedes"@.len());
            assert("related"@.len() != "supersedes"@.len());
            assert("contradicts"@.len() != "supersedes"@.len());
            assert("extends"@.len() != "supersedes"@.len());
        },
        LinkType::CausedBy => {
            assert("similar"@.len() != "caused_by"@.len());
            assert("related"@.len() != "caused_by"@.len());
            assert("contradicts"@.len() != "caused_by"@.len());
            assert("extends"@.len() != "caused_by"@.len());
            assert("supersedes"@.len() != "caused_by"@.len());
        },
        LinkType::Temporal => {
            assert("similar"@.len() != "temporal"@.len());
            assert("related"@.len() != "temporal"@.len());
            assert("contradicts"@.len() != "temporal"@.len());
            assert("extends"@.len() != "temporal"@.len());
            assert("supersedes"@.len() != "temporal"@.len());
            assert("caused_by"@.len() != "temporal"@.len());
        },
    }
}

/// Law: text that parses as a link type is exactly that type's stored name.
pub proof fn law_link_type_parse_is_name(s: Seq<char>)
    ensures
        parse_link_type(s) matches Some(t) ==> link_type_name(t) == s,
{
}


/// A memory type named on the command line that is not one.
#[derive(Debug, Clone, PartialEq, Eq)]
pub struct UnknownMemoryType {
    pub name: String,
}

/// Reads the memory type named on the command line, if one was named.
pub fn memory_type_arg(name: Option<&str>) -> (r: Result<Option<MemoryType>, UnknownMemoryType>)
    ensures
        name is None ==> r == Ok::<Option<MemoryType>, UnknownMemoryType>(None),
        name matches Some(n) && parse_memory_type(n@) is Some ==> r == Ok::<Option<MemoryType>, UnknownMemoryType>(parse_memory_type(name.unwrap()@)),
        name matches Some(n) && parse_memory_type(n@) is None ==> (r matches Err(e) && e.name@ == name.unwrap()@),
{
    match name {
        None => Ok(None),
        Some(n) => match MemoryType::parse(n) {
            Some(t) => Ok(Some(t)),
            None => Err(UnknownMemoryType { name: n.to_owned() }),
        },
    }
}

} // verus!
