//! The subject a command acts on: all tools, a single tool, or the
//! placeholder subjects that are recognised but not driven yet.

use vstd::prelude::*;

use crate::chars::{eq_ignore_case_seq, trimmed};

verus! {

/// The top-level subjects a command can target.
#[derive(Debug, Clone, Copy, PartialEq, Eq, Structural)]
pub enum Subject {
    /// All tools (plural).
    Tools,
    /// A single tool (singular).
    Tool,
    /// Recognised but not driven yet.
    Resources,
    /// Recognised but not driven yet.
    Prompts,
}

pub open spec fn word_tools() -> Seq<char> {
    seq!['t', 'o', 'o', 'l', 's']
}

pub open spec fn word_tool() -> Seq<char> {
    seq!['t', 'o', 'o', 'l']
}

pub open spec fn word_resources() -> Seq<char> {
    seq!['r', 'e', 's', 'o', 'u', 'r', 'c', 'e', 's']
}

pub open spec fn word_prompts() -> Seq<char> {
    seq!['p', 'r', 'o', 'm', 'p', 't', 's']
}

/// What case-insensitive subject parsing yields for the trimmed input.
pub open spec fn spec_subject_of(s: Seq<char>) -> Option<Subject> {
    let t = trimmed(s);
    if eq_ignore_case_seq(t, word_tools()) {
        Some(Subject::Tools)
    } else if eq_ignore_case_seq(t, word_tool()) {
        Some(Subject::Tool)
    } else if eq_ignore_case_seq(t, word_resources()) {
        Some(Subject::Resources)
    } else if eq_ignore_case_seq(t, word_prompts()) {
        Some(Subject::Prompts)
    } else {
        None
    }
}

impl Subject {
    /// All variants, in the order they are offered.
    pub fn variants() -> (r: Vec<Subject>)
        ensures
            r@ =~= seq![Subject::Tools, Subject::Tool, Subject::Resources, Subject::Prompts],
    {
        let mut v: Vec<Subject> = Vec::new();
        v.push(Subject::Tools);
        v.push(Subject::Tool);
        v.push(Subject::Resources);
        v.push(Subject::Prompts);
        v
    }

    /// Case-insensitive parsing of a subject word, whitespace trimmed.
    pub fn from_str_ci(s: &str) -> (r: Option<Subject>)
        ensures
            r == spec_subject_of(s@),
    {
        proof {
            reveal_strlit("tools");
            reveal_strlit("tool");
            reveal_strlit("resources");
            reveal_strlit("prompts");
            assert("tools"@ =~= word_tools());
            assert("tool"@ =~= word_tool());
            assert("resources"@ =~= word_resources());
            assert("prompts"@ =~= word_prompts());
        }
        let t = crate::chars::trim_str(s);
        if crate::chars::eq_ignore_case(t.as_str(), "tools") {
            Some(Subject::Tools)
        } else if crate::chars::eq_ignore_case(t.as_str(), "tool") {
            Some(Subject::Tool)
        } else if crate::chars::eq_ignore_case(t.as_str(), "resources") {
            Some(Subject::Resources)
        } else if crate::chars::eq_ignore_case(t.as_str(), "prompts") {
            Some(Subject::Prompts)
        } else {
            None
        }
    }

    /// Whether the subject is driven beyond placeholder behaviour.
    pub fn is_implemented(&self) -> (r: bool)
        ensures
            r == (*self == Subject::Tools || *self == Subject::Tool),
    {
        match self {
            Subject::Tools => true,
            Subject::Tool => true,
            _ => false,
        }
    }

    /// Whether this is the singular `tool` subject.
    pub fn is_singular_tool(&self) -> (r: bool)
        ensures
            r == (*self == Subject::Tool),
    {
        match self {
            Subject::Tool => true,
            _ => false,
        }
    }

    /// The subject's display word.
    pub fn as_str(&self) -> (r: &'static str)
        ensures
            (*self == Subject::Tools) ==> r@ == "tools"@,
            (*self == Subject::Tool) ==> r@ == "tool"@,
            (*self == Subject::Resources) ==> r@ == "resources"@,
            (*self == Subject::Prompts) ==> r@ == "prompts"@,
    {
        match self {
            Subject::Tools => "tools",
            Subject::Tool => "tool",
            Subject::Resources => "resources",
            Subject::Prompts => "prompts",
        }
    }
}

} // verus!
