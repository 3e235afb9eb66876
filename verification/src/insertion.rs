//! Whether a model's answer may be typed into the focused application.

use vstd::prelude::*;

use crate::llm::{clean_llm_output, cleaned, contains_line_break, has_line_break};
use crate::text::chars_of;

verus! {

#[derive(Clone, PartialEq, Eq, Debug)]
pub enum LlmInsertion {
    Insert(String),
    Empty,
    RefusedMultilineTerminal(String),
}

/// Cleans an answer and decides what becomes of it. Nothing that a terminal would run line
/// by line is let through to one.
#[must_use]
pub fn prepare_llm_insertion(raw: &str, is_terminal: bool) -> (result: LlmInsertion)
    ensures
        match result {
            LlmInsertion::Empty => cleaned(raw@).len() == 0,
            LlmInsertion::RefusedMultilineTerminal(text) => text@ == cleaned(raw@) && is_terminal
                && has_line_break(text@),
            LlmInsertion::Insert(text) => text@ == cleaned(raw@) && text@.len() > 0 && !(is_terminal
                && has_line_break(text@)),
        },
{
    let text = clean_llm_output(raw);
    let size: usize = chars_of(text.as_str()).len();
    if size == 0 {
        return LlmInsertion::Empty;
    }
    if is_terminal && contains_line_break(text.as_str()) {
        return LlmInsertion::RefusedMultilineTerminal(text);
    }
    LlmInsertion::Insert(text)
}

} // verus!
