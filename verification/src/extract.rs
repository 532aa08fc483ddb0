//! The answer extractor: turns one fetched answer page into a structured
//! [`Answer`], or nothing when the page has no usable answer.
//!
//! Policy, applied uniformly:
//! - no answer block on the page: no answer (the page may be a redirect or a
//!   closed question; this is not an error);
//! - the instruction is the text of the first preformatted code element of
//!   the answer block, else of the first inline code element, else absent;
//! - the full text is the concatenated text of the block's narrative
//!   paragraphs;
//! - an answer without an instruction is kept only when its full text is
//!   non-empty;
//! - a missing title heading is tolerated: the title is simply absent.

use crate::Answer;
use crate::AnswerV;
use crate::scrape::Document;
use crate::scrape::sel_first_text;
use crate::scrape::sel_has_match;
use crate::scrape::sel_inner_all_text;
use crate::scrape::sel_inner_first_text;
use crate::scrape::sel_inner_has_match;
use crate::selectors::SelectorSet;
use crate::selectors::spec_answer_selector;
use crate::selectors::spec_code_selector;
use crate::selectors::spec_pre_selector;
use crate::selectors::spec_text_selector;
use crate::selectors::spec_title_selector;
use vstd::prelude::*;

verus! {

/// The instruction extracted from a page: the text of the first
/// preformatted code element of the answer block, else of the first inline
/// code element, else absent.
pub open spec fn spec_instruction(markup: Seq<char>) -> Option<Seq<char>> {
    if sel_inner_has_match(markup, spec_answer_selector(), spec_pre_selector()) {
        Some(sel_inner_first_text(markup, spec_answer_selector(), spec_pre_selector()))
    } else if sel_inner_has_match(markup, spec_answer_selector(), spec_code_selector()) {
        Some(sel_inner_first_text(markup, spec_answer_selector(), spec_code_selector()))
    } else {
        None
    }
}

/// The full text extracted from a page: the concatenated text of the
/// narrative paragraphs of the answer block.
pub open spec fn spec_full_text(markup: Seq<char>) -> Seq<char> {
    sel_inner_all_text(markup, spec_answer_selector(), spec_text_selector())
}

/// The title extracted from a page, absent when the page has no title
/// heading.
pub open spec fn spec_title(markup: Seq<char>) -> Option<Seq<char>> {
    if sel_has_match(markup, spec_title_selector()) {
        Some(sel_first_text(markup, spec_title_selector()))
    } else {
        None
    }
}

/// What extraction yields for a link and the markup fetched for it: a
/// complete answer, or nothing when the page has no answer block or the
/// block has neither an instruction nor any paragraph text.
pub open spec fn spec_extract(link: Seq<char>, markup: Seq<char>) -> Option<AnswerV> {
    if !sel_has_match(markup, spec_answer_selector()) {
        None
    } else if spec_instruction(markup) is None && spec_full_text(markup).len() == 0 {
        None
    } else {
        Some(
            AnswerV {
                question_title: spec_title(markup),
                link: link,
                full_text: spec_full_text(markup),
                instruction: spec_instruction(markup),
            },
        )
    }
}

/// The view of a possibly-absent answer.
pub open spec fn spec_opt_answer(r: Option<Answer>) -> Option<AnswerV> {
    match r {
        Some(a) => Some(a@),
        None => None,
    }
}

/// Extracts the answer from one fetched answer page.
pub fn extract_answer(link: String, markup: String, sels: &SelectorSet) -> (r: Option<Answer>)
    requires
        sels.wf(),
    ensures
        spec_opt_answer(r) == spec_extract(link@, markup@),
{
    let ghost m = markup@;
    let d = Document::parse(markup);
    if !d.has_match(&sels.answer) {
        return None;
    }
    let instruction = match d.inner_first_text(&sels.answer, &sels.pre_code) {
        Some(t) => Some(t),
        None => d.inner_first_text(&sels.answer, &sels.inline_code),
    };
    let full_text = match d.inner_all_text(&sels.answer, &sels.text) {
        Some(t) => t,
        None => {
            proof {
                assert(false);
            }
            String::new()
        },
    };
    if instruction.is_none() && full_text.as_str().is_empty() {
        return None;
    }
    let question_title = d.first_text(&sels.title);
    let r = Answer { question_title, link, full_text, instruction };
    proof {
        assert(r@ =~= spec_extract(r.link@, m)->Some_0);
    }
    Some(r)
}

/// Extraction yields a complete answer or nothing, never a partial one:
/// every extracted answer carries the link it was extracted from, and has
/// an instruction or a non-empty full text (or both) — never neither.
pub proof fn lemma_extraction_is_complete(link: Seq<char>, markup: Seq<char>)
    ensures
        spec_extract(link, markup) matches Some(a) ==> a.link == link && (a.instruction is Some
            || a.full_text.len() > 0),
{
}

/// A text-only best answer is kept: when the answer block exists and has
/// neither a preformatted nor an inline code element, but its paragraph
/// text is non-empty, extraction yields an answer whose instruction is
/// absent and whose full text is exactly that non-empty paragraph text.
pub proof fn lemma_text_only_answer(link: Seq<char>, markup: Seq<char>)
    requires
        sel_has_match(markup, spec_answer_selector()),
        !sel_inner_has_match(markup, spec_answer_selector(), spec_pre_selector()),
        !sel_inner_has_match(markup, spec_answer_selector(), spec_code_selector()),
        spec_full_text(markup).len() > 0,
    ensures
        spec_extract(link, markup) matches Some(a) && a.instruction is None && a.full_text
            == spec_full_text(markup) && a.full_text.len() > 0,
{
}

} // verus!
