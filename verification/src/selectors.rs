//! The structural selectors of the extraction policy, compiled once into a
//! read-only [`SelectorSet`] and passed by reference to every fetch.

use crate::scrape::Sel;
use crate::scrape::is_valid_selector;
use vstd::prelude::*;

verus! {

/// The selector for the question's title heading.
pub open spec fn spec_title_selector() -> Seq<char> {
    "#question-header>h1"@
}

/// The selector for an answer block.
pub open spec fn spec_answer_selector() -> Seq<char> {
    ".answer"@
}

/// The selector for the narrative paragraphs of an answer block; code
/// elements are not paragraphs and are excluded.
pub open spec fn spec_text_selector() -> Seq<char> {
    ".post-text>p"@
}

/// The selector for a preformatted code element.
pub open spec fn spec_pre_selector() -> Seq<char> {
    "pre"@
}

/// The selector for an inline code element.
pub open spec fn spec_code_selector() -> Seq<char> {
    "code"@
}

/// The selector for a result link on the search page.
pub open spec fn spec_link_selector() -> Seq<char> {
    ".r>a"@
}

/// The compiled structural selectors, built once per process and reused
/// across all fetches.
pub struct SelectorSet {
    pub title: Sel,
    pub answer: Sel,
    pub text: Sel,
    pub pre_code: Sel,
    pub inline_code: Sel,
    pub link: Sel,
}

impl SelectorSet {
    /// Each compiled selector was compiled from its fixed string.
    pub open spec fn wf(&self) -> bool {
        &&& self.title@ == spec_title_selector()
        &&& self.answer@ == spec_answer_selector()
        &&& self.text@ == spec_text_selector()
        &&& self.pre_code@ == spec_pre_selector()
        &&& self.inline_code@ == spec_code_selector()
        &&& self.link@ == spec_link_selector()
    }

    /// Whether every structural selector string compiles.
    pub open spec fn all_selectors_valid() -> bool {
        &&& is_valid_selector(spec_title_selector())
        &&& is_valid_selector(spec_answer_selector())
        &&& is_valid_selector(spec_text_selector())
        &&& is_valid_selector(spec_pre_selector())
        &&& is_valid_selector(spec_code_selector())
        &&& is_valid_selector(spec_link_selector())
    }

    /// Compiles the six structural selectors; yields nothing exactly when
    /// some selector string fails to compile.
    pub fn new() -> (r: Option<SelectorSet>)
        ensures
            r matches Some(s) ==> s.wf(),
            r is Some <==> Self::all_selectors_valid(),
    {
        let title = match Sel::parse("#question-header>h1") {
            Some(s) => s,
            None => {
                return None;
            },
        };
        let answer = match Sel::parse(".answer") {
            Some(s) => s,
            None => {
                return None;
            },
        };
        let text = match Sel::parse(".post-text>p") {
            Some(s) => s,
            None => {
                return None;
            },
        };
        let pre_code = match Sel::parse("pre") {
            Some(s) => s,
            None => {
                return None;
            },
        };
        let inline_code = match Sel::parse("code") {
            Some(s) => s,
            None => {
                return None;
            },
        };
        let link = match Sel::parse(".r>a") {
            Some(s) => s,
            None => {
                return None;
            },
        };
        Some(SelectorSet { title, answer, text, pre_code, inline_code, link })
    }
}

} // verus!
