//! Instant coding answers from a Q&A site.
//!
//! The library turns a natural-language programming query into an ordered
//! sequence of [`Answer`] values.  It builds the site-restricted search URL,
//! harvests candidate answer-page links from the fetched search-results
//! markup, extracts a structured answer from each fetched answer page, and
//! re-serializes concurrently completed extractions into harvest order.
//!
//! All network traffic is the caller's: the caller fetches each URL the
//! library asks for and hands the body (or its absence, on a transport
//! failure) back to the library.  A failed or empty extraction yields no
//! element in the delivered sequence; it never aborts the remaining links.

use vstd::prelude::*;

pub mod extract;
pub mod harvest;
pub mod retrieve;
pub mod scrape;
pub mod selectors;
pub mod url;

verus! {

/// One extracted answer.
///
/// `question_title` is absent when the page has no title heading (tolerated:
/// a title-less but otherwise well-formed answer is still useful output).
/// `instruction` is absent when the answer block has neither a preformatted
/// code element nor an inline code element; such an answer is kept only when
/// `full_text` is non-empty.
#[derive(Debug, Clone)]
pub struct Answer {
    pub question_title: Option<String>,
    pub link: String,
    pub full_text: String,
    pub instruction: Option<String>,
}

/// The mathematical value of an [`Answer`]: every text field as a sequence
/// of characters.
#[verifier::ext_equal]
pub struct AnswerV {
    pub question_title: Option<Seq<char>>,
    pub link: Seq<char>,
    pub full_text: Seq<char>,
    pub instruction: Option<Seq<char>>,
}

impl DeepView for Answer {
    type V = AnswerV;

    open spec fn deep_view(&self) -> AnswerV {
        self.view()
    }
}

impl View for Answer {
    type V = AnswerV;

    open spec fn view(&self) -> AnswerV {
        AnswerV {
            question_title: match self.question_title {
                Some(t) => Some(t@),
                None => None,
            },
            link: self.link@,
            full_text: self.full_text@,
            instruction: match self.instruction {
                Some(t) => Some(t@),
                None => None,
            },
        }
    }
}

} // verus!
