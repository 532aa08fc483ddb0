//! The markup-parsing boundary: compiled CSS selectors, parsed documents,
//! and the selection queries the extraction logic asks of them.
//!
//! The parser and its selector-matching primitive are scraper's.  Each query
//! result is named by an uninterpreted function of the markup and selector
//! strings alone: scraper's parsing and matching are deterministic functions
//! of their textual inputs, so the same markup and selectors always give the
//! same result.

use vstd::prelude::*;

verus! {

#[verifier::external_type_specification]
#[verifier::external_body]
pub struct ExHtml(scraper::Html);

#[verifier::external_type_specification]
#[verifier::external_body]
pub struct ExSelector(scraper::Selector);

/// Whether scraper can compile this CSS selector string.
pub uninterp spec fn is_valid_selector(sel: Seq<char>) -> bool;

/// The values of attribute `attr` on the elements of `markup` matching the
/// CSS selector `sel`, in document order, elements without the attribute
/// skipped.
pub uninterp spec fn sel_attr_values(markup: Seq<char>, sel: Seq<char>, attr: Seq<char>) -> Seq<
    Seq<char>,
>;

/// Whether some element of `markup` matches the CSS selector `sel`.
pub uninterp spec fn sel_has_match(markup: Seq<char>, sel: Seq<char>) -> bool;

/// The concatenated text of the first element of `markup` matching `sel`.
pub uninterp spec fn sel_first_text(markup: Seq<char>, sel: Seq<char>) -> Seq<char>;

/// Whether the first element of `markup` matching `outer` has a descendant
/// matching `inner`.
pub uninterp spec fn sel_inner_has_match(markup: Seq<char>, outer: Seq<char>, inner: Seq<char>) -> bool;

/// The concatenated text of the first descendant matching `inner` of the
/// first element of `markup` matching `outer`.
pub uninterp spec fn sel_inner_first_text(
    markup: Seq<char>,
    outer: Seq<char>,
    inner: Seq<char>,
) -> Seq<char>;

/// The concatenated text, in document order, of all descendants matching
/// `inner` of the first element of `markup` matching `outer`.
pub uninterp spec fn sel_inner_all_text(
    markup: Seq<char>,
    outer: Seq<char>,
    inner: Seq<char>,
) -> Seq<char>;

/// A compiled CSS selector paired with the string it was compiled from.
/// Both fields are set only by [`Sel::parse`], so the compiled selector is
/// always the one scraper derives from `text` — which lets the query
/// contracts below speak of the selector string alone.
pub struct Sel {
    sel: scraper::Selector,
    text: String,
}

impl View for Sel {
    type V = Seq<char>;

    closed spec fn view(&self) -> Seq<char> {
        self.text@
    }
}

impl Sel {
    /// Relies on scraper's `Selector::parse`: whether a selector string
    /// compiles is a deterministic function of the string.
    #[verifier::external_body]
    pub(crate) fn parse(text: &str) -> (r: Option<Sel>)
        ensures
            r is Some <==> is_valid_selector(text@),
            r matches Some(s) ==> s@ == text@,
    {
        match scraper::Selector::parse(text) {
            Ok(sel) => Some(Sel { sel, text: text.to_owned() }),
            Err(_) => None,
        }
    }
}

/// A parsed HTML document paired with the markup it was parsed from.
/// Both fields are set only by [`Document::parse`], so the tree is always
/// the one scraper derives from `markup` — which lets the query contracts
/// below speak of the markup string alone.
pub struct Document {
    html: scraper::Html,
    markup: String,
}

impl View for Document {
    type V = Seq<char>;

    closed spec fn view(&self) -> Seq<char> {
        self.markup@
    }
}

impl Document {
    /// Relies on scraper's `Html::parse_document`: parsing never fails
    /// (parse errors are recorded inside the tree) and is a deterministic
    /// function of the markup.
    #[verifier::external_body]
    pub(crate) fn parse(markup: String) -> (d: Document)
        ensures
            d@ == markup@,
    {
        let html = scraper::Html::parse_document(&markup);
        Document { html, markup }
    }

    /// Relies on scraper's `Html::select` and `ElementRef::attr`: matching
    /// elements come in document order; `attr` returns the element's value
    /// for the named attribute, or nothing when the element lacks it.
    #[verifier::external_body]
    pub(crate) fn attr_values(&self, sel: &Sel, attr: &str) -> (r: Vec<String>)
        ensures
            r.deep_view() == sel_attr_values(self@, sel@, attr@),
    {
        self.html.select(&sel.sel).filter_map(|e| e.attr(attr)).map(|s| s.to_owned()).collect()
    }

    /// Relies on scraper's `Html::select`: whether any element of the
    /// document matches the selector.
    #[verifier::external_body]
    pub(crate) fn has_match(&self, sel: &Sel) -> (r: bool)
        ensures
            r == sel_has_match(self@, sel@),
    {
        self.html.select(&sel.sel).next().is_some()
    }

    /// Relies on scraper's `Html::select` and `ElementRef::text`: the text
    /// parts of the first matching element, concatenated in order.
    #[verifier::external_body]
    pub(crate) fn first_text(&self, sel: &Sel) -> (r: Option<String>)
        ensures
            r is Some <==> sel_has_match(self@, sel@),
            r matches Some(t) ==> t@ == sel_first_text(self@, sel@),
    {
        self.html.select(&sel.sel).next().map(|e| e.text().collect::<Vec<_>>().join(""))
    }

    /// Relies on scraper's `Html::select`, `ElementRef::select` and
    /// `ElementRef::text`: the first descendant of the first `outer` match
    /// that matches `inner`, and its concatenated text.
    #[verifier::external_body]
    pub(crate) fn inner_first_text(&self, outer: &Sel, inner: &Sel) -> (r: Option<String>)
        ensures
            r is Some <==> (sel_has_match(self@, outer@) && sel_inner_has_match(self@, outer@, inner@)),
            r matches Some(t) ==> t@ == sel_inner_first_text(self@, outer@, inner@),
    {
        match self.html.select(&outer.sel).next() {
            None => None,
            Some(el) => el.select(&inner.sel).next().map(
                |e| e.text().collect::<Vec<_>>().join(""),
            ),
        }
    }

    /// Relies on scraper's `Html::select`, `ElementRef::select` and
    /// `ElementRef::text`: the concatenated text of every descendant of the
    /// first `outer` match that matches `inner`, in document order.
    #[verifier::external_body]
    pub(crate) fn inner_all_text(&self, outer: &Sel, inner: &Sel) -> (r: Option<String>)
        ensures
            r is Some <==> sel_has_match(self@, outer@),
            r matches Some(t) ==> t@ == sel_inner_all_text(self@, outer@, inner@),
    {
        match self.html.select(&outer.sel).next() {
            None => None,
            Some(el) => Some(
                el.select(&inner.sel).flat_map(|e| e.text()).collect::<Vec<_>>().join(""),
            ),
        }
    }
}

} // verus!
