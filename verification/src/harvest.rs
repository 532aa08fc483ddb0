//! The link harvester: turns fetched search-results markup into the ordered
//! list of candidate answer-page links.
//!
//! The harvester never fails hard: a caller whose search fetch failed simply
//! has no markup to hand in and proceeds with no links.  Links are the
//! `href` values of the result-link selector's matches, kept in the order
//! they appear in the markup, restricted to those under the Q&A site's
//! canonical origin (this defends against decorative or navigational links
//! matched by an overly broad selector).

use crate::scrape::Document;
use crate::scrape::sel_attr_values;
use crate::selectors::SelectorSet;
use crate::selectors::spec_link_selector;
use crate::url::spec_starts_with;
use vstd::prelude::*;

verus! {

/// The canonical origin of the Q&A site; only links underneath it are kept.
pub open spec fn spec_link_prefix() -> Seq<char> {
    "https://stackoverflow.com/"@
}

/// The links harvested from search-results markup: the `href` values of the
/// result-link matches, in markup order, restricted to the Q&A site.
pub open spec fn spec_harvest(markup: Seq<char>) -> Seq<Seq<char>> {
    sel_attr_values(markup, spec_link_selector(), "href"@).filter(
        |l: Seq<char>| spec_starts_with(l, spec_link_prefix()),
    )
}

/// Harvests the ordered candidate links from fetched search-results markup.
pub fn harvest_links(markup: String, sels: &SelectorSet) -> (links: Vec<String>)
    requires
        sels.wf(),
    ensures
        links.deep_view() == spec_harvest(markup@),
{
    let d = Document::parse(markup);
    let raw = d.attr_values(&sels.link, "href");
    let ghost pred = |l: Seq<char>| spec_starts_with(l, spec_link_prefix());
    let mut out: Vec<String> = Vec::new();
    let n = raw.len();
    let mut i: usize = 0;
    while i < n
        invariant
            n == raw@.len(),
            i <= n,
            raw.deep_view().len() == n,
            forall|j: int| 0 <= j < n ==> raw.deep_view()[j] == raw@[j]@,
            pred == (|l: Seq<char>| spec_starts_with(l, spec_link_prefix())),
            out.deep_view() == raw.deep_view().take(i as int).filter(pred),
        decreases n - i,
    {
        let keep = crate::url::starts_with_prefix(raw[i].as_str(), "https://stackoverflow.com/");
        proof {
            reveal(Seq::filter);
            let dv = raw.deep_view();
            let prefix = dv.take(i + 1);
            assert(prefix.drop_last() =~= dv.take(i as int));
            assert(prefix.last() == raw@[i as int]@);
            assert(keep == pred(dv[i as int]));
            if keep {
                assert(prefix.filter(pred) == dv.take(i as int).filter(pred).push(
                    raw@[i as int]@,
                ));
            } else {
                assert(prefix.filter(pred) == dv.take(i as int).filter(pred));
            }
        }
        if keep {
            let link = raw[i].clone();
            assert(link@ == raw@[i as int]@);
            out.push(link);
            proof {
                assert(out.deep_view() =~= raw.deep_view().take(i as int).filter(pred).push(
                    raw@[i as int]@,
                ));
            }
        }
        i += 1;
    }
    proof {
        assert(raw.deep_view().take(n as int) =~= raw.deep_view());
    }
    out
}

/// Every harvested link lies under the Q&A site's canonical origin.
pub proof fn lemma_harvested_links_on_site(markup: Seq<char>)
    ensures
        forall|i: int|
            0 <= i < spec_harvest(markup).len() ==> spec_starts_with(
                #[trigger] spec_harvest(markup)[i],
                spec_link_prefix(),
            ),
{
    let pred = |l: Seq<char>| spec_starts_with(l, spec_link_prefix());
    let raw = sel_attr_values(markup, spec_link_selector(), "href"@);
    assert forall|i: int| 0 <= i < spec_harvest(markup).len() implies spec_starts_with(
        #[trigger] spec_harvest(markup)[i],
        spec_link_prefix(),
    ) by {
        raw.lemma_filter_pred(pred, i);
    }
}

} // verus!
