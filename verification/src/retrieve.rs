//! The retrieval orchestrator: fans extraction work out over the harvested
//! links and re-serializes the completed extractions into harvest order.
//!
//! The caller performs the fetches.  [`Retrieval`] tells it which links are
//! launched (their extraction may run concurrently, in any order), accepts
//! each completion through [`Retrieval::complete_page`] whenever it finishes,
//! and hands results back through [`Retrieval::pull`] strictly in harvest
//! order.  Links beyond the prefetch window are launched one at a time, only
//! once the caller has consumed everything before them.  A link whose fetch
//! or extraction yielded no answer contributes no element; it never aborts
//! the other links.

use crate::Answer;
use crate::AnswerV;
use crate::extract::extract_answer;
use crate::extract::spec_extract;
use crate::extract::spec_opt_answer;
use crate::harvest::harvest_links;
use crate::harvest::spec_harvest;
use crate::selectors::SelectorSet;
use vstd::pervasive::VecAdditionalExecFns;
use vstd::prelude::*;

verus! {

/// The state of one harvest index in the re-sequencing buffer.
pub enum SlotState {
    /// Extraction has not completed (or, beyond `launched`, not started).
    Empty,
    /// Extraction completed with an answer, not yet delivered.
    Ready(Answer),
    /// Extraction completed without an answer: nothing to deliver.
    Blank,
    /// The answer was delivered to the caller.
    Delivered(Ghost<AnswerV>),
}

/// The mathematical value of a [`SlotState`].
#[verifier::ext_equal]
pub enum SlotV {
    Empty,
    Ready(AnswerV),
    Blank,
    Delivered(AnswerV),
}

impl View for SlotState {
    type V = SlotV;

    open spec fn view(&self) -> SlotV {
        match self {
            SlotState::Empty => SlotV::Empty,
            SlotState::Ready(a) => SlotV::Ready(a@),
            SlotState::Blank => SlotV::Blank,
            SlotState::Delivered(g) => SlotV::Delivered(g@),
        }
    }
}

impl DeepView for SlotState {
    type V = SlotV;

    open spec fn deep_view(&self) -> SlotV {
        self.view()
    }
}

impl SlotState {
    /// Whether this slot still awaits its completion.
    pub fn is_empty_slot(&self) -> (r: bool)
        ensures
            r == (self@ is Empty),
    {
        match self {
            SlotState::Empty => true,
            _ => false,
        }
    }
}

/// The per-link outcome a slot records: nothing yet, an answer, or a
/// completion without an answer.  Delivering an answer does not change the
/// outcome its slot records.
pub open spec fn slot_outcome(s: SlotV) -> Option<Option<AnswerV>> {
    match s {
        SlotV::Empty => None,
        SlotV::Ready(a) => Some(Some(a)),
        SlotV::Delivered(a) => Some(Some(a)),
        SlotV::Blank => Some(None),
    }
}

/// The per-link outcomes of a slot sequence.
pub open spec fn outcomes_of(slots: Seq<SlotV>) -> Seq<Option<Option<AnswerV>>> {
    slots.map_values(|s: SlotV| slot_outcome(s))
}

/// The answers among a sequence of per-link outcomes, in that order.
pub open spec fn somes_of(outcomes: Seq<Option<Option<AnswerV>>>) -> Seq<AnswerV>
    decreases outcomes.len(),
{
    if outcomes.len() == 0 {
        Seq::empty()
    } else {
        let rest = somes_of(outcomes.drop_last());
        match outcomes.last() {
            Some(Some(a)) => rest.push(a),
            _ => rest,
        }
    }
}

/// The mathematical value of a [`Retrieval`].
#[verifier::ext_equal]
pub struct RetrievalV {
    /// The harvested links, in harvest order.
    pub links: Seq<Seq<char>>,
    /// Indexes below this bound have their extraction launched.
    pub launched: nat,
    /// The re-sequencing buffer, keyed by harvest index.
    pub slots: Seq<SlotV>,
    /// The first harvest index not yet delivered or passed over.
    pub next_out: nat,
    /// Every answer handed to the caller so far, in delivery order.
    pub delivered: Seq<AnswerV>,
}

impl RetrievalV {
    /// The orchestrator's invariant.
    pub open spec fn wf(&self) -> bool {
        &&& self.slots.len() == self.links.len()
        &&& self.next_out <= self.launched <= self.links.len()
        &&& (forall|i: int|
            self.launched <= i < self.slots.len() ==> #[trigger] self.slots[i] is Empty)
        &&& (forall|i: int|
            0 <= i < self.next_out ==> !((#[trigger] self.slots[i]) is Empty) && !(self.slots[i]
                is Ready))
        &&& (forall|i: int|
            self.next_out <= i < self.slots.len() ==> !(#[trigger] self.slots[i] is Delivered))
        &&& (forall|i: int|
            0 <= i < self.slots.len() ==> match #[trigger] self.slots[i] {
                SlotV::Ready(a) => a.link == self.links[i],
                SlotV::Delivered(a) => a.link == self.links[i],
                _ => true,
            })
        &&& self.delivered == somes_of(outcomes_of(self.slots.take(self.next_out as int)))
    }
}

/// The retrieval orchestrator for one query.
pub struct Retrieval {
    links: Vec<String>,
    launched: usize,
    slots: Vec<SlotState>,
    next_out: usize,
    delivered: Ghost<Seq<AnswerV>>,
}

impl View for Retrieval {
    type V = RetrievalV;

    closed spec fn view(&self) -> RetrievalV {
        RetrievalV {
            links: self.links.deep_view(),
            launched: self.launched as nat,
            slots: self.slots.deep_view(),
            next_out: self.next_out as nat,
            delivered: self.delivered@,
        }
    }
}

impl Retrieval {
    /// The orchestrator's invariant.
    pub open spec fn wf(&self) -> bool {
        self@.wf()
    }

    /// Builds the orchestrator over the harvested links.  With no prefetch
    /// bound every link is launched immediately; with a bound `n`, the
    /// first `n` links are (all of them, when fewer than `n` were
    /// harvested), and the rest trickle as the caller consumes.
    pub fn new(links: Vec<String>, prefetch: Option<usize>) -> (r: Retrieval)
        ensures
            r.wf(),
            r@.links == links.deep_view(),
            r@.launched == match prefetch {
                Some(n) => if n < links.deep_view().len() {
                    n as nat
                } else {
                    links.deep_view().len()
                },
                None => links.deep_view().len(),
            },
            r@.next_out == 0,
            r@.delivered == Seq::<AnswerV>::empty(),
            forall|i: int| 0 <= i < r@.slots.len() ==> #[trigger] r@.slots[i] is Empty,
    {
        let n = links.len();
        let launched = match prefetch {
            Some(k) => if k < n {
                k
            } else {
                n
            },
            None => n,
        };
        let mut slots: Vec<SlotState> = Vec::new();
        let mut i: usize = 0;
        while i < n
            invariant
                i <= n,
                slots@.len() == i,
                forall|j: int| 0 <= j < i ==> (#[trigger] slots@[j]) is Empty,
            decreases n - i,
        {
            slots.push(SlotState::Empty);
            i += 1;
        }
        let r = Retrieval { links, launched, slots, next_out: 0, delivered: Ghost(Seq::empty()) };
        proof {
            assert forall|j: int| 0 <= j < r@.slots.len() implies #[trigger] r@.slots[j]
                is Empty by {
                assert(r@.slots[j] == slots@[j].deep_view());
            }
            assert(r@.slots.take(0) =~= Seq::<SlotV>::empty());
            assert(outcomes_of(Seq::<SlotV>::empty()) =~= Seq::<Option<Option<AnswerV>>>::empty());
        }
        r
    }

    /// How many links were harvested.
    pub fn link_count(&self) -> (n: usize)
        ensures
            n == self@.links.len(),
    {
        self.links.len()
    }

    /// How many links have their extraction launched.
    pub fn launch_count(&self) -> (n: usize)
        ensures
            n == self@.launched,
    {
        self.launched
    }

    /// The harvested link at one index.
    pub fn link_at(&self, i: usize) -> (l: String)
        requires
            i < self@.links.len(),
        ensures
            l@ == self@.links[i as int],
    {
        self.links[i].clone()
    }

    /// Whether the slot of one harvest index still awaits its completion.
    pub fn pending_at(&self, i: usize) -> (r: bool)
        requires
            self.wf(),
            i < self@.links.len(),
        ensures
            r == (self@.slots[i as int] is Empty),
    {
        proof {
            assert(self@.slots[i as int] == self.slots@[i as int].deep_view());
        }
        self.slots[i].is_empty_slot()
    }

    /// Records the completed extraction outcome for one launched link.
    /// Completions may arrive in any order; each lands in its own harvest
    /// slot and disturbs nothing else.
    pub fn complete(&mut self, i: usize, outcome: Option<Answer>)
        requires
            old(self).wf(),
            i < old(self)@.launched,
            old(self)@.slots[i as int] is Empty,
            outcome matches Some(a) ==> a@.link == old(self)@.links[i as int],
        ensures
            final(self).wf(),
            final(self)@.links == old(self)@.links,
            final(self)@.launched == old(self)@.launched,
            final(self)@.next_out == old(self)@.next_out,
            final(self)@.delivered == old(self)@.delivered,
            outcomes_of(final(self)@.slots) == outcomes_of(old(self)@.slots).update(
                i as int,
                Some(spec_opt_answer(outcome)),
            ),
    {
        let slot = match outcome {
            Some(a) => SlotState::Ready(a),
            None => SlotState::Blank,
        };
        let ghost sv = slot@;
        proof {
            assert(i < self.slots@.len());
        }
        self.slots.set(i, slot);
        proof {
            assert forall|j: int| 0 <= j < self.slots@.len() implies #[trigger] self.slots.deep_view()[j]
                == old(self).slots.deep_view().update(i as int, sv)[j] by {
                assert(self.slots.deep_view()[j] == self.slots@[j].deep_view());
                assert(old(self).slots.deep_view()[j] == old(self).slots@[j].deep_view());
            }
            assert(self.slots.deep_view() =~= old(self).slots.deep_view().update(i as int, sv));
            assert(i >= old(self)@.next_out);
            assert(self@.slots.take(self@.next_out as int) =~= old(self)@.slots.take(
                old(self)@.next_out as int,
            ));
            assert(outcomes_of(self@.slots) =~= outcomes_of(old(self)@.slots).update(
                i as int,
                Some(spec_opt_answer(outcome)),
            ));
        }
    }

    /// Records the result of fetching one launched link: the page body, or
    /// nothing when the transport failed.  A transport failure, like an
    /// extraction without a usable answer, contributes no element to the
    /// delivered sequence and never aborts the other links.
    pub fn complete_page(&mut self, i: usize, body: Option<String>, sels: &SelectorSet)
        requires
            sels.wf(),
            old(self).wf(),
            i < old(self)@.launched,
            old(self)@.slots[i as int] is Empty,
        ensures
            final(self).wf(),
            final(self)@.links == old(self)@.links,
            final(self)@.launched == old(self)@.launched,
            final(self)@.next_out == old(self)@.next_out,
            final(self)@.delivered == old(self)@.delivered,
            outcomes_of(final(self)@.slots) == outcomes_of(old(self)@.slots).update(
                i as int,
                Some(
                    match body {
                        Some(m) => spec_extract(old(self)@.links[i as int], m@),
                        None => None,
                    },
                ),
            ),
    {
        let outcome = match body {
            Some(m) => extract_answer(self.link_at(i), m, sels),
            None => None,
        };
        self.complete(i, outcome);
    }

    /// Hands the caller the next step, strictly in harvest order.
    pub fn pull(&mut self) -> (s: PullStep)
        requires
            old(self).wf(),
        ensures
            final(self).wf(),
            final(self)@.links == old(self)@.links,
            match s {
                PullStep::Done => {
                    &&& old(self)@.next_out == old(self)@.links.len()
                    &&& final(self)@ == old(self)@
                },
                PullStep::Deliver(a) => {
                    &&& old(self)@.next_out < old(self)@.links.len()
                    &&& old(self)@.slots[old(self)@.next_out as int] == SlotV::Ready(a@)
                    &&& a@.link == old(self)@.links[old(self)@.next_out as int]
                    &&& final(self)@.next_out == old(self)@.next_out + 1
                    &&& final(self)@.delivered == old(self)@.delivered.push(a@)
                    &&& final(self)@.launched == old(self)@.launched
                    &&& outcomes_of(final(self)@.slots) == outcomes_of(old(self)@.slots)
                },
                PullStep::Skip => {
                    &&& old(self)@.next_out < old(self)@.links.len()
                    &&& old(self)@.slots[old(self)@.next_out as int] == SlotV::Blank
                    &&& final(self)@.next_out == old(self)@.next_out + 1
                    &&& final(self)@.delivered == old(self)@.delivered
                    &&& final(self)@.launched == old(self)@.launched
                    &&& final(self)@.slots == old(self)@.slots
                },
                PullStep::Await(i) => {
                    &&& i == old(self)@.next_out
                    &&& i < old(self)@.launched
                    &&& old(self)@.slots[i as int] is Empty
                    &&& final(self)@ == old(self)@
                },
                PullStep::Launch(i) => {
                    &&& i == old(self)@.next_out
                    &&& i == old(self)@.launched
                    &&& i < old(self)@.links.len()
                    &&& old(self)@.slots[i as int] is Empty
                    &&& final(self)@.launched == old(self)@.launched + 1
                    &&& final(self)@.next_out == old(self)@.next_out
                    &&& final(self)@.delivered == old(self)@.delivered
                    &&& final(self)@.slots == old(self)@.slots
                },
            },
    {
        let n = self.links.len();
        let i = self.next_out;
        if i == n {
            return PullStep::Done;
        }
        proof {
            assert(self@.slots[i as int] == self.slots@[i as int].deep_view());
        }
        if self.slots[i].is_empty_slot() {
            if i < self.launched {
                return PullStep::Await(i);
            }
            self.launched = self.launched + 1;
            proof {
                assert(self@.slots.take(self@.next_out as int) =~= old(self)@.slots.take(
                    old(self)@.next_out as int,
                ));
            }
            return PullStep::Launch(i);
        }
        let mut slot = SlotState::Empty;
        self.slots.set_and_swap(i, &mut slot);
        match slot {
            SlotState::Ready(a) => {
                let ghost av = a@;
                self.slots.set(i, SlotState::Delivered(Ghost(av)));
                self.next_out = i + 1;
                self.delivered = Ghost(self.delivered@.push(av));
                proof {
                    lemma_slots_update(
                        old(self).slots,
                        self.slots,
                        i as int,
                        SlotV::Delivered(av),
                    );
                    let prev = old(self)@.slots.take(i as int);
                    let cur = self@.slots.take(i + 1);
                    assert(cur.drop_last() =~= prev);
                    assert(cur.last() == SlotV::Delivered(av));
                    assert(outcomes_of(cur).drop_last() =~= outcomes_of(prev));
                    assert(outcomes_of(cur).last() == Some(Some(av)));
                    assert(somes_of(outcomes_of(cur)) == somes_of(outcomes_of(prev)).push(av));
                    assert(outcomes_of(self@.slots) =~= outcomes_of(old(self)@.slots));
                }
                PullStep::Deliver(a)
            },
            SlotState::Blank => {
                self.slots.set(i, SlotState::Blank);
                self.next_out = i + 1;
                proof {
                    lemma_slots_update(old(self).slots, self.slots, i as int, SlotV::Blank);
                    assert(self@.slots =~= old(self)@.slots);
                    let prev = old(self)@.slots.take(i as int);
                    let cur = self@.slots.take(i + 1);
                    assert(cur.drop_last() =~= prev);
                    assert(cur.last() == SlotV::Blank);
                    assert(outcomes_of(cur).drop_last() =~= outcomes_of(prev));
                    assert(outcomes_of(cur).last() == Some(None::<AnswerV>));
                    assert(somes_of(outcomes_of(cur)) == somes_of(outcomes_of(prev)));
                }
                PullStep::Skip
            },
            SlotState::Empty => {
                proof {
                    assert(false);
                }
                PullStep::Done
            },
            SlotState::Delivered(_) => {
                proof {
                    assert(false);
                }
                PullStep::Done
            },
        }
    }
}

/// What one consumer pull yields.
pub enum PullStep {
    /// The next answer in harvest order.
    Deliver(Answer),
    /// The next link completed without an answer and is passed over.
    Skip,
    /// The next link's extraction is launched but has not completed: the
    /// caller must hand its completion in before pulling again.
    Await(usize),
    /// The next link's extraction is only now launched (the trickle
    /// continuation): the caller must fetch this link and hand its
    /// completion in before pulling again.
    Launch(usize),
    /// Every link was delivered or passed over.
    Done,
}

/// The deep view of a vector equals the old one with one index updated,
/// when only that index was set.
proof fn lemma_slots_update(prev: Vec<SlotState>, cur: Vec<SlotState>, i: int, v: SlotV)
    requires
        cur@.len() == prev@.len(),
        0 <= i < prev@.len(),
        cur@[i].deep_view() == v,
        forall|j: int| 0 <= j < prev@.len() && j != i ==> cur@[j] == prev@[j],
    ensures
        cur.deep_view() == prev.deep_view().update(i, v),
{
    assert forall|j: int| 0 <= j < prev@.len() implies #[trigger] cur.deep_view()[j]
        == prev.deep_view().update(i, v)[j] by {
        assert(cur.deep_view()[j] == cur@[j].deep_view());
        assert(prev.deep_view()[j] == prev@[j].deep_view());
    }
    assert(cur.deep_view() =~= prev.deep_view().update(i, v));
}

/// Stopping early is always clean: at every reachable state — in
/// particular when the caller stops consuming after any number of pulls —
/// the answers delivered so far are exactly those among the first
/// `next_out` per-link outcomes, in harvest order; the outstanding links
/// have contributed nothing.
pub proof fn lemma_early_stop_is_a_prefix(v: RetrievalV)
    requires
        v.wf(),
    ensures
        v.delivered == somes_of(outcomes_of(v.slots.take(v.next_out as int))),
{
}

/// Delivery order equals harvest order: once every link is delivered or
/// passed over, the delivered sequence is exactly the answers among the
/// per-link outcomes, in harvest order.
pub proof fn lemma_delivery_in_harvest_order(v: RetrievalV)
    requires
        v.wf(),
        v.next_out == v.links.len(),
    ensures
        v.delivered == somes_of(outcomes_of(v.slots)),
{
    assert(v.slots.take(v.next_out as int) =~= v.slots);
}

/// Delivery is independent of completion timing: two runs over the same
/// links whose extractions completed with the same per-link outcomes — in
/// whatever order, and under whatever prefetch window — deliver identical
/// sequences.
pub proof fn lemma_delivery_order_independent(v1: RetrievalV, v2: RetrievalV)
    requires
        v1.wf(),
        v2.wf(),
        v1.links == v2.links,
        outcomes_of(v1.slots) == outcomes_of(v2.slots),
        v1.next_out == v1.links.len(),
        v2.next_out == v2.links.len(),
    ensures
        v1.delivered == v2.delivered,
{
    lemma_delivery_in_harvest_order(v1);
    lemma_delivery_in_harvest_order(v2);
}

/// Completions commute: recording two different links' outcomes in either
/// order leaves the buffer with the same per-link outcomes.  Together with
/// the frame conditions of [`Retrieval::complete`] this makes the delivered
/// sequence independent of the order in which concurrent extractions finish.
pub proof fn lemma_completions_commute(
    o: Seq<Option<Option<AnswerV>>>,
    i: int,
    x: Option<Option<AnswerV>>,
    j: int,
    y: Option<Option<AnswerV>>,
)
    requires
        0 <= i < o.len(),
        0 <= j < o.len(),
        i != j,
    ensures
        o.update(i, x).update(j, y) == o.update(j, y).update(i, x),
{
    assert(o.update(i, x).update(j, y) =~= o.update(j, y).update(i, x));
}

proof fn lemma_somes_links_contained(slots: Seq<SlotV>, links: Seq<Seq<char>>, m: int)
    requires
        0 <= m <= slots.len(),
        slots.len() == links.len(),
        forall|i: int|
            0 <= i < slots.len() ==> match #[trigger] slots[i] {
                SlotV::Ready(a) => a.link == links[i],
                SlotV::Delivered(a) => a.link == links[i],
                _ => true,
            },
    ensures
        forall|k: int|
            0 <= k < somes_of(outcomes_of(slots.take(m))).len() ==> links.contains(
                #[trigger] somes_of(outcomes_of(slots.take(m)))[k].link,
            ),
    decreases m,
{
    if m > 0 {
        lemma_somes_links_contained(slots, links, m - 1);
        let prev = outcomes_of(slots.take(m - 1));
        let cur = outcomes_of(slots.take(m));
        assert(cur.drop_last() =~= prev);
        assert(cur.last() == slot_outcome(slots[m - 1]));
        assert forall|k: int| 0 <= k < somes_of(cur).len() implies links.contains(
            #[trigger] somes_of(cur)[k].link,
        ) by {
            if k < somes_of(prev).len() {
                assert(somes_of(cur)[k] == somes_of(prev)[k]);
            } else {
                assert(k == somes_of(prev).len());
                assert(somes_of(cur)[k].link == links[m - 1]);
            }
        }
    }
}

/// Every delivered answer carries the harvested link it was extracted
/// from: the delivered sequence never invents a source.
pub proof fn lemma_delivered_links_are_harvested(v: RetrievalV)
    requires
        v.wf(),
    ensures
        forall|k: int|
            0 <= k < v.delivered.len() ==> v.links.contains(#[trigger] v.delivered[k].link),
{
    lemma_somes_links_contained(v.slots, v.links, v.next_out as int);
}

/// A query that harvested no links yields an empty delivery, not an error.
pub proof fn lemma_no_links_no_answers(v: RetrievalV)
    requires
        v.wf(),
        v.links.len() == 0,
    ensures
        v.delivered == Seq::<AnswerV>::empty(),
        v.next_out == v.links.len(),
{
    assert(v.slots.take(v.next_out as int) =~= Seq::<SlotV>::empty());
    assert(outcomes_of(Seq::<SlotV>::empty()) =~= Seq::<Option<Option<AnswerV>>>::empty());
}

/// Answers a query: builds the orchestrator over the links harvested from
/// the fetched search-results markup, with extraction of every harvested
/// link launched immediately.
pub fn howto(search_page: String, sels: &SelectorSet) -> (r: Retrieval)
    requires
        sels.wf(),
    ensures
        r.wf(),
        r@.links == spec_harvest(search_page@),
        r@.launched == r@.links.len(),
        r@.next_out == 0,
        r@.delivered == Seq::<AnswerV>::empty(),
        forall|i: int| 0 <= i < r@.slots.len() ==> #[trigger] r@.slots[i] is Empty,
{
    let links = harvest_links(search_page, sels);
    Retrieval::new(links, None)
}

/// Answers a query with a bounded prefetch window: the first `n` harvested
/// links are launched immediately (all of them, when fewer than `n` were
/// harvested); the links beyond the window are launched one at a time,
/// only as the caller consumes everything before them.
pub fn prefetch_howto(search_page: String, sels: &SelectorSet, n: usize) -> (r: Retrieval)
    requires
        sels.wf(),
    ensures
        r.wf(),
        r@.links == spec_harvest(search_page@),
        r@.launched == if n < r@.links.len() {
            n as nat
        } else {
            r@.links.len()
        },
        r@.next_out == 0,
        r@.delivered == Seq::<AnswerV>::empty(),
        forall|i: int| 0 <= i < r@.slots.len() ==> #[trigger] r@.slots[i] is Empty,
{
    let links = harvest_links(search_page, sels);
    Retrieval::new(links, Some(n))
}

} // verus!
