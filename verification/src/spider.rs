//! The crawl frontier and the decisions of the crawl loop.

use crate::requester::{request_views, RequestView, SimpleRequest};
use crate::text::string_views;
use vstd::hash_set::StringHashSet;
use vstd::prelude::*;

verus! {

/// The mathematical value of the frontier: the URLs ever accepted, and the
/// accepted requests that were not handed out yet, oldest first.
pub ghost struct Frontier {
    pub open: Seq<RequestView>,
    pub seen: Set<Seq<char>>,
}

impl Frontier {
    /// The frontier before anything was added.
    pub open spec fn empty() -> Frontier {
        Frontier { open: Seq::empty(), seen: Set::empty() }
    }

    /// Every open request was accepted, and no URL is open twice.
    pub open spec fn wf(self) -> bool {
        &&& forall|i: int| 0 <= i < self.open.len() ==> self.seen.contains(#[trigger] self.open[i].url)
        &&& forall|i: int, j: int|
            0 <= i < j < self.open.len() ==> #[trigger] self.open[i].url != #[trigger] self.open[j].url
    }

    /// Whether `add` accepts `r`: its URL was never accepted before.
    pub open spec fn accepts(self, r: RequestView) -> bool {
        !self.seen.contains(r.url)
    }

    /// The frontier after `add(r)`.
    pub open spec fn add(self, r: RequestView) -> Frontier {
        if self.accepts(r) {
            Frontier { open: self.open.push(r), seen: self.seen.insert(r.url) }
        } else {
            self
        }
    }

    /// The frontier after adding each of `rs` in order.
    pub open spec fn add_all(self, rs: Seq<RequestView>) -> Frontier
        decreases rs.len(),
    {
        if rs.len() == 0 {
            self
        } else {
            self.add_all(rs.drop_last()).add(rs.last())
        }
    }

    /// The request that `next` hands out, if any: the last one accepted
    /// among those still open.
    pub open spec fn peek(self) -> Option<RequestView> {
        if self.open.len() == 0 {
            None
        } else {
            Some(self.open.last())
        }
    }

    /// The frontier after `next`.
    pub open spec fn pop(self) -> Frontier {
        if self.open.len() == 0 {
            self
        } else {
            Frontier { open: self.open.drop_last(), seen: self.seen }
        }
    }
}

/// One use of the frontier.
pub ghost enum FrontierOp {
    Add(RequestView),
    Next,
}

/// No two requests of `requests` have the same URL.
pub open spec fn distinct_urls(requests: Seq<RequestView>) -> bool {
    forall|i: int, j: int|
        0 <= i < j < requests.len() ==> (#[trigger] requests[i]).url != (#[trigger] requests[j]).url
}

impl Frontier {
    /// The frontier after `ops`, with the requests that it handed out on the
    /// way, in order.
    pub open spec fn replay(self, ops: Seq<FrontierOp>) -> (Frontier, Seq<RequestView>)
        decreases ops.len(),
    {
        if ops.len() == 0 {
            (self, Seq::empty())
        } else {
            let (f, out) = self.replay(ops.drop_last());
            match ops.last() {
                FrontierOp::Add(r) => (f.add(r), out),
                FrontierOp::Next => match f.peek() {
                    Some(r) => (f.pop(), out.push(r)),
                    None => (f, out),
                },
            }
        }
    }

    /// A request whose URL was accepted before changes nothing, whatever its
    /// method, headers and body.
    pub proof fn seen_url_is_refused(self, r: RequestView)
        requires
            self.seen.contains(r.url),
        ensures
            self.add(r) == self,
    {
    }

    /// An accepted request is open exactly once and its URL is seen from
    /// then on; adding it again, in any form, changes nothing.
    pub proof fn accepted_once(self, r: RequestView, again: RequestView)
        requires
            self.wf(),
            again.url == r.url,
        ensures
            self.add(r).wf(),
            self.add(r).seen.contains(r.url),
            self.add(r).add(again) == self.add(r),
    {
    }

    /// Handing a request out forgets nothing: the URLs seen stay seen.
    pub proof fn pop_keeps_seen(self)
        requires
            self.wf(),
        ensures
            self.pop().wf(),
            self.pop().seen == self.seen,
    {
    }

    /// Deduplication. Over any history of additions and hand-outs, the
    /// requests handed out and those still open have pairwise distinct URLs,
    /// all of them seen, and no URL that was seen is ever forgotten: a URL
    /// is accepted at most once in the life of a frontier.
    pub proof fn dedup_over_any_history(self, ops: Seq<FrontierOp>)
        requires
            self.wf(),
        ensures
            ({
                let (f, out) = self.replay(ops);
                &&& f.wf()
                &&& self.seen.subset_of(f.seen)
                &&& distinct_urls(out + f.open)
                &&& forall|i: int| 0 <= i < out.len() ==> f.seen.contains(#[trigger] out[i].url)
            }),
        decreases ops.len(),
    {
        if ops.len() == 0 {
            assert(Seq::<RequestView>::empty() + self.open =~= self.open);
        } else {
            self.dedup_over_any_history(ops.drop_last());
            let (f, out) = self.replay(ops.drop_last());
            let (g, handed) = self.replay(ops);
            let old_all = out + f.open;
            let new_all = handed + g.open;
            match ops.last() {
                FrontierOp::Add(r) => {
                    if f.accepts(r) {
                        assert forall|i: int, j: int| 0 <= i < j < new_all.len() implies (#[trigger] new_all[i]).url
                            != (#[trigger] new_all[j]).url by {
                            if j < old_all.len() {
                                assert(new_all[i] == old_all[i]);
                                assert(new_all[j] == old_all[j]);
                            } else {
                                assert(new_all[j] == r);
                                if i < out.len() {
                                    assert(new_all[i] == out[i]);
                                } else {
                                    assert(new_all[i] == f.open[i - out.len()]);
                                }
                            }
                        }
                    }
                },
                FrontierOp::Next => {
                    if f.open.len() > 0 {
                        let n = out.len() as int;
                        let last = f.open.len() - 1;
                        // The request handed out moves from the end of the
                        // open requests to the end of those handed out.
                        let from = |i: int| if i < n { i } else if i == n { n + last } else { i - 1 };
                        assert forall|i: int| 0 <= i < new_all.len() implies #[trigger] new_all[i] == old_all[from(
                            i,
                        )] by {
                            if i > n {
                                assert(new_all[i] == f.open[i - n - 1]);
                            }
                        }
                        assert forall|i: int, j: int| 0 <= i < j < new_all.len() implies (#[trigger] new_all[i]).url
                            != (#[trigger] new_all[j]).url by {
                            assert(new_all[i] == old_all[from(i)]);
                            assert(new_all[j] == old_all[from(j)]);
                            if from(i) < from(j) {
                                assert(old_all[from(i)].url != old_all[from(j)].url);
                            } else {
                                assert(old_all[from(j)].url != old_all[from(i)].url);
                            }
                        }
                        assert forall|i: int| 0 <= i < handed.len() implies g.seen.contains(
                            #[trigger] handed[i].url,
                        ) by {
                            if i == n {
                                assert(handed[i] == f.open[last]);
                            }
                        }
                    }
                },
            }
        }
    }

    /// Last in, first out. The request accepted last is the one handed out
    /// next, and handing it out leaves the frontier's open requests as they
    /// were before it came.
    pub proof fn last_in_first_out(self, r: RequestView)
        requires
            self.accepts(r),
        ensures
            self.add(r).peek() == Some(r),
            self.add(r).pop().open == self.open,
    {
        assert(self.open.push(r).drop_last() =~= self.open);
    }

    /// `absorb` keeps the frontier well formed and forgets nothing; the
    /// requests that were open stay where they were, and what it opens
    /// besides them was never seen before.
    pub proof fn absorb_extends(self, found: Seq<RequestView>, accept: spec_fn(RequestView) -> bool)
        requires
            self.wf(),
        ensures
            self.absorb(found, accept).wf(),
            self.seen.subset_of(self.absorb(found, accept).seen),
            self.open.len() <= self.absorb(found, accept).open.len(),
            forall|j: int|
                0 <= j < self.open.len() ==> (#[trigger] self.absorb(found, accept).open[j]) == self.open[j],
            forall|j: int|
                self.open.len() <= j < self.absorb(found, accept).open.len() ==> !self.seen.contains(
                    (#[trigger] self.absorb(found, accept).open[j]).url,
                ),
        decreases found.len(),
    {
        if found.len() > 0 {
            self.absorb_extends(found.drop_last(), accept);
        }
    }

    /// What the filter refuses never enters the frontier: a URL that is
    /// seen after `absorb` was seen before it, or is the URL of a found
    /// request that the filter accepts.
    pub proof fn refused_never_enters(self, found: Seq<RequestView>, accept: spec_fn(RequestView) -> bool, url: Seq<char>)
        requires
            self.absorb(found, accept).seen.contains(url),
        ensures
            self.seen.contains(url) || exists|i: int|
                0 <= i < found.len() && accept(#[trigger] found[i]) && found[i].url == url,
        decreases found.len(),
    {
        if found.len() > 0 {
            let before = self.absorb(found.drop_last(), accept);
            if before.seen.contains(url) {
                self.refused_never_enters(found.drop_last(), accept, url);
                if !self.seen.contains(url) {
                    let i = choose|i: int|
                        0 <= i < found.drop_last().len() && accept(#[trigger] found.drop_last()[i])
                            && found.drop_last()[i].url == url;
                    assert(found[i] == found.drop_last()[i]);
                }
            } else {
                assert(accept(found[found.len() - 1]) && found[found.len() - 1].url == url);
            }
        }
    }

    /// What `absorb` lets in comes from the universe of the URLs that the
    /// filter can accept, so the room left in that universe shrinks by as
    /// much as the open requests grow.
    pub proof fn absorb_fills_universe(
        self,
        found: Seq<RequestView>,
        accept: spec_fn(RequestView) -> bool,
        universe: Set<Seq<char>>,
    )
        requires
            universe.finite(),
            forall|r: RequestView| accept(r) ==> universe.contains(r.url),
        ensures
            universe.difference(self.absorb(found, accept).seen).len() + self.absorb(found, accept).open.len()
                <= universe.difference(self.seen).len() + self.open.len(),
        decreases found.len(),
    {
        if found.len() > 0 {
            self.absorb_fills_universe(found.drop_last(), accept, universe);
            let before = self.absorb(found.drop_last(), accept);
            let r = found.last();
            if accept(r) && before.accepts(r) {
                universe.lemma_set_insert_diff_decreases(before.seen, r.url);
            }
        }
    }
}

/// The crawl frontier: a deduplicated last-in-first-out queue of requests.
pub struct SpiderState {
    open: Vec<SimpleRequest>,
    seen: StringHashSet,
}

impl View for SpiderState {
    type V = Frontier;

    closed spec fn view(&self) -> Frontier {
        Frontier { open: request_views(self.open@), seen: self.seen@ }
    }
}

impl SpiderState {
    /// A frontier seeded with `initial_requests`, added in order.
    pub fn new(initial_requests: Vec<SimpleRequest>) -> (s: SpiderState)
        ensures
            s@ == Frontier::empty().add_all(request_views(initial_requests@)),
            s@.wf(),
    {
        let mut s = SpiderState { open: Vec::new(), seen: StringHashSet::new() };
        assert(s@.open =~= Seq::empty());
        let ghost all = request_views(initial_requests@);
        assert(all.take(0) =~= Seq::empty());
        for r in it: initial_requests
            invariant
                it.seq() == initial_requests@,
                all == request_views(initial_requests@),
                s@ == Frontier::empty().add_all(all.take(it.index() as int)),
                s@.wf(),
        {
            assert(all.take(it.index() + 1).drop_last() =~= all.take(it.index() as int));
            assert(all.take(it.index() + 1).last() == r@);
            s.add(r);
        }
        assert(all.take(all.len() as int) =~= all);
        s
    }

    /// Accepts `r` unless its URL was accepted before; a refused request
    /// leaves the frontier as it was.
    pub fn add(&mut self, r: SimpleRequest)
        ensures
            final(self)@ == old(self)@.add(r@),
            old(self)@.wf() ==> final(self)@.wf(),
    {
        let ghost before = self@;
        let fresh = self.seen.insert(r.url.clone());
        if fresh {
            self.open.push(r);
            assert(self@.open =~= before.open.push(r@));
        } else {
            assert(self.seen@ =~= before.seen);
        }
    }

    /// Hands out the most recently accepted request that is still open.
    pub fn next(&mut self) -> (r: Option<SimpleRequest>)
        ensures
            final(self)@ == old(self)@.pop(),
            match r {
                Some(r) => old(self)@.peek() == Some(r@),
                None => old(self)@.peek() is None,
            },
            old(self)@.wf() ==> final(self)@.wf(),
    {
        let ghost before = self@;
        let r = self.open.pop();
        proof {
            if r is Some {
                assert(self@.open =~= before.open.drop_last());
            } else {
                assert(self@.open =~= before.open);
            }
        }
        r
    }

    /// Offers the frontier, in order, those of `found` that `filter` lets
    /// through.
    pub fn absorb<R: RequestFilter>(&mut self, found: Vec<SimpleRequest>, filter: &R)
        ensures
            final(self)@ == old(self)@.absorb(request_views(found@), accept_of(filter)),
            old(self)@.wf() ==> final(self)@.wf(),
    {
        let ghost before = self@;
        let ghost all = request_views(found@);
        assert(all.take(0) =~= Seq::empty());
        for r in it: found
            invariant
                it.seq() == found@,
                all == request_views(found@),
                self@ == before.absorb(all.take(it.index() as int), accept_of(filter)),
                before.wf() ==> self@.wf(),
        {
            assert(all.take(it.index() + 1).drop_last() =~= all.take(it.index() as int));
            assert(all.take(it.index() + 1).last() == r@);
            if filter.is_valid(&r) {
                self.add(r);
            }
        }
        assert(all.take(all.len() as int) =~= all);
    }

    /// Whether `url` was ever accepted.
    pub fn has_seen(&self, url: &str) -> (b: bool)
        ensures
            b == self@.seen.contains(url@),
    {
        self.seen.contains(url)
    }

    /// How many requests are open.
    pub fn len(&self) -> (n: usize)
        ensures
            n == self@.open.len(),
    {
        self.open.len()
    }

    /// Whether no request is open.
    pub fn is_empty(&self) -> (b: bool)
        ensures
            b == (self@.open.len() == 0),
    {
        self.open.is_empty()
    }
}

/// The predicate that decides which discovered requests enter the frontier.
/// Seeds are never put to it.
pub trait RequestFilter {
    /// The predicate itself: a function of the request alone.
    spec fn accepts(&self, request: RequestView) -> bool;

    fn is_valid(&self, request: &SimpleRequest) -> (b: bool)
        ensures
            b == self.accepts(request@),
    ;
}

/// The predicate of `filter` as a function.
pub open spec fn accept_of<R: RequestFilter>(filter: &R) -> spec_fn(RequestView) -> bool {
    |r: RequestView| filter.accepts(r)
}

/// Why a unit of work failed.
#[derive(Clone, Copy, Debug, PartialEq, Eq, Structural)]
pub enum Failure {
    /// The network exchange failed. The unit is dropped and the crawl goes on.
    Transport,
    /// A cache entry could not be read or written. The crawl is abandoned.
    CacheIO,
    /// No layout, or more than one, matched the page. The crawl is abandoned.
    Classification,
}

impl Failure {
    /// Whether a failure of this kind ends the whole crawl.
    pub open spec fn is_fatal(self) -> bool {
        self != Failure::Transport
    }

    pub fn fatal(&self) -> (b: bool)
        ensures
            b == self.is_fatal(),
    {
        match self {
            Failure::Transport => false,
            Failure::CacheIO => true,
            Failure::Classification => true,
        }
    }
}

/// What the caller observed of one in-flight unit.
#[derive(Debug)]
pub enum Outcome {
    /// The unit is still running.
    Pending,
    /// The unit finished and discovered these requests.
    Done(Vec<SimpleRequest>),
    /// The unit finished without a result.
    Failed(Failure),
}

/// The mathematical value of an [`Outcome`].
pub ghost enum OutcomeView {
    Pending,
    Done(Seq<RequestView>),
    Failed(Failure),
}

impl View for Outcome {
    type V = OutcomeView;

    open spec fn view(&self) -> OutcomeView {
        match self {
            Outcome::Pending => OutcomeView::Pending,
            Outcome::Done(found) => OutcomeView::Done(request_views(found@)),
            Outcome::Failed(f) => OutcomeView::Failed(*f),
        }
    }
}

/// The views of a sequence of outcomes, in order.
pub open spec fn outcome_views(outcomes: Seq<Outcome>) -> Seq<OutcomeView> {
    outcomes.map_values(|o: Outcome| o@)
}

/// The outcome reported for the in-flight unit at `i`: a unit that the
/// caller reported nothing of is still running.
pub open spec fn outcome_at(outcomes: Seq<OutcomeView>, i: int) -> OutcomeView {
    if 0 <= i < outcomes.len() {
        outcomes[i]
    } else {
        OutcomeView::Pending
    }
}

/// What the caller does after a harvest.
#[derive(Debug)]
pub enum Control {
    /// Work was done: run the next iteration at once.
    Continue,
    /// Nothing moved: wait a moment before the next iteration.
    Sleep,
    /// Nothing is open and nothing is in flight: the crawl is over.
    Stop,
    /// The unit fetching `url` failed in a way that ends the crawl.
    Abort { url: String, failure: Failure },
}

/// The mathematical value of a [`Control`].
pub ghost enum ControlView {
    Continue,
    Sleep,
    Stop,
    Abort { url: Seq<char>, failure: Failure },
}

impl View for Control {
    type V = ControlView;

    open spec fn view(&self) -> ControlView {
        match self {
            Control::Continue => ControlView::Continue,
            Control::Sleep => ControlView::Sleep,
            Control::Stop => ControlView::Stop,
            Control::Abort { url, failure } => ControlView::Abort { url: url@, failure: *failure },
        }
    }
}

impl Frontier {
    /// The frontier after offering it, in order, those of `found` that
    /// `accept` lets through.
    pub open spec fn absorb(self, found: Seq<RequestView>, accept: spec_fn(RequestView) -> bool) -> Frontier
        decreases found.len(),
    {
        if found.len() == 0 {
            self
        } else {
            let before = self.absorb(found.drop_last(), accept);
            if accept(found.last()) {
                before.add(found.last())
            } else {
                before
            }
        }
    }
}

/// Where a harvest stands after some of the in-flight units were looked at.
pub ghost struct Harvest {
    /// The frontier, with what the finished units discovered.
    pub frontier: Frontier,
    /// The URLs of the units that are still running, in their old order.
    pub retained: Seq<Seq<char>>,
    /// How many units had finished.
    pub finished: nat,
    /// The first unit that failed fatally, if any.
    pub fatal: Option<(Seq<char>, Failure)>,
}

/// The mathematical value of the crawl engine.
pub ghost struct Crawl {
    pub frontier: Frontier,
    /// The URLs of the units in flight, in the order of their dispatch.
    pub in_flight: Seq<Seq<char>>,
    /// Whether the running iteration has moved anything yet.
    pub stepped: bool,
}

impl Crawl {
    /// The requests that a drain dispatches: every open request, the most
    /// recently accepted first.
    pub open spec fn dispatched(self) -> Seq<RequestView> {
        self.frontier.open.reverse()
    }

    /// The engine after a drain.
    pub open spec fn drain(self) -> Crawl {
        Crawl {
            frontier: Frontier { open: Seq::empty(), seen: self.frontier.seen },
            in_flight: self.in_flight + self.dispatched().map_values(|r: RequestView| r.url),
            stepped: self.frontier.open.len() > 0,
        }
    }

    /// The harvest after the first `k` in-flight units were looked at, in
    /// the order of their dispatch.
    pub open spec fn harvest_prefix(
        self,
        outcomes: Seq<OutcomeView>,
        accept: spec_fn(RequestView) -> bool,
        k: nat,
    ) -> Harvest
        decreases k,
    {
        if k == 0 {
            Harvest { frontier: self.frontier, retained: Seq::empty(), finished: 0, fatal: None }
        } else {
            let h = self.harvest_prefix(outcomes, accept, (k - 1) as nat);
            let url = self.in_flight[k - 1];
            match outcome_at(outcomes, k - 1) {
                OutcomeView::Pending => Harvest { retained: h.retained.push(url), ..h },
                OutcomeView::Done(found) => Harvest {
                    frontier: h.frontier.absorb(found, accept),
                    finished: h.finished + 1,
                    ..h
                },
                OutcomeView::Failed(failure) => Harvest {
                    finished: h.finished + 1,
                    fatal: if h.fatal is None && failure.is_fatal() {
                        Some((url, failure))
                    } else {
                        h.fatal
                    },
                    ..h
                },
            }
        }
    }

    /// The harvest of all in-flight units.
    pub open spec fn harvested(self, outcomes: Seq<OutcomeView>, accept: spec_fn(RequestView) -> bool) -> Harvest {
        self.harvest_prefix(outcomes, accept, self.in_flight.len())
    }

    /// The engine after a harvest.
    pub open spec fn harvest(self, outcomes: Seq<OutcomeView>, accept: spec_fn(RequestView) -> bool) -> Crawl {
        let h = self.harvested(outcomes, accept);
        Crawl { frontier: h.frontier, in_flight: h.retained, stepped: self.stepped || h.finished > 0 }
    }

    /// Whether the crawl is over: nothing is open and nothing is in flight.
    pub open spec fn quiescent(self) -> bool {
        self.in_flight.len() == 0 && self.frontier.open.len() == 0
    }

    /// What a harvest tells the caller to do next.
    pub open spec fn verdict(self, outcomes: Seq<OutcomeView>, accept: spec_fn(RequestView) -> bool) -> ControlView {
        let h = self.harvested(outcomes, accept);
        let after = self.harvest(outcomes, accept);
        match h.fatal {
            Some((url, failure)) => ControlView::Abort { url, failure },
            None => if after.quiescent() {
                ControlView::Stop
            } else if after.stepped {
                ControlView::Continue
            } else {
                ControlView::Sleep
            },
        }
    }
}

impl Crawl {
    /// The engine is well formed: its frontier is, every unit in flight
    /// fetches a URL that was seen, no two units fetch the same URL, and no
    /// URL in flight is open as well.
    pub open spec fn wf(self) -> bool {
        &&& self.frontier.wf()
        &&& forall|i: int| 0 <= i < self.in_flight.len() ==> self.frontier.seen.contains(#[trigger] self.in_flight[i])
        &&& forall|i: int, j: int|
            0 <= i < j < self.in_flight.len() ==> #[trigger] self.in_flight[i] != #[trigger] self.in_flight[j]
        &&& forall|i: int, j: int|
            0 <= i < self.in_flight.len() && 0 <= j < self.frontier.open.len() ==> #[trigger] self.in_flight[i]
                != (#[trigger] self.frontier.open[j]).url
    }

    /// A drain keeps the engine well formed: every request dispatched is
    /// one that no unit in flight is fetching.
    pub proof fn drain_keeps_wf(self)
        requires
            self.wf(),
        ensures
            self.drain().wf(),
    {
        let d = self.drain();
        let n = self.in_flight.len() as int;
        let m = self.frontier.open.len() as int;
        assert forall|i: int| 0 <= i < d.in_flight.len() implies d.frontier.seen.contains(
            #[trigger] d.in_flight[i],
        ) by {
            if i >= n {
                assert(d.in_flight[i] == self.frontier.open[m - 1 - (i - n)].url);
            }
        }
        assert forall|i: int, j: int| 0 <= i < j < d.in_flight.len() implies #[trigger] d.in_flight[i]
            != #[trigger] d.in_flight[j] by {
            if j >= n {
                assert(d.in_flight[j] == self.frontier.open[m - 1 - (j - n)].url);
                if i >= n {
                    assert(d.in_flight[i] == self.frontier.open[m - 1 - (i - n)].url);
                } else {
                    assert(d.in_flight[i] == self.in_flight[i]);
                }
            }
        }
    }

    /// The units that a harvest retains are units that were in flight, in
    /// their old order.
    proof fn retained_are_in_flight(
        self,
        outcomes: Seq<OutcomeView>,
        accept: spec_fn(RequestView) -> bool,
        k: nat,
    ) -> (from: Seq<int>)
        requires
            self.wf(),
            k <= self.in_flight.len(),
        ensures
            ({
                let h = self.harvest_prefix(outcomes, accept, k);
                &&& from.len() == h.retained.len()
                &&& forall|i: int| 0 <= i < from.len() ==> 0 <= #[trigger] from[i] < k
                &&& forall|i: int, j: int| 0 <= i < j < from.len() ==> #[trigger] from[i] < #[trigger] from[j]
                &&& forall|i: int| 0 <= i < from.len() ==> #[trigger] h.retained[i] == self.in_flight[from[i]]
                &&& h.frontier.wf()
                &&& self.frontier.seen.subset_of(h.frontier.seen)
                &&& self.frontier.open.len() <= h.frontier.open.len()
                &&& forall|j: int|
                    0 <= j < self.frontier.open.len() ==> (#[trigger] h.frontier.open[j]) == self.frontier.open[j]
                &&& forall|j: int|
                    self.frontier.open.len() <= j < h.frontier.open.len() ==> !self.frontier.seen.contains(
                        (#[trigger] h.frontier.open[j]).url,
                    )
            }),
        decreases k,
    {
        if k == 0 {
            Seq::empty()
        } else {
            let before = self.retained_are_in_flight(outcomes, accept, (k - 1) as nat);
            let h = self.harvest_prefix(outcomes, accept, (k - 1) as nat);
            match outcome_at(outcomes, k - 1) {
                OutcomeView::Pending => before.push(k - 1),
                OutcomeView::Done(found) => {
                    h.frontier.absorb_extends(found, accept);
                    before
                },
                OutcomeView::Failed(_) => before,
            }
        }
    }

    /// A harvest keeps the engine well formed: what it opens was never seen
    /// before, so no unit is fetching it.
    pub proof fn harvest_keeps_wf(self, outcomes: Seq<OutcomeView>, accept: spec_fn(RequestView) -> bool)
        requires
            self.wf(),
        ensures
            self.harvest(outcomes, accept).wf(),
            self.frontier.seen.subset_of(self.harvest(outcomes, accept).frontier.seen),
    {
        let from = self.retained_are_in_flight(outcomes, accept, self.in_flight.len());
        let after = self.harvest(outcomes, accept);
        assert forall|i: int| 0 <= i < after.in_flight.len() implies after.frontier.seen.contains(
            #[trigger] after.in_flight[i],
        ) by {
            assert(self.frontier.seen.contains(self.in_flight[from[i]]));
        }
        assert forall|i: int, j: int| 0 <= i < j < after.in_flight.len() implies #[trigger] after.in_flight[i]
            != #[trigger] after.in_flight[j] by {
            assert(from[i] < from[j]);
        }
        assert forall|i: int, j: int|
            0 <= i < after.in_flight.len() && 0 <= j < after.frontier.open.len() implies #[trigger] after.in_flight[i]
            != (#[trigger] after.frontier.open[j]).url by {
            assert(self.frontier.seen.contains(self.in_flight[from[i]]));
            if j < self.frontier.open.len() {
                assert(after.frontier.open[j] == self.frontier.open[j]);
            }
        }
    }

    /// The work that the crawl may still have to do, counted against a
    /// finite universe of the URLs that the filter can accept: two for each
    /// URL of the universe not seen yet and for each open request (its
    /// dispatch and its harvest), one for each unit in flight (its harvest).
    pub open spec fn backlog(self, universe: Set<Seq<char>>) -> nat {
        2 * universe.difference(self.frontier.seen).len() + 2 * self.frontier.open.len()
            + self.in_flight.len()
    }

    /// One iteration of the crawl loop: a drain, then a harvest.
    pub open spec fn iterate(self, outcomes: Seq<OutcomeView>, accept: spec_fn(RequestView) -> bool) -> Crawl {
        self.drain().harvest(outcomes, accept)
    }

    /// The engine after one iteration for each entry of `schedule`, which
    /// holds what the caller observed in that iteration.
    pub open spec fn run(self, schedule: Seq<Seq<OutcomeView>>, accept: spec_fn(RequestView) -> bool) -> Crawl
        decreases schedule.len(),
    {
        if schedule.len() == 0 {
            self
        } else {
            self.run(schedule.drop_last(), accept).iterate(schedule.last(), accept)
        }
    }

    /// How many iterations of `schedule` moved anything: dispatched a
    /// request or harvested a unit.
    pub open spec fn busy_iterations(
        self,
        schedule: Seq<Seq<OutcomeView>>,
        accept: spec_fn(RequestView) -> bool,
    ) -> nat
        decreases schedule.len(),
    {
        if schedule.len() == 0 {
            0
        } else {
            let before = self.run(schedule.drop_last(), accept);
            let busy: nat = if before.iterate(schedule.last(), accept).stepped {
                1
            } else {
                0
            };
            self.busy_iterations(schedule.drop_last(), accept) + busy
        }
    }

    /// A drain turns each open request into a unit in flight.
    pub proof fn drain_shrinks_backlog(self, universe: Set<Seq<char>>)
        ensures
            self.drain().backlog(universe) + self.frontier.open.len() == self.backlog(universe),
            self.drain().stepped == (self.frontier.open.len() > 0),
    {
    }

    /// Each unit that a harvest finds finished takes one off the backlog,
    /// whatever it discovered.
    pub proof fn harvest_shrinks_backlog(
        self,
        outcomes: Seq<OutcomeView>,
        accept: spec_fn(RequestView) -> bool,
        universe: Set<Seq<char>>,
    )
        requires
            universe.finite(),
            forall|r: RequestView| accept(r) ==> universe.contains(r.url),
        ensures
            self.harvest(outcomes, accept).backlog(universe) + self.harvested(outcomes, accept).finished
                <= self.backlog(universe),
    {
        self.harvest_prefix_shrinks_backlog(outcomes, accept, universe, self.in_flight.len());
    }

    proof fn harvest_prefix_shrinks_backlog(
        self,
        outcomes: Seq<OutcomeView>,
        accept: spec_fn(RequestView) -> bool,
        universe: Set<Seq<char>>,
        k: nat,
    )
        requires
            universe.finite(),
            forall|r: RequestView| accept(r) ==> universe.contains(r.url),
        ensures
            ({
                let h = self.harvest_prefix(outcomes, accept, k);
                &&& 2 * universe.difference(h.frontier.seen).len() + 2 * h.frontier.open.len()
                    <= 2 * universe.difference(self.frontier.seen).len() + 2 * self.frontier.open.len()
                &&& h.retained.len() + h.finished == k
            }),
        decreases k,
    {
        if k > 0 {
            self.harvest_prefix_shrinks_backlog(outcomes, accept, universe, (k - 1) as nat);
            let h = self.harvest_prefix(outcomes, accept, (k - 1) as nat);
            match outcome_at(outcomes, k - 1) {
                OutcomeView::Done(found) => {
                    h.frontier.absorb_fills_universe(found, accept, universe);
                },
                _ => {},
            }
        }
    }

    /// An iteration that moved nothing changed nothing: it only waited for
    /// the units in flight.
    pub proof fn idle_iteration_changes_nothing(
        self,
        outcomes: Seq<OutcomeView>,
        accept: spec_fn(RequestView) -> bool,
    )
        requires
            !self.iterate(outcomes, accept).stepped,
        ensures
            self.iterate(outcomes, accept).frontier == self.frontier,
            self.iterate(outcomes, accept).in_flight == self.in_flight,
    {
        let d = self.drain();
        assert(d.in_flight =~= self.in_flight);
        assert(d.frontier.open =~= self.frontier.open);
        d.nothing_finished(outcomes, accept, d.in_flight.len());
        assert(d.in_flight.take(d.in_flight.len() as int) =~= d.in_flight);
    }

    proof fn nothing_finished(self, outcomes: Seq<OutcomeView>, accept: spec_fn(RequestView) -> bool, k: nat)
        requires
            k <= self.in_flight.len(),
            self.harvest_prefix(outcomes, accept, k).finished == 0,
        ensures
            self.harvest_prefix(outcomes, accept, k).frontier == self.frontier,
            self.harvest_prefix(outcomes, accept, k).retained == self.in_flight.take(k as int),
        decreases k,
    {
        if k > 0 {
            self.nothing_finished(outcomes, accept, (k - 1) as nat);
            assert(self.in_flight.take(k as int) =~= self.in_flight.take(k - 1).push(self.in_flight[k - 1]));
        } else {
            assert(self.in_flight.take(0) =~= Seq::empty());
        }
    }

    /// A crawl that is told to sleep is waiting: nothing is open, and at
    /// least one unit is in flight.
    pub proof fn sleep_is_a_wait(self, outcomes: Seq<OutcomeView>, accept: spec_fn(RequestView) -> bool)
        requires
            self.drain().verdict(outcomes, accept) == ControlView::Sleep,
        ensures
            self.iterate(outcomes, accept).frontier.open.len() == 0,
            self.iterate(outcomes, accept).in_flight.len() > 0,
    {
        self.idle_iteration_changes_nothing(outcomes, accept);
    }

    /// A crawl that is over stays over.
    pub proof fn quiescent_is_terminal(self, outcomes: Seq<OutcomeView>, accept: spec_fn(RequestView) -> bool)
        requires
            self.quiescent(),
        ensures
            self.iterate(outcomes, accept).quiescent(),
            self.drain().verdict(outcomes, accept) == ControlView::Stop,
    {
        let d = self.drain();
        assert(d.in_flight =~= Seq::empty());
    }

    /// Termination. Let the filter accept only URLs of a finite universe
    /// (a finite link graph, or a filter that in the end refuses every new
    /// link). Then, whatever the units report and whenever they finish, no
    /// more iterations move anything than the backlog at the start allows:
    /// every further iteration is a wait for units in flight, and once
    /// those have finished the crawl is quiescent.
    pub proof fn busy_iterations_are_bounded(
        self,
        schedule: Seq<Seq<OutcomeView>>,
        accept: spec_fn(RequestView) -> bool,
        universe: Set<Seq<char>>,
    )
        requires
            universe.finite(),
            forall|r: RequestView| accept(r) ==> universe.contains(r.url),
        ensures
            self.busy_iterations(schedule, accept) + self.run(schedule, accept).backlog(universe)
                <= self.backlog(universe),
        decreases schedule.len(),
    {
        if schedule.len() > 0 {
            self.busy_iterations_are_bounded(schedule.drop_last(), accept, universe);
            let before = self.run(schedule.drop_last(), accept);
            before.drain_shrinks_backlog(universe);
            before.drain().harvest_shrinks_backlog(schedule.last(), accept, universe);
        }
    }
}

/// The crawl engine: the frontier and the units of work in flight. It makes
/// the decisions of the crawl loop; the caller spawns the units, watches
/// them and sleeps.
pub struct Spider {
    state: SpiderState,
    open_requests: Vec<String>,
    stepped: bool,
}

impl View for Spider {
    type V = Crawl;

    closed spec fn view(&self) -> Crawl {
        Crawl { frontier: self.state@, in_flight: string_views(self.open_requests@), stepped: self.stepped }
    }
}

impl Spider {
    /// An engine whose frontier holds the seeds, with nothing in flight.
    pub fn new(initial: Vec<SimpleRequest>) -> (s: Spider)
        ensures
            s@ == (Crawl {
                frontier: Frontier::empty().add_all(request_views(initial@)),
                in_flight: Seq::empty(),
                stepped: false,
            }),
            s@.wf(),
    {
        let s = Spider { state: SpiderState::new(initial), open_requests: Vec::new(), stepped: false };
        assert(s@.in_flight =~= Seq::empty());
        s
    }

    /// The first step of an iteration: hands out every open request, the
    /// most recently accepted first, and counts each as in flight. The
    /// caller starts one unit of work for each, in this order.
    pub fn drain(&mut self) -> (dispatched: Vec<SimpleRequest>)
        ensures
            request_views(dispatched@) == old(self)@.dispatched(),
            final(self)@ == old(self)@.drain(),
            old(self)@.wf() ==> final(self)@.wf(),
    {
        let ghost before = self@;
        let mut dispatched: Vec<SimpleRequest> = Vec::new();
        self.stepped = false;
        assert(request_views(dispatched@) =~= Seq::empty());
        assert(self@.in_flight =~= before.in_flight + request_views(dispatched@).map_values(|r: RequestView| r.url));
        assert(before.frontier.open.skip(before.frontier.open.len() as int).reverse() =~= Seq::empty());
        assert(before.frontier.open.take(before.frontier.open.len() as int) =~= before.frontier.open);
        loop
            invariant
                self@.frontier.seen == before.frontier.seen,
                self@.frontier.open.len() <= before.frontier.open.len(),
                self@.frontier.open == before.frontier.open.take(self@.frontier.open.len() as int),
                request_views(dispatched@) == before.frontier.open.skip(self@.frontier.open.len() as int).reverse(),
                self@.in_flight == before.in_flight + request_views(dispatched@).map_values(|r: RequestView| r.url),
                self@.stepped == (dispatched@.len() > 0),
            ensures
                self@.frontier.open.len() == 0,
            decreases self@.frontier.open.len(),
        {
            let ghost here = self@;
            let ghost sent = request_views(dispatched@);
            match self.state.next() {
                Some(r) => {
                    self.stepped = true;
                    self.open_requests.push(r.url.clone());
                    dispatched.push(r);
                    proof {
                        let n = here.frontier.open.len() as int;
                        assert(self@.frontier.open =~= before.frontier.open.take(n - 1));
                        assert(request_views(dispatched@) =~= sent.push(r@));
                        assert(before.frontier.open.skip(n - 1).reverse() =~= before.frontier.open.skip(
                            n,
                        ).reverse().push(before.frontier.open[n - 1]));
                        assert(self@.in_flight =~= here.in_flight.push(r@.url));
                        assert(request_views(dispatched@).map_values(|r: RequestView| r.url) =~= sent.map_values(
                            |r: RequestView| r.url,
                        ).push(r@.url));
                    }
                },
                None => {
                    break ;
                },
            }
        }
        proof {
            assert(before.frontier.open.skip(0) =~= before.frontier.open);
            assert(self@.frontier.open =~= Seq::empty());
            if before.wf() {
                before.drain_keeps_wf();
            }
        }
        dispatched
    }

    /// The second step of an iteration. `outcomes` holds what the caller
    /// observed of each in-flight unit, in the order of dispatch; a unit
    /// without an entry counts as still running, and entries beyond the
    /// units in flight are ignored. Finished units leave the engine; what
    /// they discovered passes `filter` and enters the frontier, unit by unit
    /// in the order of dispatch. A transport failure only drops its unit.
    /// The result says how the loop goes on.
    pub fn harvest<R: RequestFilter>(&mut self, outcomes: Vec<Outcome>, filter: &R) -> (control: Control)
        ensures
            final(self)@ == old(self)@.harvest(outcome_views(outcomes@), accept_of(filter)),
            control@ == old(self)@.verdict(outcome_views(outcomes@), accept_of(filter)),
            old(self)@.wf() ==> final(self)@.wf(),
    {
        let ghost before = self@;
        let ghost views = outcome_views(outcomes@);
        let ghost accept = accept_of(filter);
        let n = self.open_requests.len();
        let mut retained: Vec<String> = Vec::new();
        let mut finished_any = false;
        let mut fatal: Option<(String, Failure)> = None;
        let mut k: usize = 0;
        assert(string_views(retained@) =~= Seq::empty());
        for outcome in it: outcomes
            invariant
                it.seq() == outcomes@,
                views == outcome_views(outcomes@),
                n == before.in_flight.len(),
                self@.in_flight == before.in_flight,
                self@.stepped == before.stepped,
                k as int == if it.index() <= n { it.index() as int } else { n as int },
                ({
                    let h = before.harvest_prefix(views, accept_of(filter), k as nat);
                    &&& self@.frontier == h.frontier
                    &&& string_views(retained@) == h.retained
                    &&& finished_any == (h.finished > 0)
                    &&& match fatal {
                        Some((url, failure)) => h.fatal == Some((url@, failure)),
                        None => h.fatal is None,
                    }
                }),
        {
            if k < n {
                let ghost h = before.harvest_prefix(views, accept_of(filter), k as nat);
                let ghost kept = string_views(retained@);
                assert(outcome_at(views, k as int) == outcome@);
                match outcome {
                    Outcome::Pending => {
                        retained.push(self.open_requests[k].clone());
                        assert(string_views(retained@) =~= kept.push(before.in_flight[k as int]));
                    },
                    Outcome::Done(found) => {
                        finished_any = true;
                        self.state.absorb(found, filter);
                    },
                    Outcome::Failed(failure) => {
                        finished_any = true;
                        if fatal.is_none() && failure.fatal() {
                            fatal = Some((self.open_requests[k].clone(), failure));
                        }
                    },
                }
                k += 1;
            }
        }
        while k < n
            invariant
                views == outcome_views(outcomes@),
                n == before.in_flight.len(),
                self@.in_flight == before.in_flight,
                self@.stepped == before.stepped,
                k <= n,
                k == n || outcomes@.len() <= k,
                ({
                    let h = before.harvest_prefix(views, accept_of(filter), k as nat);
                    &&& self@.frontier == h.frontier
                    &&& string_views(retained@) == h.retained
                    &&& finished_any == (h.finished > 0)
                    &&& match fatal {
                        Some((url, failure)) => h.fatal == Some((url@, failure)),
                        None => h.fatal is None,
                    }
                }),
            decreases n - k,
        {
            let ghost kept = string_views(retained@);
            retained.push(self.open_requests[k].clone());
            assert(string_views(retained@) =~= kept.push(before.in_flight[k as int]));
            k += 1;
        }
        self.open_requests = retained;
        self.stepped = self.stepped || finished_any;
        proof {
            if before.wf() {
                before.harvest_keeps_wf(views, accept_of(filter));
            }
        }
        match fatal {
            Some((url, failure)) => Control::Abort { url, failure },
            None => if self.is_quiescent() {
                Control::Stop
            } else if self.stepped {
                Control::Continue
            } else {
                Control::Sleep
            },
        }
    }

    /// Whether nothing is open and nothing is in flight.
    pub fn is_quiescent(&self) -> (b: bool)
        ensures
            b == self@.quiescent(),
    {
        self.open_requests.is_empty() && self.state.is_empty()
    }

    /// Whether `url` was ever accepted: as a seed, or as a discovered
    /// request that the filter let through.
    pub fn has_seen(&self, url: &str) -> (b: bool)
        ensures
            b == self@.frontier.seen.contains(url@),
    {
        self.state.has_seen(url)
    }

    /// How many units are in flight.
    pub fn in_flight(&self) -> (n: usize)
        ensures
            n == self@.in_flight.len(),
    {
        self.open_requests.len()
    }
}

} // verus!
