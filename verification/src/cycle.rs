//! One scheduler cycle: every subscription of a snapshot is crawled and
//! handled in turn, then the state is saved and the scheduler is idle again.
//!
//! The caller does the outside work. It asks `advance` what to do, does it,
//! and reports what a fetch returned before it asks again.

use vstd::prelude::*;
use crate::crawl::{after_body, after_failure, after_page, pending, started, Crawl, CrawlView};
use crate::dispatch::{
    after_cycle, delivered, notifications_for, Dispatcher, Notification, PipelineState,
};
use crate::extract::{Extractor, Page, PageView, SelectorSet};
use crate::registry::Subscription;

verus! {

/// What the caller is to do next.
#[derive(Clone, Debug, PartialEq, Eq)]
pub enum Action {
    /// Fetch the page at this address, and report the body or the failure.
    Fetch(String),
    /// Hand these messages to the notifier, one task each, and ask again.
    Deliver(Vec<Notification>),
    /// Every subscription has been handled: save the state. The scheduler
    /// is idle.
    Persist,
}

/// An action in contracts.
pub ghost enum ActionView {
    Fetch(Seq<char>),
    Deliver(Seq<(i64, Seq<char>)>),
    Persist,
}

impl View for Action {
    type V = ActionView;

    open spec fn view(&self) -> ActionView {
        match self {
            Action::Fetch(address) => ActionView::Fetch(address@),
            Action::Deliver(messages) => ActionView::Deliver(messages.deep_view()),
            Action::Persist => ActionView::Persist,
        }
    }
}

/// A cycle in contracts.
pub ghost struct CycleView {
    /// The subscriptions of the snapshot, in the order they are handled.
    pub queue: Seq<(i64, Seq<char>)>,
    /// How many of them have been handled.
    pub position: nat,
    /// The crawl of the subscription at `position`.
    pub crawl: CrawlView,
    /// The page limit of each crawl.
    pub limit: nat,
}

/// Whether the cycle has a subscription left to handle. A cycle that is not
/// running is idle.
pub open spec fn is_running(cycle: CycleView) -> bool {
    cycle.position < cycle.queue.len()
}

/// The crawl with which the subscription at `position` starts: for a
/// position past the end, a crawl that fetches nothing.
pub open spec fn crawl_at(queue: Seq<(i64, Seq<char>)>, position: nat, limit: nat) -> CrawlView {
    if position < queue.len() {
        started(queue[position as int].1, limit)
    } else {
        started(Seq::empty(), 0)
    }
}

/// A cycle over `queue` that has handled nothing yet.
pub open spec fn begun(queue: Seq<(i64, Seq<char>)>, limit: nat) -> CycleView {
    CycleView { queue, position: 0, crawl: crawl_at(queue, 0, limit), limit }
}

/// Whether the crawl of the current subscription has finished, so that the
/// next step handles its result.
pub open spec fn is_handing_over(cycle: CycleView) -> bool {
    is_running(cycle) && pending(cycle.crawl) is None
}

/// What `advance` asks of the caller.
pub open spec fn action_of(cycle: CycleView, state: PipelineState) -> ActionView {
    if !is_running(cycle) {
        ActionView::Persist
    } else if pending(cycle.crawl) is Some {
        ActionView::Fetch(pending(cycle.crawl)->0)
    } else {
        let (subscriber, url) = cycle.queue[cycle.position as int];
        ActionView::Deliver(
            notifications_for(subscriber, delivered(state, subscriber, url, cycle.crawl.listings)),
        )
    }
}

/// The cycle after `advance`: it moves to the next subscription when the
/// crawl of the current one has finished, and stays as it is otherwise.
pub open spec fn cycle_after_advance(cycle: CycleView) -> CycleView {
    if is_handing_over(cycle) {
        CycleView {
            queue: cycle.queue,
            position: cycle.position + 1,
            crawl: crawl_at(cycle.queue, cycle.position + 1, cycle.limit),
            limit: cycle.limit,
        }
    } else {
        cycle
    }
}

/// The pipeline state after `advance`: the result of a finished crawl is
/// handled for its subscription.
pub open spec fn state_after_advance(cycle: CycleView, state: PipelineState) -> PipelineState {
    if is_handing_over(cycle) {
        let (subscriber, url) = cycle.queue[cycle.position as int];
        after_cycle(state, subscriber, url, cycle.crawl.listings)
    } else {
        state
    }
}

/// The cycle after a fetch has returned `page`. An idle cycle ignores it.
pub open spec fn cycle_after_page(cycle: CycleView, page: PageView) -> CycleView {
    if is_running(cycle) {
        CycleView { crawl: after_page(cycle.crawl, page), ..cycle }
    } else {
        cycle
    }
}

/// The cycle after a fetch has returned `body`: the page that the body
/// stands for is taken in, and a body too long to be parsed counts as a
/// failed fetch. An idle cycle ignores it.
pub open spec fn cycle_after_body(
    cycle: CycleView,
    body: Seq<char>,
    selectors: SelectorSet,
) -> CycleView {
    if is_running(cycle) {
        CycleView { crawl: after_body(cycle.crawl, body, selectors), ..cycle }
    } else {
        cycle
    }
}

/// The cycle after a fetch has failed: the crawl of the current
/// subscription ends with what it has. An idle cycle ignores it.
pub open spec fn cycle_after_failure(cycle: CycleView) -> CycleView {
    if is_running(cycle) {
        CycleView { crawl: after_failure(cycle.crawl), ..cycle }
    } else {
        cycle
    }
}

/// The state of one scheduler cycle.
pub struct Cycle {
    queue: Vec<Subscription>,
    position: usize,
    crawl: Crawl,
    limit: usize,
}

impl View for Cycle {
    type V = CycleView;

    closed spec fn view(&self) -> CycleView {
        CycleView {
            queue: self.queue.deep_view(),
            position: self.position as nat,
            crawl: self.crawl@,
            limit: self.limit as nat,
        }
    }
}

/// The crawl with which the subscription at `position` of `queue` starts.
fn crawl_for(queue: &Vec<Subscription>, position: usize, limit: usize) -> (crawl: Crawl)
    ensures
        crawl@ == crawl_at(queue.deep_view(), position as nat, limit as nat),
{
    if position < queue.len() {
        Crawl::with_limit(queue[position].url.as_str(), limit)
    } else {
        let idle = Crawl::with_limit("", 0);
        proof {
            reveal_strlit("");
            assert(""@ =~= Seq::<char>::empty());
        }
        idle
    }
}

impl Cycle {
    /// Starts a cycle over the subscriptions of `snapshot`, each crawl
    /// fetching at most `limit` pages.
    pub fn start(snapshot: Vec<Subscription>, limit: usize) -> (cycle: Cycle)
        ensures
            cycle@ == begun(snapshot.deep_view(), limit as nat),
    {
        let crawl = crawl_for(&snapshot, 0, limit);
        Cycle { queue: snapshot, position: 0, crawl, limit }
    }

    /// Whether every subscription has been handled.
    pub fn is_idle(&self) -> (idle: bool)
        ensures
            idle == !is_running(self@),
    {
        self.position >= self.queue.len()
    }

    /// Says what to do next.
    ///
    /// While the crawl of the current subscription wants a page, that page
    /// is to be fetched, and nothing changes. Once the crawl has finished,
    /// whether or not a fetch failed, its result is handled by `dispatcher`,
    /// the messages to deliver are returned, and the cycle moves on to the
    /// next subscription. When none is left the state is to be saved.
    pub fn advance(&mut self, dispatcher: &mut Dispatcher) -> (action: Action)
        ensures
            action@ == action_of(old(self)@, old(dispatcher)@),
            final(self)@ == cycle_after_advance(old(self)@),
            final(dispatcher)@ == state_after_advance(old(self)@, old(dispatcher)@),
    {
        if self.position >= self.queue.len() {
            return Action::Persist;
        }
        match self.crawl.pending() {
            Some(address) => Action::Fetch(address),
            None => {
                let subscriber = self.queue[self.position].subscriber;
                let mut finished = crawl_for(&self.queue, self.position + 1, self.limit);
                std::mem::swap(&mut finished, &mut self.crawl);
                let listings = finished.into_listings();
                let messages = dispatcher.process(
                    subscriber,
                    self.queue[self.position].url.as_str(),
                    &listings,
                );
                self.position = self.position + 1;
                Action::Deliver(messages)
            },
        }
    }

    /// Takes in the page that the fetch returned.
    pub fn page_extracted(&mut self, page: Page)
        ensures
            final(self)@ == cycle_after_page(old(self)@, page@),
    {
        if self.position < self.queue.len() {
            self.crawl.absorb(page);
        }
    }

    /// Takes in the body that the fetch returned: the page that it stands
    /// for is extracted and taken in. A body too long to be parsed ends the
    /// crawl of the current subscription as a failed fetch does.
    pub fn page_fetched(&mut self, extractor: &Extractor, body: &str)
        ensures
            final(self)@ == cycle_after_body(old(self)@, body@, extractor@),
    {
        if self.position < self.queue.len() {
            self.crawl.page_fetched(extractor, body);
        }
    }

    /// Records that the fetch failed.
    pub fn fetch_failed(&mut self)
        ensures
            final(self)@ == cycle_after_failure(old(self)@),
    {
        if self.position < self.queue.len() {
            self.crawl.fetch_failed();
        }
    }
}

/// How many fetches the crawl may still make.
pub open spec fn fetches_left(crawl: CrawlView) -> nat {
    if crawl.fetched <= crawl.limit {
        (crawl.limit - crawl.fetched) as nat
    } else {
        0
    }
}

/// An upper bound on the number of answered fetches and handed-over
/// results that separate the cycle from idling.
pub open spec fn steps_left(cycle: CycleView) -> nat {
    if is_running(cycle) {
        ((cycle.queue.len() - cycle.position - 1) * (cycle.limit + 1) + fetches_left(cycle.crawl)
            + 1) as nat
    } else {
        0
    }
}

/// The cycle always comes back to idle: it is idle exactly when no step is
/// left, every answer to a fetch that was asked for takes a step off, the
/// page and the body as well as the failure, and so does every result
/// handed over.
pub proof fn lemma_cycle_ends(
    cycle: CycleView,
    page: PageView,
    body: Seq<char>,
    selectors: SelectorSet,
)
    ensures
        steps_left(cycle) == 0 <==> !is_running(cycle),
        is_running(cycle) && pending(cycle.crawl) is Some ==> steps_left(
            cycle_after_page(cycle, page),
        ) < steps_left(cycle) && steps_left(cycle_after_failure(cycle)) < steps_left(cycle)
            && steps_left(cycle_after_body(cycle, body, selectors)) < steps_left(cycle),
        is_handing_over(cycle) ==> steps_left(cycle_after_advance(cycle)) < steps_left(cycle),
{
    if is_running(cycle) {
        let rest = cycle.queue.len() - cycle.position - 1;
        let width = cycle.limit + 1;
        if is_handing_over(cycle) {
            let next = cycle_after_advance(cycle);
            if is_running(next) {
                assert((rest - 1) * width + width == rest * width) by (nonlinear_arith);
            }
        }
    }
}

/// Every subscription of the snapshot is handled once, in order: no step
/// changes the queue, answers to fetches leave the position where it is,
/// and `advance` moves it by one exactly when it hands a result over, which
/// it does for the subscription at the position.
pub proof fn lemma_one_turn_each(
    cycle: CycleView,
    state: PipelineState,
    page: PageView,
    body: Seq<char>,
    selectors: SelectorSet,
)
    ensures
        cycle_after_page(cycle, page).queue == cycle.queue,
        cycle_after_page(cycle, page).position == cycle.position,
        cycle_after_body(cycle, body, selectors).queue == cycle.queue,
        cycle_after_body(cycle, body, selectors).position == cycle.position,
        cycle_after_failure(cycle).queue == cycle.queue,
        cycle_after_failure(cycle).position == cycle.position,
        cycle_after_advance(cycle).queue == cycle.queue,
        cycle_after_advance(cycle).position == if is_handing_over(cycle) {
            cycle.position + 1
        } else {
            cycle.position
        },
        action_of(cycle, state) is Deliver <==> is_handing_over(cycle),
        !is_handing_over(cycle) ==> state_after_advance(cycle, state) == state,
{
}

/// One failing search does not abort the cycle for the others: after a
/// failed fetch the queue is what it was, the result gathered so far is
/// handed over at the next step, and the cycle goes on to the subscription
/// that follows.
pub proof fn lemma_failure_is_contained(cycle: CycleView, state: PipelineState)
    requires
        is_running(cycle),
        pending(cycle.crawl) is Some,
    ensures
        cycle_after_failure(cycle).queue == cycle.queue,
        cycle_after_failure(cycle).position == cycle.position,
        cycle_after_failure(cycle).crawl.listings == cycle.crawl.listings,
        is_handing_over(cycle_after_failure(cycle)),
        cycle_after_advance(cycle_after_failure(cycle)) == (CycleView {
            queue: cycle.queue,
            position: cycle.position + 1,
            crawl: crawl_at(cycle.queue, cycle.position + 1, cycle.limit),
            limit: cycle.limit,
        }),
        state_after_advance(cycle_after_failure(cycle), state) == after_cycle(
            state,
            cycle.queue[cycle.position as int].0,
            cycle.queue[cycle.position as int].1,
            cycle.crawl.listings,
        ),
{
}

} // verus!
