//! Collecting a listing that a provider hands out page by page.
//!
//! The caller sends the requests; `PageFetch` says which page to ask for
//! next, takes each answer, and knows when the listing is complete.

use vstd::prelude::*;

verus! {

/// The number of items a provider is asked for per page. A page with fewer
/// items is the last one.
pub const PAGE_SIZE: usize = 100;

/// A listing failed: the request, the status or the decoding of one page.
#[derive(Clone, Debug, PartialEq)]
pub struct ProviderFetchError {
    pub page: usize,
    pub reason: String,
}

/// The progress of one listing as plain values.
pub struct FetchState {
    pub items: Seq<String>,
    pub requests: nat,
    pub finished: bool,
    pub failed: bool,
}

/// Before the first request.
pub open spec fn fetch_start() -> FetchState {
    FetchState { items: Seq::empty(), requests: 0, finished: false, failed: false }
}

/// The answer to one more request arrived: its items are appended, and a
/// page below the page size ends the listing. A finished listing takes no
/// more pages.
pub open spec fn receive_page(state: FetchState, page: Seq<String>) -> FetchState {
    if state.finished {
        state
    } else {
        FetchState {
            items: state.items + page,
            requests: state.requests + 1,
            finished: page.len() < PAGE_SIZE,
            failed: false,
        }
    }
}

/// One more request was made and failed: the listing ends as failed.
pub open spec fn receive_failure(state: FetchState) -> FetchState {
    if state.finished {
        state
    } else {
        FetchState { items: state.items, requests: state.requests + 1, finished: true, failed: true }
    }
}

/// The state after `pages` arrived one after the other.
pub open spec fn receive_pages(state: FetchState, pages: Seq<Seq<String>>) -> FetchState
    decreases pages.len(),
{
    if pages.len() == 0 {
        state
    } else {
        receive_page(receive_pages(state, pages.drop_last()), pages.last())
    }
}

/// All items of `pages`, page after page.
pub open spec fn concat_pages(pages: Seq<Seq<String>>) -> Seq<String>
    decreases pages.len(),
{
    if pages.len() == 0 {
        Seq::empty()
    } else {
        concat_pages(pages.drop_last()) + pages.last()
    }
}

/// As long as every page is full the listing goes on: one request per page,
/// every item kept.
pub proof fn lemma_full_pages_continue(pages: Seq<Seq<String>>)
    requires
        forall|i: int| 0 <= i < pages.len() ==> (#[trigger] pages[i]).len() >= PAGE_SIZE,
    ensures
        receive_pages(fetch_start(), pages) == (FetchState {
            items: concat_pages(pages),
            requests: pages.len(),
            finished: false,
            failed: false,
        }),
    decreases pages.len(),
{
    if pages.len() > 0 {
        let front = pages.drop_last();
        assert forall|i: int| 0 <= i < front.len() implies (#[trigger] front[i]).len()
            >= PAGE_SIZE by {
            assert(front[i] == pages[i]);
        }
        lemma_full_pages_continue(front);
        assert(pages.last() == pages[pages.len() - 1]);
    }
}

/// Once finished, a listing ignores whatever else arrives.
pub proof fn lemma_finished_stays(state: FetchState, pages: Seq<Seq<String>>)
    requires
        state.finished,
    ensures
        receive_pages(state, pages) == state,
    decreases pages.len(),
{
    if pages.len() > 0 {
        lemma_finished_stays(state, pages.drop_last());
    }
}

/// Receiving `first + second` is receiving `first`, then `second`.
pub proof fn lemma_receive_pages_split(
    state: FetchState,
    first: Seq<Seq<String>>,
    second: Seq<Seq<String>>,
)
    ensures
        receive_pages(state, first + second) == receive_pages(
            receive_pages(state, first),
            second,
        ),
    decreases second.len(),
{
    if second.len() == 0 {
        assert(first + second =~= first);
    } else {
        assert((first + second).drop_last() =~= first + second.drop_last());
        assert((first + second).last() == second.last());
        lemma_receive_pages_split(state, first, second.drop_last());
    }
}

/// The listing ends with the first page that is not full: it took one
/// request per page up to and including that page, holds exactly the items
/// of those pages, and nothing that an endpoint would answer afterwards is
/// asked for.
pub proof fn lemma_stops_at_first_short_page(pages: Seq<Seq<String>>, k: int)
    requires
        0 <= k < pages.len(),
        forall|i: int| 0 <= i < k ==> (#[trigger] pages[i]).len() >= PAGE_SIZE,
        pages[k].len() < PAGE_SIZE,
    ensures
        receive_pages(fetch_start(), pages) == (FetchState {
            items: concat_pages(pages.take(k + 1)),
            requests: (k + 1) as nat,
            finished: true,
            failed: false,
        }),
{
    let full = pages.take(k);
    let upto = pages.take(k + 1);
    let rest = pages.skip(k + 1);
    assert forall|i: int| 0 <= i < full.len() implies (#[trigger] full[i]).len() >= PAGE_SIZE by {
        assert(full[i] == pages[i]);
    }
    lemma_full_pages_continue(full);
    assert(upto.drop_last() =~= full);
    assert(upto.last() == pages[k]);
    let reached = receive_pages(fetch_start(), upto);
    assert(reached.finished);
    assert(pages =~= upto + rest);
    lemma_receive_pages_split(fetch_start(), upto, rest);
    lemma_finished_stays(reached, rest);
}

/// A listing in progress.
pub struct PageFetch {
    pub items: Vec<String>,
    pub requests: usize,
    pub finished: bool,
    pub failure: Option<String>,
}

impl View for PageFetch {
    type V = FetchState;

    open spec fn view(&self) -> FetchState {
        FetchState {
            items: self.items@,
            requests: self.requests as nat,
            finished: self.finished,
            failed: self.failure is Some,
        }
    }
}

impl PageFetch {
    /// While a listing goes on every page so far was full; only a finished
    /// listing can have failed.
    pub open spec fn wf(&self) -> bool {
        &&& !self.finished ==> self.items@.len() >= self.requests * PAGE_SIZE
        &&& self.failure is Some ==> self.finished
    }

    /// Tests `wf` on a value that was put together by hand.
    pub fn is_wf(&self) -> (ok: bool)
        ensures
            ok == self.wf(),
    {
        let held: usize = self.items.len();
        proof {
            assert(self.requests * PAGE_SIZE == self.requests * 100) by (nonlinear_arith)
                requires
                    PAGE_SIZE == 100,
            ;
        }
        let counted = self.finished || self.requests <= held / PAGE_SIZE;
        counted && (self.failure.is_none() || self.finished)
    }

    /// A listing of which nothing was asked yet.
    pub fn new() -> (fetch: PageFetch)
        ensures
            fetch.wf(),
            fetch@ == fetch_start(),
    {
        PageFetch { items: Vec::new(), requests: 0, finished: false, failure: None }
    }

    /// The number of the page to ask for next, counted from one; `None`
    /// once the listing is finished.
    pub fn next_page(&self) -> (page: Option<usize>)
        requires
            self.wf(),
        ensures
            page == if self.finished {
                None
            } else {
                Some((self.requests + 1) as usize)
            },
            !self.finished ==> self.requests + 1 <= usize::MAX,
    {
        if self.finished {
            None
        } else {
            let held: usize = self.items.len();
            proof {
                assert(self.requests * PAGE_SIZE == self.requests * 100) by (nonlinear_arith)
                    requires
                        PAGE_SIZE == 100,
                ;
            }
            Some(self.requests + 1)
        }
    }

    /// Takes the items of the page that was asked for.
    pub fn receive(&mut self, page: Vec<String>)
        requires
            old(self).wf(),
        ensures
            final(self).wf(),
            final(self)@ == receive_page(old(self)@, page@),
            old(self).finished ==> *final(self) == *old(self),
            final(self).failure == old(self).failure,
    {
        if self.finished {
            return ;
        }
        let _ = self.next_page();
        let mut page = page;
        let short: bool = page.len() < PAGE_SIZE;
        proof {
            assert((self.requests + 1) * PAGE_SIZE == self.requests * PAGE_SIZE + PAGE_SIZE)
                by (nonlinear_arith);
        }
        self.items.append(&mut page);
        self.requests = self.requests + 1;
        self.finished = short;
    }

    /// Records that the page that was asked for could not be had. The
    /// listing is over; the first reason is kept.
    pub fn receive_error(&mut self, reason: String)
        requires
            old(self).wf(),
        ensures
            final(self).wf(),
            final(self)@ == receive_failure(old(self)@),
            old(self).finished ==> *final(self) == *old(self),
            !old(self).finished ==> final(self).failure == Some(reason),
            final(self).items == old(self).items,
    {
        if self.finished {
            return ;
        }
        let _ = self.next_page();
        self.requests = self.requests + 1;
        self.finished = true;
        self.failure = Some(reason);
    }

    /// What the listing gave: every item, or the failure that ended it.
    /// A listing that is not finished yet gives what it has so far.
    pub fn into_result(self) -> (outcome: Result<Vec<String>, ProviderFetchError>)
        requires
            self.wf(),
        ensures
            outcome is Err <==> self@.failed,
            outcome matches Ok(items) ==> items@ == self@.items,
            outcome matches Err(e) ==> Some(e.reason) == self.failure && e.page == self.requests,
    {
        match self.failure {
            Some(reason) => Err(ProviderFetchError { page: self.requests, reason }),
            None => Ok(self.items),
        }
    }
}

} // verus!
