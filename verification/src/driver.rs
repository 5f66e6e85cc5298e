//! A whole batch against engine instances: one session after the other, in
//! the order of the requests.

use crate::engine::{results_view, specs_view, DealResult, DealResultView, DealSpec, DealSpecView, EPBot};
use crate::error::BbaError;
use crate::session::{DealSession, EngineCall, EngineCallView, EngineReply, EngineReplyView, Phase, SessionView};
use crate::text::{clone_opt, opt_text};
use vstd::prelude::*;

verus! {

/// A batch as a value: the requests, the results so far, the session in
/// progress, and whether the batch was given up.
pub struct BatchView {
    pub deals: Seq<DealSpecView>,
    pub ns: Option<Seq<char>>,
    pub ew: Option<Seq<char>>,
    pub done: Seq<DealResultView>,
    pub current: Option<SessionView>,
    pub aborted: bool,
}

impl BatchView {
    /// The batch opens the session for the request that follows the results
    /// so far, or is finished where none is left.
    pub open spec fn open_next(self) -> (BatchView, EngineCallView) {
        if self.done.len() < self.deals.len() {
            (
                BatchView {
                    current: Some(
                        SessionView::initial(self.deals[self.done.len() as int], self.ns, self.ew),
                    ),
                    ..self
                },
                EngineCallView::Acquire,
            )
        } else {
            (BatchView { current: None, ..self }, EngineCallView::Finished)
        }
    }

    /// The batch for `deals` before anything was done, and the first call.
    pub open spec fn start(deals: Seq<DealSpecView>, ns: Option<Seq<char>>, ew: Option<Seq<char>>) -> (
        BatchView,
        EngineCallView,
    ) {
        (BatchView { deals, ns, ew, done: Seq::empty(), current: None, aborted: false }).open_next()
    }

    /// The batch after the reply `r`, and the call to make next. The reply
    /// goes to the session in progress. When that session is finished, its
    /// result joins the results and the next request's session is opened; a
    /// session that got no instance gives the whole batch up.
    pub open spec fn spec_step(self, r: EngineReplyView) -> (BatchView, EngineCallView) {
        match self.current {
            None => (self, EngineCallView::Finished),
            Some(s) => {
                let (s1, call) = s.spec_step(r);
                if s1.phase == Phase::Finished {
                    match s1.result {
                        Some(result) => (BatchView { done: self.done.push(result), ..self }).open_next(),
                        None => (
                            BatchView { current: None, aborted: true, ..self },
                            EngineCallView::Finished,
                        ),
                    }
                } else {
                    (BatchView { current: Some(s1), ..self }, call)
                }
            },
        }
    }

    /// Whether nothing is left to do.
    pub open spec fn finished(self) -> bool {
        self.current is None
    }

    /// What holds of every batch that `start` and `spec_step` produce.
    pub open spec fn wf(self) -> bool {
        &&& self.done.len() <= self.deals.len()
        &&& forall|i: int|
            0 <= i < self.done.len() ==> (#[trigger] self.done[i]).deal == Some(self.deals[i].pbn)
        &&& match self.current {
            Some(s) => {
                &&& !self.aborted
                &&& self.done.len() < self.deals.len()
                &&& s.deal == self.deals[self.done.len() as int]
                &&& s.ns == self.ns
                &&& s.ew == self.ew
                &&& s.wf()
                &&& s.phase != Phase::Finished
                &&& s.result matches Some(x) ==> x.deal == Some(s.deal.pbn)
            },
            None => !self.aborted ==> self.done.len() == self.deals.len(),
        }
    }

    /// The batch after the replies `rs`, one after the other.
    pub open spec fn run(self, rs: Seq<EngineReplyView>) -> BatchView
        decreases rs.len(),
    {
        if rs.len() == 0 {
            self
        } else {
            self.run(rs.drop_last()).spec_step(rs.last()).0
        }
    }
}

/// A batch against engine instances.
pub struct BatchRun {
    deals: Vec<DealSpec>,
    engine: EPBot,
    results: Vec<DealResult>,
    session: Option<DealSession>,
    aborted: bool,
}

impl View for BatchRun {
    type V = BatchView;

    closed spec fn view(&self) -> BatchView {
        BatchView {
            deals: specs_view(self.deals@),
            ns: opt_text(self.engine.ns_conventions),
            ew: opt_text(self.engine.ew_conventions),
            done: results_view(self.results@),
            current: match self.session {
                Some(s) => Some(s@),
                None => None,
            },
            aborted: self.aborted,
        }
    }
}

impl BatchRun {
    fn open_next(&mut self) -> (call: EngineCall)
        ensures
            (final(self)@, call@) == old(self)@.open_next(),
    {
        if self.results.len() < self.deals.len() {
            let s = self.engine.process_one_deal(&self.deals[self.results.len()]);
            self.session = Some(s);
            EngineCall::Acquire
        } else {
            self.session = None;
            EngineCall::Finished
        }
    }

    /// Whether nothing is left to do.
    pub fn is_finished(&self) -> (b: bool)
        ensures
            b == self@.finished(),
    {
        self.session.is_none()
    }

    /// Takes the engine's reply to the call that was asked for last, and says
    /// which call to make next. The requests are served one after the other,
    /// each by a session of its own on a fresh instance; a request that
    /// fails gives a failed result and the batch goes on, and only a session
    /// that gets no instance ends the batch.
    pub fn step(&mut self, reply: EngineReply) -> (call: EngineCall)
        ensures
            (final(self)@, call@) == old(self)@.spec_step(reply@),
    {
        let current = self.session.take();
        match current {
            None => EngineCall::Finished,
            Some(s) => {
                let mut s = s;
                let call = s.step(reply);
                if s.is_finished() {
                    match s.outcome() {
                        Some(Ok(result)) => {
                            let ghost before = results_view(self.results@);
                            let ghost rv = result@;
                            self.results.push(result);
                            proof {
                                assert(results_view(self.results@) =~= before.push(rv));
                            }
                            self.open_next()
                        },
                        _ => {
                            self.aborted = true;
                            EngineCall::Finished
                        },
                    }
                } else {
                    self.session = Some(s);
                    call
                }
            },
        }
    }

    /// The results of a finished batch, one for each request and in the
    /// order of the requests, or `EngineCreationFailed` where the batch was
    /// given up. `None` while the batch is not finished.
    pub fn outcome(self) -> (r: Option<Result<Vec<DealResult>, BbaError>>)
        ensures
            !self@.finished() ==> r is None,
            self@.finished() ==> r is Some,
            self@.finished() && !self@.aborted ==> r->0 is Ok && results_view(r->0->Ok_0@)
                == self@.done,
            self@.finished() && self@.aborted ==> (r->0 matches Err(
                BbaError::EngineCreationFailed(m),
            ) && m@ == "Failed to create EPBot instance"@),
    {
        if self.session.is_some() {
            None
        } else if self.aborted {
            Some(
                Err(
                    BbaError::EngineCreationFailed(
                        String::from_str("Failed to create EPBot instance"),
                    ),
                ),
            )
        } else {
            Some(Ok(self.results))
        }
    }
}

impl EPBot {
    /// Opens the batch for `deals` against engine instances, and says which
    /// call to make first.
    pub fn start_batch(&self, deals: Vec<DealSpec>) -> (r: (BatchRun, EngineCall))
        ensures
            (r.0@, r.1@) == BatchView::start(
                specs_view(deals@),
                opt_text(self.ns_conventions),
                opt_text(self.ew_conventions),
            ),
            r.0@.wf(),
    {
        let mut run = BatchRun {
            deals,
            engine: EPBot {
                ns_conventions: clone_opt(&self.ns_conventions),
                ew_conventions: clone_opt(&self.ew_conventions),
            },
            results: Vec::new(),
            session: None,
            aborted: false,
        };
        proof {
            assert(results_view(run.results@) =~= Seq::<DealResultView>::empty());
        }
        let call = run.open_next();
        (run, call)
    }
}

} // verus!
