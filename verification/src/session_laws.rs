//! What holds of every session, whatever the engine answers.

use crate::driver::BatchView;
use crate::engine::DealSpecView;
use crate::session::{
    failure_view, has_nul, too_long_text, EngineCallView, EngineOp, EngineReplyView, Phase,
    SessionView, AUCTION_COMPLETE, MAX_BIDS,
};
use vstd::prelude::*;

verus! {

/// Whether the reply tells that the auction is over: by the status of a bid
/// retrieval, or by the flag of a successful poll.
pub open spec fn signals_completion(r: EngineReplyView) -> bool {
    match r {
        EngineReplyView::Bid(code, _) => code == AUCTION_COMPLETE,
        EngineReplyView::Complete(code, done) => code == 0 && done,
        _ => false,
    }
}

/// Whether `r` is what an engine that works but never ends the auction
/// answers to the call that the session `s` made last.
pub open spec fn unending_reply(s: SessionView, r: EngineReplyView) -> bool {
    match s.phase {
        Phase::Acquiring => r == EngineReplyView::Acquired(true),
        Phase::Awaiting(EngineOp::NextBid) => r matches EngineReplyView::Bid(code, _) && code == 0,
        Phase::Awaiting(EngineOp::IsAuctionComplete) => r == EngineReplyView::Complete(0, false),
        Phase::Awaiting(_) => r == EngineReplyView::Status(0),
        Phase::Diagnosing(_, _) => r is LastError,
        Phase::Releasing => r == EngineReplyView::Released,
        Phase::Finished => true,
    }
}

/// Whether the replies `rs` are those of an engine that works but never ends
/// the auction, from the session `s` on.
pub open spec fn unending(s: SessionView, rs: Seq<EngineReplyView>) -> bool
    decreases rs.len(),
{
    rs.len() > 0 ==> unending_reply(s, rs[0]) && unending(s.spec_step(rs[0]).0, rs.drop_first())
}

/// The number of `Release` calls among `calls`.
pub open spec fn releases(calls: Seq<EngineCallView>) -> nat
    decreases calls.len(),
{
    if calls.len() == 0 {
        0
    } else {
        releases(calls.drop_first()) + if calls[0] == EngineCallView::Release {
            1nat
        } else {
            0nat
        }
    }
}

/// A step keeps a session well formed.
pub proof fn lemma_step_wf(s: SessionView, r: EngineReplyView)
    requires
        s.wf(),
    ensures
        s.spec_step(r).0.wf(),
{
}

/// Every reply, whatever it is, brings an unfinished session nearer to its
/// end.
pub proof fn lemma_step_progress(s: SessionView, r: EngineReplyView)
    requires
        s.wf(),
        s.phase != Phase::Finished,
    ensures
        s.spec_step(r).0.budget() < s.budget(),
{
}

/// A finished session stays as it is and asks for nothing more.
pub proof fn lemma_finished_stays(s: SessionView, rs: Seq<EngineReplyView>)
    requires
        s.phase == Phase::Finished,
    ensures
        s.run(rs) == s,
        releases(s.calls(rs)) == 0,
    decreases rs.len(),
{
    if rs.len() > 0 {
        lemma_finished_stays(s, rs.drop_first());
        assert(s.calls(rs).drop_first() =~= s.calls(rs.drop_first()));
    }
}

/// No session goes on for ever: after as many replies as its budget, of
/// whatever kind, it is finished.
pub proof fn lemma_session_terminates(s: SessionView, rs: Seq<EngineReplyView>)
    requires
        s.wf(),
        rs.len() >= s.budget(),
    ensures
        s.run(rs).phase == Phase::Finished,
    decreases rs.len(),
{
    if s.phase == Phase::Finished {
        lemma_finished_stays(s, rs);
    } else {
        lemma_step_wf(s, rs[0]);
        lemma_step_progress(s, rs[0]);
        lemma_session_terminates(s.spec_step(rs[0]).0, rs.drop_first());
    }
}

/// Without a signal that the auction is over there is no successful result:
/// if none of the replies signals completion, the session's result, if it
/// has one, is a failure.
pub proof fn lemma_no_completion_no_success(s: SessionView, rs: Seq<EngineReplyView>)
    requires
        s.result matches Some(res) ==> !res.success,
        forall|i: int| 0 <= i < rs.len() ==> !signals_completion(#[trigger] rs[i]),
    ensures
        s.run(rs).result matches Some(res) ==> !res.success,
    decreases rs.len(),
{
    if rs.len() > 0 {
        assert(!signals_completion(rs[0]));
        let t = rs.drop_first();
        assert forall|i: int| 0 <= i < t.len() implies !signals_completion(#[trigger] t[i]) by {
            assert(t[i] == rs[i + 1]);
        }
        lemma_no_completion_no_success(s.spec_step(rs[0]).0, t);
    }
}

/// Whether a session in an unending conversation is still on the way to the
/// failure that ends it.
pub open spec fn on_track(s: SessionView) -> bool {
    match s.phase {
        Phase::Acquiring => !has_nul(s.deal.pbn),
        Phase::Awaiting(_) => true,
        Phase::Diagnosing(_, _) => false,
        _ => s.result == Some(failure_view(s.deal.pbn, too_long_text())),
    }
}

proof fn lemma_unending_from(s: SessionView, rs: Seq<EngineReplyView>)
    requires
        s.wf(),
        on_track(s),
        unending(s, rs),
        rs.len() >= s.budget(),
    ensures
        s.run(rs).phase == Phase::Finished,
        s.run(rs).result == Some(failure_view(s.deal.pbn, too_long_text())),
    decreases rs.len(),
{
    if s.phase == Phase::Finished {
        lemma_finished_stays(s, rs);
    } else {
        lemma_step_wf(s, rs[0]);
        lemma_step_progress(s, rs[0]);
        let s1 = s.spec_step(rs[0]).0;
        assert(on_track(s1));
        assert(s1.deal == s.deal);
        lemma_unending_from(s1, rs.drop_first());
    }
}

/// The retrieval of bids is bounded: against an engine that answers every
/// call with success and never signals the end of the auction, the session
/// finishes, and its result is the failure of an auction that is too long.
pub proof fn lemma_unending_auction_fails(
    deal: DealSpecView,
    ns: Option<Seq<char>>,
    ew: Option<Seq<char>>,
    rs: Seq<EngineReplyView>,
)
    requires
        !has_nul(deal.pbn),
        unending(SessionView::initial(deal, ns, ew), rs),
        rs.len() >= 2 * MAX_BIDS + 9,
    ensures
        SessionView::initial(deal, ns, ew).run(rs).phase == Phase::Finished,
        SessionView::initial(deal, ns, ew).run(rs).result == Some(
            failure_view(deal.pbn, too_long_text()),
        ),
{
    lemma_unending_from(SessionView::initial(deal, ns, ew), rs);
}

/// Whether the session holds an instance that it has not asked to release.
pub open spec fn holds_instance(s: SessionView) -> bool {
    s.phase is Awaiting || s.phase is Diagnosing
}

proof fn lemma_releases_from(s: SessionView, rs: Seq<EngineReplyView>)
    requires
        s.phase != Phase::Acquiring,
    ensures
        holds_instance(s) ==> releases(s.calls(rs)) <= 1,
        holds_instance(s) && !holds_instance(s.run(rs)) ==> releases(s.calls(rs)) == 1,
        !holds_instance(s) ==> releases(s.calls(rs)) == 0 && !holds_instance(s.run(rs)),
    decreases rs.len(),
{
    if rs.len() > 0 {
        let s1 = s.spec_step(rs[0]).0;
        lemma_releases_from(s1, rs.drop_first());
        assert(s.calls(rs).drop_first() =~= s1.calls(rs.drop_first()));
    }
}

/// Every instance is released exactly once: in a session that has finished,
/// `Release` was asked for once if an instance was acquired, whichever call
/// failed on the way, and never if none was.
pub proof fn lemma_released_exactly_once(
    deal: DealSpecView,
    ns: Option<Seq<char>>,
    ew: Option<Seq<char>>,
    rs: Seq<EngineReplyView>,
)
    requires
        SessionView::initial(deal, ns, ew).run(rs).phase == Phase::Finished,
    ensures
        rs.len() > 0,
        releases(SessionView::initial(deal, ns, ew).calls(rs)) == if rs[0]
            == EngineReplyView::Acquired(true) {
            1nat
        } else {
            0nat
        },
{
    let s = SessionView::initial(deal, ns, ew);
    let s1 = s.spec_step(rs[0]).0;
    lemma_releases_from(s1, rs.drop_first());
    assert(s.calls(rs).drop_first() =~= s1.calls(rs.drop_first()));
}

/// While a session is not finished, the instance it holds is not released
/// more than once, and a session never asks for a release before it has
/// acquired an instance.
pub proof fn lemma_released_at_most_once(
    deal: DealSpecView,
    ns: Option<Seq<char>>,
    ew: Option<Seq<char>>,
    rs: Seq<EngineReplyView>,
)
    ensures
        releases(SessionView::initial(deal, ns, ew).calls(rs)) <= 1,
        rs.len() > 0 && rs[0] != EngineReplyView::Acquired(true) ==> releases(
            SessionView::initial(deal, ns, ew).calls(rs),
        ) == 0,
{
    let s = SessionView::initial(deal, ns, ew);
    if rs.len() > 0 {
        let s1 = s.spec_step(rs[0]).0;
        lemma_releases_from(s1, rs.drop_first());
        assert(s.calls(rs).drop_first() =~= s1.calls(rs.drop_first()));
    }
}


/// A result names the deal of its session: a step changes neither the deal
/// of a session nor the deal that its result, once known, is for.
pub proof fn lemma_result_names_deal(s: SessionView, r: EngineReplyView)
    requires
        s.result matches Some(x) ==> x.deal == Some(s.deal.pbn),
    ensures
        s.spec_step(r).0.deal == s.deal,
        s.spec_step(r).0.ns == s.ns,
        s.spec_step(r).0.ew == s.ew,
        s.spec_step(r).0.result matches Some(x) ==> x.deal == Some(s.deal.pbn),
{
}

/// A step keeps a batch well formed.
pub proof fn lemma_batch_step_wf(b: BatchView, r: EngineReplyView)
    requires
        b.wf(),
    ensures
        b.spec_step(r).0.wf(),
{
    match b.current {
        None => {},
        Some(s) => {
            lemma_step_wf(s, r);
            lemma_result_names_deal(s, r);
            let s1 = s.spec_step(r).0;
            if s1.phase == Phase::Finished {
                match s1.result {
                    Some(result) => {
                        let pushed = b.done.push(result);
                        assert forall|i: int| 0 <= i < pushed.len() implies (#[trigger] pushed[i]).deal
                            == Some(b.deals[i].pbn) by {
                            if i < b.done.len() {
                                assert(pushed[i] == b.done[i]);
                            }
                        }
                    },
                    None => {},
                }
            }
        },
    }
}

/// Every batch that is run from its start is well formed.
pub proof fn lemma_batch_run_wf(
    deals: Seq<DealSpecView>,
    ns: Option<Seq<char>>,
    ew: Option<Seq<char>>,
    rs: Seq<EngineReplyView>,
)
    ensures
        BatchView::start(deals, ns, ew).0.run(rs).wf(),
    decreases rs.len(),
{
    if rs.len() > 0 {
        lemma_batch_run_wf(deals, ns, ew, rs.drop_last());
        lemma_batch_step_wf(BatchView::start(deals, ns, ew).0.run(rs.drop_last()), rs.last());
    }
}

/// The results of a batch stand in the order of the requests: whatever the
/// engine answers, the result at each place is the one for the request at
/// that place, and a batch that finishes without being given up has exactly
/// one result for each request.
pub proof fn lemma_batch_results_in_order(
    deals: Seq<DealSpecView>,
    ns: Option<Seq<char>>,
    ew: Option<Seq<char>>,
    rs: Seq<EngineReplyView>,
)
    ensures
        BatchView::start(deals, ns, ew).0.run(rs).done.len() <= deals.len(),
        forall|i: int|
            0 <= i < BatchView::start(deals, ns, ew).0.run(rs).done.len() ==> (
            #[trigger] BatchView::start(deals, ns, ew).0.run(rs).done[i]).deal == Some(
                deals[i].pbn,
            ),
        BatchView::start(deals, ns, ew).0.run(rs).finished() && !BatchView::start(
            deals,
            ns,
            ew,
        ).0.run(rs).aborted ==> BatchView::start(deals, ns, ew).0.run(rs).done.len()
            == deals.len(),
{
    lemma_batch_run_wf(deals, ns, ew, rs);
    lemma_batch_deals_kept(BatchView::start(deals, ns, ew).0, rs);
}

/// A batch keeps its requests.
pub proof fn lemma_batch_deals_kept(b: BatchView, rs: Seq<EngineReplyView>)
    ensures
        b.run(rs).deals == b.deals,
    decreases rs.len(),
{
    if rs.len() > 0 {
        lemma_batch_deals_kept(b, rs.drop_last());
    }
}

/// A request that fails does not touch the others: a step leaves the results
/// so far as they are, and adds at most one at their end. Only a session
/// that gets no instance gives the batch up.
pub proof fn lemma_batch_results_kept(b: BatchView, r: EngineReplyView)
    requires
        b.wf(),
    ensures
        b.spec_step(r).0.done == b.done || (b.spec_step(r).0.done.len() == b.done.len() + 1
            && b.spec_step(r).0.done.drop_last() == b.done),
        b.spec_step(r).0.aborted ==> b.aborted || (b.current is Some
            && b.current->0.phase == Phase::Acquiring),
{
    match b.current {
        None => {},
        Some(s) => {
            let s1 = s.spec_step(r).0;
            if s1.phase == Phase::Finished {
                match s1.result {
                    Some(result) => {
                        assert(b.done.push(result).drop_last() =~= b.done);
                    },
                    None => {},
                }
            }
        },
    }
}

/// An upper bound on the replies that a batch still takes.
pub open spec fn batch_budget(b: BatchView) -> nat {
    match b.current {
        None => 0,
        Some(s) => if b.done.len() < b.deals.len() {
            (s.budget() + (b.deals.len() - b.done.len() - 1) * (2 * MAX_BIDS + 9)) as nat
        } else {
            s.budget()
        },
    }
}

/// Every reply, whatever it is, brings an unfinished batch nearer to its end.
pub proof fn lemma_batch_step_progress(b: BatchView, r: EngineReplyView)
    requires
        b.wf(),
        !b.finished(),
    ensures
        batch_budget(b.spec_step(r).0) < batch_budget(b),
{
    let s = b.current->0;
    lemma_step_progress(s, r);
    lemma_step_wf(s, r);
    let s1 = s.spec_step(r).0;
    let left = b.deals.len() - b.done.len() - 1;
    let per = 2 * MAX_BIDS + 9;
    if s1.phase == Phase::Finished && s1.result is Some && left > 0 {
        assert((left - 1) * per + per == left * per) by (nonlinear_arith);
    }
}

/// A finished batch stays as it is.
pub proof fn lemma_batch_finished_stays(b: BatchView, r: EngineReplyView)
    requires
        b.finished(),
    ensures
        b.spec_step(r).0 == b,
{
}

} // verus!
