//! One request's conversation with an engine instance.
//!
//! The engine is reached call by call: the session says which call to make
//! next, the caller makes it and hands back the engine's reply. The session
//! decides everything else: the order of the configuration, when a request
//! has failed, when the auction is complete, and that the instance is
//! released whatever happened.

use crate::bindings::{EPBotDealer, EPBotSide, EPBotVulnerability};
use crate::engine::{DealResult, DealResultView, DealSpec, DealSpecView, EPBot};
use crate::error::BbaError;
use crate::text::{
    append_decimal, append_digits, append_str, chars_of, decimal, digits, find_char, first_index,
    clone_opt, clone_texts, opt_text, texts,
};
use vstd::prelude::*;

verus! {

/// The most bids that a session retrieves for one deal.
pub const MAX_BIDS: usize = 100;

/// The status with which the engine says that the auction is over.
pub const AUCTION_COMPLETE: i32 = -9;

/// The calls whose status the session waits for.
#[derive(Debug, Clone, Copy, PartialEq, Eq, Structural)]
pub enum EngineOp {
    SetDeal,
    SetDealer,
    SetVulnerability,
    LoadNs,
    LoadEw,
    NextBid,
    IsAuctionComplete,
}

impl EngineOp {
    /// The name of the call in diagnostics.
    pub open spec fn spec_name(self) -> Seq<char> {
        match self {
            EngineOp::SetDeal => "set_deal"@,
            EngineOp::SetDealer => "set_dealer"@,
            EngineOp::SetVulnerability => "set_vulnerability"@,
            EngineOp::LoadNs => "load_conventions(NS)"@,
            EngineOp::LoadEw => "load_conventions(EW)"@,
            EngineOp::NextBid => "get_next_bid"@,
            EngineOp::IsAuctionComplete => "is_auction_complete"@,
        }
    }

    /// The name of the call in diagnostics.
    pub fn name(self) -> (r: &'static str)
        ensures
            r@ == self.spec_name(),
    {
        match self {
            EngineOp::SetDeal => "set_deal",
            EngineOp::SetDealer => "set_dealer",
            EngineOp::SetVulnerability => "set_vulnerability",
            EngineOp::LoadNs => "load_conventions(NS)",
            EngineOp::LoadEw => "load_conventions(EW)",
            EngineOp::NextBid => "get_next_bid",
            EngineOp::IsAuctionComplete => "is_auction_complete",
        }
    }
}

/// Where a session stands.
#[derive(Debug, Clone, Copy, PartialEq, Eq, Structural)]
pub enum Phase {
    /// An instance was asked for.
    Acquiring,
    /// The call was made on the instance; its reply is awaited.
    Awaiting(EngineOp),
    /// The call failed with the code; the engine's diagnostic is awaited.
    Diagnosing(EngineOp, i32),
    /// The result is known and the release of the instance was asked for.
    Releasing,
    /// Nothing is left to do.
    Finished,
}

/// What the caller is to do next.
#[derive(Debug, Clone, PartialEq, Eq)]
pub enum EngineCall {
    /// Create a fresh engine instance.
    Acquire,
    /// Hand the instance the cards.
    SetDeal(String),
    SetDealer(EPBotDealer),
    SetVulnerability(EPBotVulnerability),
    /// Load the convention file at this path for this side.
    LoadConventions(String, EPBotSide),
    /// Ask for the next bid.
    NextBid,
    /// Ask whether the auction is complete.
    IsAuctionComplete,
    /// Fetch the engine's last diagnostic.
    LastError,
    /// Destroy the instance.
    Release,
    /// Nothing: the session is over.
    Finished,
}

/// What an `EngineCall` holds.
pub enum EngineCallView {
    Acquire,
    SetDeal(Seq<char>),
    SetDealer(EPBotDealer),
    SetVulnerability(EPBotVulnerability),
    LoadConventions(Seq<char>, EPBotSide),
    NextBid,
    IsAuctionComplete,
    LastError,
    Release,
    Finished,
}

impl View for EngineCall {
    type V = EngineCallView;

    open spec fn view(&self) -> EngineCallView {
        match self {
            EngineCall::Acquire => EngineCallView::Acquire,
            EngineCall::SetDeal(p) => EngineCallView::SetDeal(p@),
            EngineCall::SetDealer(d) => EngineCallView::SetDealer(*d),
            EngineCall::SetVulnerability(v) => EngineCallView::SetVulnerability(*v),
            EngineCall::LoadConventions(p, s) => EngineCallView::LoadConventions(p@, *s),
            EngineCall::NextBid => EngineCallView::NextBid,
            EngineCall::IsAuctionComplete => EngineCallView::IsAuctionComplete,
            EngineCall::LastError => EngineCallView::LastError,
            EngineCall::Release => EngineCallView::Release,
            EngineCall::Finished => EngineCallView::Finished,
        }
    }
}

/// What the engine answered to the last call.
#[derive(Debug, Clone, PartialEq, Eq)]
pub enum EngineReply {
    /// Whether an instance was created.
    Acquired(bool),
    /// The status of a configuration call.
    Status(i32),
    /// The status of a bid retrieval and the bid token it wrote.
    Bid(i32, String),
    /// The status of the completion poll and the flag it wrote.
    Complete(i32, bool),
    /// The engine's last diagnostic, if it has one.
    LastError(Option<String>),
    /// The instance was destroyed.
    Released,
}

/// What an `EngineReply` holds.
pub enum EngineReplyView {
    Acquired(bool),
    Status(i32),
    Bid(i32, Seq<char>),
    Complete(i32, bool),
    LastError(Option<Seq<char>>),
    Released,
}

impl View for EngineReply {
    type V = EngineReplyView;

    open spec fn view(&self) -> EngineReplyView {
        match self {
            EngineReply::Acquired(b) => EngineReplyView::Acquired(*b),
            EngineReply::Status(c) => EngineReplyView::Status(*c),
            EngineReply::Bid(c, t) => EngineReplyView::Bid(*c, t@),
            EngineReply::Complete(c, d) => EngineReplyView::Complete(*c, *d),
            EngineReply::LastError(m) => EngineReplyView::LastError(opt_text(*m)),
            EngineReply::Released => EngineReplyView::Released,
        }
    }
}

/// Whether the text holds a NUL character, which no engine call can take.
pub open spec fn has_nul(s: Seq<char>) -> bool {
    first_index(s, '\0') < s.len()
}

/// The number of bytes that a character takes in UTF-8.
pub open spec fn utf8_width(c: char) -> int {
    let u = c as u32;
    if u < 0x80 {
        1
    } else if u < 0x800 {
        2
    } else if u < 0x10000 {
        3
    } else {
        4
    }
}

/// The number of bytes that a text takes in UTF-8.
pub open spec fn utf8_len(s: Seq<char>) -> int
    decreases s.len(),
{
    if s.len() == 0 {
        0
    } else {
        utf8_len(s.drop_last()) + utf8_width(s.last())
    }
}

/// The result for a deal whose auction is complete.
pub open spec fn success_view(pbn: Seq<char>, bids: Seq<Seq<char>>) -> DealResultView {
    DealResultView { deal: Some(pbn), auction: Some(bids), success: true, error: None }
}

/// The result for a deal that failed with the diagnostic.
pub open spec fn failure_view(pbn: Seq<char>, diagnostic: Seq<char>) -> DealResultView {
    DealResultView { deal: Some(pbn), auction: None, success: false, error: Some(diagnostic) }
}

/// The diagnostic for a call that failed: with the engine's own words where
/// it has any.
pub open spec fn error_text(op: Seq<char>, code: int, last_error: Option<Seq<char>>) -> Seq<
    char,
> {
    match last_error {
        None => op + " failed with code "@ + decimal(code),
        Some(msg) => op + " failed (code "@ + decimal(code) + "): "@ + msg,
    }
}

/// The diagnostic for cards that hold a NUL character: it names the byte at
/// which the first one stands.
pub open spec fn invalid_pbn_text(pbn: Seq<char>) -> Seq<char> {
    "Invalid PBN string: nul byte found in provided data at position: "@ + digits(
        utf8_len(pbn.take(first_index(pbn, '\0'))) as nat,
    )
}

/// The diagnostic for an auction that did not end within `MAX_BIDS` bids.
pub open spec fn too_long_text() -> Seq<char> {
    BbaError::AuctionTooLong(MAX_BIDS).spec_message()
}

/// The diagnostic for a reply that does not answer the call that was made.
pub open spec fn unexpected_reply_text() -> Seq<char> {
    "Unexpected reply from the engine"@
}

/// The failed result for the deal `pbn`, after the call `op` returned `code`
/// and the engine's last diagnostic was `last_error`.
pub fn error_result(pbn: &str, op: &str, code: i32, last_error: Option<&str>) -> (r: DealResult)
    ensures
        r@ == failure_view(pbn@, error_text(op@, code as int, match last_error {
            Some(m) => Some(m@),
            None => None,
        })),
{
    let mut msg = String::from_str(op);
    match last_error {
        None => {
            append_str(&mut msg, " failed with code ");
            append_decimal(&mut msg, code as i64);
        },
        Some(m) => {
            append_str(&mut msg, " failed (code ");
            append_decimal(&mut msg, code as i64);
            append_str(&mut msg, "): ");
            append_str(&mut msg, m);
        },
    }
    DealResult { deal: Some(String::from_str(pbn)), auction: None, success: false, error: Some(msg) }
}

/// A session as a value: where it stands, what it was asked, the bids so far
/// and the result once it is known.
pub struct SessionView {
    pub phase: Phase,
    pub deal: DealSpecView,
    pub ns: Option<Seq<char>>,
    pub ew: Option<Seq<char>>,
    pub bids: Seq<Seq<char>>,
    pub result: Option<DealResultView>,
}

impl SessionView {
    /// The session for `deal` before anything was done.
    pub open spec fn initial(deal: DealSpecView, ns: Option<Seq<char>>, ew: Option<Seq<char>>) -> SessionView {
        SessionView { phase: Phase::Acquiring, deal, ns, ew, bids: Seq::empty(), result: None }
    }

    /// What holds of every session that `initial` and `spec_step` produce.
    pub open spec fn wf(self) -> bool {
        match self.phase {
            Phase::Acquiring => self.bids.len() == 0 && self.result is None,
            Phase::Awaiting(op) => {
                &&& self.result is None
                &&& op == EngineOp::NextBid ==> self.bids.len() < MAX_BIDS
                &&& op == EngineOp::IsAuctionComplete ==> 1 <= self.bids.len() <= MAX_BIDS
                &&& op != EngineOp::NextBid && op != EngineOp::IsAuctionComplete
                    ==> self.bids.len() == 0
            },
            Phase::Diagnosing(_, _) => self.result is None,
            Phase::Releasing => self.result is Some,
            Phase::Finished => true,
        }
    }

    /// The session waits for the reply to `op`.
    pub open spec fn await_op(self, op: EngineOp, call: EngineCallView) -> (SessionView, EngineCallView) {
        (SessionView { phase: Phase::Awaiting(op), ..self }, call)
    }

    /// The result is known: the instance is released.
    pub open spec fn conclude(self, result: DealResultView) -> (SessionView, EngineCallView) {
        (SessionView { phase: Phase::Releasing, result: Some(result), ..self }, EngineCallView::Release)
    }

    /// The call `op` returned `code`: the engine's diagnostic is fetched.
    pub open spec fn fail(self, op: EngineOp, code: i32) -> (SessionView, EngineCallView) {
        (SessionView { phase: Phase::Diagnosing(op, code), ..self }, EngineCallView::LastError)
    }

    /// The reply does not answer the call: the request fails.
    pub open spec fn reject(self) -> (SessionView, EngineCallView) {
        self.conclude(failure_view(self.deal.pbn, unexpected_reply_text()))
    }

    /// The instance exists: the cards are set, unless no call can take them.
    pub open spec fn begin(self) -> (SessionView, EngineCallView) {
        if has_nul(self.deal.pbn) {
            self.conclude(failure_view(self.deal.pbn, invalid_pbn_text(self.deal.pbn)))
        } else {
            self.await_op(EngineOp::SetDeal, EngineCallView::SetDeal(self.deal.pbn))
        }
    }

    /// The retrieval of bids starts.
    pub open spec fn begin_bidding(self) -> (SessionView, EngineCallView) {
        self.await_op(EngineOp::NextBid, EngineCallView::NextBid)
    }

    /// East-West's conventions are loaded, if any are chosen and the path can
    /// be handed over.
    pub open spec fn begin_ew(self) -> (SessionView, EngineCallView) {
        match self.ew {
            Some(p) if !has_nul(p) => self.await_op(
                EngineOp::LoadEw,
                EngineCallView::LoadConventions(p, EPBotSide::EW),
            ),
            _ => self.begin_bidding(),
        }
    }

    /// North-South's conventions are loaded, if any are chosen and the path
    /// can be handed over.
    pub open spec fn begin_ns(self) -> (SessionView, EngineCallView) {
        match self.ns {
            Some(p) if !has_nul(p) => self.await_op(
                EngineOp::LoadNs,
                EngineCallView::LoadConventions(p, EPBotSide::NS),
            ),
            _ => self.begin_ew(),
        }
    }

    /// The configuration call `op` succeeded: the next one is made.
    pub open spec fn configured(self, op: EngineOp) -> (SessionView, EngineCallView) {
        match op {
            EngineOp::SetDeal => self.await_op(
                EngineOp::SetDealer,
                EngineCallView::SetDealer(self.deal.dealer.spec_to_ffi()),
            ),
            EngineOp::SetDealer => self.await_op(
                EngineOp::SetVulnerability,
                EngineCallView::SetVulnerability(self.deal.vulnerability.spec_to_engine()),
            ),
            EngineOp::SetVulnerability => self.begin_ns(),
            EngineOp::LoadNs => self.begin_ew(),
            _ => self.begin_bidding(),
        }
    }

    /// The engine answered a bid retrieval.
    pub open spec fn on_bid(self, code: i32, token: Seq<char>) -> (SessionView, EngineCallView) {
        if code == AUCTION_COMPLETE {
            self.conclude(success_view(self.deal.pbn, self.bids))
        } else if code != 0 {
            self.fail(EngineOp::NextBid, code)
        } else {
            SessionView { bids: self.bids.push(token), ..self }.await_op(
                EngineOp::IsAuctionComplete,
                EngineCallView::IsAuctionComplete,
            )
        }
    }

    /// The engine answered the completion poll.
    pub open spec fn on_complete(self, code: i32, done: bool) -> (SessionView, EngineCallView) {
        if code != 0 {
            self.fail(EngineOp::IsAuctionComplete, code)
        } else if done {
            self.conclude(success_view(self.deal.pbn, self.bids))
        } else if self.bids.len() >= MAX_BIDS {
            self.conclude(failure_view(self.deal.pbn, too_long_text()))
        } else {
            self.begin_bidding()
        }
    }

    /// The session after the reply `r`, and the call to make next.
    pub open spec fn spec_step(self, r: EngineReplyView) -> (SessionView, EngineCallView) {
        match self.phase {
            Phase::Acquiring => match r {
                EngineReplyView::Acquired(true) => self.begin(),
                _ => (SessionView { phase: Phase::Finished, ..self }, EngineCallView::Finished),
            },
            Phase::Awaiting(EngineOp::NextBid) => match r {
                EngineReplyView::Bid(code, token) => self.on_bid(code, token),
                _ => self.reject(),
            },
            Phase::Awaiting(EngineOp::IsAuctionComplete) => match r {
                EngineReplyView::Complete(code, done) => self.on_complete(code, done),
                _ => self.reject(),
            },
            Phase::Awaiting(op) => match r {
                EngineReplyView::Status(code) => if code != 0 {
                    self.fail(op, code)
                } else {
                    self.configured(op)
                },
                _ => self.reject(),
            },
            Phase::Diagnosing(op, code) => match r {
                EngineReplyView::LastError(m) => self.conclude(
                    failure_view(self.deal.pbn, error_text(op.spec_name(), code as int, m)),
                ),
                _ => self.conclude(
                    failure_view(self.deal.pbn, error_text(op.spec_name(), code as int, None)),
                ),
            },
            Phase::Releasing => (
                SessionView { phase: Phase::Finished, ..self },
                EngineCallView::Finished,
            ),
            Phase::Finished => (self, EngineCallView::Finished),
        }
    }

    /// An upper bound on the replies that the session still takes.
    pub open spec fn budget(self) -> nat {
        match self.phase {
            Phase::Acquiring => (2 * MAX_BIDS + 9) as nat,
            Phase::Awaiting(EngineOp::SetDeal) => (2 * MAX_BIDS + 8) as nat,
            Phase::Awaiting(EngineOp::SetDealer) => (2 * MAX_BIDS + 7) as nat,
            Phase::Awaiting(EngineOp::SetVulnerability) => (2 * MAX_BIDS + 6) as nat,
            Phase::Awaiting(EngineOp::LoadNs) => (2 * MAX_BIDS + 5) as nat,
            Phase::Awaiting(EngineOp::LoadEw) => (2 * MAX_BIDS + 4) as nat,
            Phase::Awaiting(EngineOp::NextBid) => if self.bids.len() < MAX_BIDS {
                (2 * (MAX_BIDS - self.bids.len()) + 2) as nat
            } else {
                2
            },
            Phase::Awaiting(EngineOp::IsAuctionComplete) => if self.bids.len() <= MAX_BIDS {
                (2 * (MAX_BIDS - self.bids.len()) + 3) as nat
            } else {
                3
            },
            Phase::Diagnosing(_, _) => 2,
            Phase::Releasing => 1,
            Phase::Finished => 0,
        }
    }

    /// The session after the replies `rs`, one after the other.
    pub open spec fn run(self, rs: Seq<EngineReplyView>) -> SessionView
        decreases rs.len(),
    {
        if rs.len() == 0 {
            self
        } else {
            self.spec_step(rs[0]).0.run(rs.drop_first())
        }
    }

    /// The calls that the session asks for while it takes the replies `rs`.
    pub open spec fn calls(self, rs: Seq<EngineReplyView>) -> Seq<EngineCallView>
        decreases rs.len(),
    {
        if rs.len() == 0 {
            Seq::empty()
        } else {
            seq![self.spec_step(rs[0]).1] + self.spec_step(rs[0]).0.calls(rs.drop_first())
        }
    }
}

/// One request's conversation with an engine instance.
pub struct DealSession {
    phase: Phase,
    deal: DealSpec,
    ns_conventions: Option<String>,
    ew_conventions: Option<String>,
    bids: Vec<String>,
    result: Option<DealResult>,
}

impl View for DealSession {
    type V = SessionView;

    closed spec fn view(&self) -> SessionView {
        SessionView {
            phase: self.phase,
            deal: self.deal@,
            ns: opt_text(self.ns_conventions),
            ew: opt_text(self.ew_conventions),
            bids: texts(self.bids@),
            result: match self.result {
                Some(r) => Some(r@),
                None => None,
            },
        }
    }
}

/// The byte at which the first NUL character of `s` stands, if it holds one.
pub fn nul_position(s: &str) -> (r: Option<u128>)
    ensures
        r is Some == has_nul(s@),
        r is Some ==> r->0 == utf8_len(s@.take(first_index(s@, '\0'))),
{
    let v = chars_of(s);
    proof {
        assert(v@.subrange(0, v@.len() as int) =~= v@);
    }
    let k = find_char(&v, 0, v.len(), '\0');
    if k == v.len() {
        return None;
    }
    let mut n: u128 = 0;
    let mut i: usize = 0;
    while i < k
        invariant
            i <= k <= v@.len(),
            n == utf8_len(v@.take(i as int)),
            n <= 4 * i,
        decreases k - i,
    {
        let u: u32 = v[i] as u32;
        let w: u128 = if u < 0x80 {
            1
        } else if u < 0x800 {
            2
        } else if u < 0x10000 {
            3
        } else {
            4
        };
        proof {
            assert(v@.take(i as int + 1).drop_last() =~= v@.take(i as int));
        }
        n = n + w;
        i += 1;
    }
    Some(n)
}

impl EPBot {
    /// Opens the session for one deal. Nothing was done yet: the first call to
    /// make is `EngineCall::Acquire`, and its outcome is the first reply.
    pub fn process_one_deal(&self, deal: &DealSpec) -> (s: DealSession)
        ensures
            s@ == SessionView::initial(
                deal@,
                opt_text(self.ns_conventions),
                opt_text(self.ew_conventions),
            ),
            s@.wf(),
    {
        let s = DealSession {
            phase: Phase::Acquiring,
            deal: DealSpec {
                pbn: deal.pbn.clone(),
                dealer: deal.dealer,
                vulnerability: deal.vulnerability,
            },
            ns_conventions: clone_opt(&self.ns_conventions),
            ew_conventions: clone_opt(&self.ew_conventions),
            bids: Vec::new(),
            result: None,
        };
        proof {
            assert(texts(s.bids@) =~= Seq::<Seq<char>>::empty());
        }
        s
    }
}

/// The failed result for the deal `pbn` with the diagnostic `diagnostic`.
fn failure(pbn: &String, diagnostic: String) -> (r: DealResult)
    ensures
        r@ == failure_view(pbn@, diagnostic@),
{
    DealResult { deal: Some(pbn.clone()), auction: None, success: false, error: Some(diagnostic) }
}

impl DealSession {
    /// Where the session stands.
    pub fn phase(&self) -> (p: Phase)
        ensures
            p == self@.phase,
    {
        self.phase
    }

    /// Whether nothing is left to do.
    pub fn is_finished(&self) -> (b: bool)
        ensures
            b == (self@.phase == Phase::Finished),
    {
        match self.phase {
            Phase::Finished => true,
            _ => false,
        }
    }

    fn await_op(&mut self, op: EngineOp, call: EngineCall) -> (c: EngineCall)
        ensures
            (final(self)@, c@) == old(self)@.await_op(op, call@),
    {
        self.phase = Phase::Awaiting(op);
        call
    }

    fn conclude(&mut self, result: DealResult) -> (c: EngineCall)
        ensures
            (final(self)@, c@) == old(self)@.conclude(result@),
    {
        self.phase = Phase::Releasing;
        self.result = Some(result);
        EngineCall::Release
    }

    fn fail(&mut self, op: EngineOp, code: i32) -> (c: EngineCall)
        ensures
            (final(self)@, c@) == old(self)@.fail(op, code),
    {
        self.phase = Phase::Diagnosing(op, code);
        EngineCall::LastError
    }

    fn reject(&mut self) -> (c: EngineCall)
        ensures
            (final(self)@, c@) == old(self)@.reject(),
    {
        let result = failure(&self.deal.pbn, String::from_str("Unexpected reply from the engine"));
        self.conclude(result)
    }

    fn begin(&mut self) -> (c: EngineCall)
        ensures
            (final(self)@, c@) == old(self)@.begin(),
    {
        match nul_position(self.deal.pbn.as_str()) {
            Some(at) => {
                let mut msg = String::from_str(
                    "Invalid PBN string: nul byte found in provided data at position: ",
                );
                append_digits(&mut msg, at);
                let result = failure(&self.deal.pbn, msg);
                self.conclude(result)
            },
            None => {
                let call = EngineCall::SetDeal(self.deal.pbn.clone());
                self.await_op(EngineOp::SetDeal, call)
            },
        }
    }

    fn begin_bidding(&mut self) -> (c: EngineCall)
        ensures
            (final(self)@, c@) == old(self)@.begin_bidding(),
    {
        self.await_op(EngineOp::NextBid, EngineCall::NextBid)
    }

    fn begin_ew(&mut self) -> (c: EngineCall)
        ensures
            (final(self)@, c@) == old(self)@.begin_ew(),
    {
        let path = usable_path(&self.ew_conventions);
        match path {
            Some(p) => self.await_op(EngineOp::LoadEw, EngineCall::LoadConventions(p, EPBotSide::EW)),
            None => self.begin_bidding(),
        }
    }

    fn begin_ns(&mut self) -> (c: EngineCall)
        ensures
            (final(self)@, c@) == old(self)@.begin_ns(),
    {
        let path = usable_path(&self.ns_conventions);
        match path {
            Some(p) => self.await_op(EngineOp::LoadNs, EngineCall::LoadConventions(p, EPBotSide::NS)),
            None => self.begin_ew(),
        }
    }

    fn configured(&mut self, op: EngineOp) -> (c: EngineCall)
        ensures
            (final(self)@, c@) == old(self)@.configured(op),
    {
        match op {
            EngineOp::SetDeal => {
                let call = EngineCall::SetDealer(self.deal.dealer.to_ffi());
                self.await_op(EngineOp::SetDealer, call)
            },
            EngineOp::SetDealer => {
                let call = EngineCall::SetVulnerability(self.deal.vulnerability.to_engine());
                self.await_op(EngineOp::SetVulnerability, call)
            },
            EngineOp::SetVulnerability => self.begin_ns(),
            EngineOp::LoadNs => self.begin_ew(),
            _ => self.begin_bidding(),
        }
    }

    fn succeed(&mut self) -> (c: EngineCall)
        ensures
            (final(self)@, c@) == old(self)@.conclude(
                success_view(old(self)@.deal.pbn, old(self)@.bids),
            ),
    {
        let result = DealResult {
            deal: Some(self.deal.pbn.clone()),
            auction: Some(clone_texts(&self.bids)),
            success: true,
            error: None,
        };
        self.conclude(result)
    }

    fn on_bid(&mut self, code: i32, token: String) -> (c: EngineCall)
        ensures
            (final(self)@, c@) == old(self)@.on_bid(code, token@),
    {
        if code == AUCTION_COMPLETE {
            self.succeed()
        } else if code != 0 {
            self.fail(EngineOp::NextBid, code)
        } else {
            self.bids.push(token);
            proof {
                assert(texts(self.bids@) =~= texts(old(self).bids@).push(token@));
            }
            self.await_op(EngineOp::IsAuctionComplete, EngineCall::IsAuctionComplete)
        }
    }

    fn on_complete(&mut self, code: i32, done: bool) -> (c: EngineCall)
        ensures
            (final(self)@, c@) == old(self)@.on_complete(code, done),
    {
        if code != 0 {
            self.fail(EngineOp::IsAuctionComplete, code)
        } else if done {
            self.succeed()
        } else if self.bids.len() >= MAX_BIDS {
            let result = failure(&self.deal.pbn, BbaError::AuctionTooLong(MAX_BIDS).message());
            self.conclude(result)
        } else {
            self.begin_bidding()
        }
    }

    /// Takes the engine's reply to the call that was asked for last, and says
    /// which call to make next. The configuration goes in a fixed order: the
    /// cards, the dealer, the vulnerability, then the conventions of each
    /// side that has any. A call that does not succeed ends the request as a
    /// failure with the engine's diagnostic. Bids are retrieved until the
    /// engine signals the end, by the status of a retrieval or by its
    /// completion flag; an auction of `MAX_BIDS` bids that is not complete
    /// fails the request, and so does a reply that does not answer the call
    /// that was asked for. Whatever happened, the instance is released before
    /// the session finishes. A session that gets no instance finishes at
    /// once, without a result.
    pub fn step(&mut self, reply: EngineReply) -> (call: EngineCall)
        ensures
            (final(self)@, call@) == old(self)@.spec_step(reply@),
    {
        match self.phase {
            Phase::Acquiring => match reply {
                EngineReply::Acquired(true) => self.begin(),
                _ => {
                    self.phase = Phase::Finished;
                    EngineCall::Finished
                },
            },
            Phase::Awaiting(op) => match op {
                EngineOp::NextBid => match reply {
                    EngineReply::Bid(code, token) => self.on_bid(code, token),
                    _ => self.reject(),
                },
                EngineOp::IsAuctionComplete => match reply {
                    EngineReply::Complete(code, done) => self.on_complete(code, done),
                    _ => self.reject(),
                },
                _ => match reply {
                    EngineReply::Status(code) => if code != 0 {
                        self.fail(op, code)
                    } else {
                        self.configured(op)
                    },
                    _ => self.reject(),
                },
            },
            Phase::Diagnosing(op, code) => {
                let result = match reply {
                    EngineReply::LastError(Some(m)) => error_result(
                        self.deal.pbn.as_str(),
                        op.name(),
                        code,
                        Some(m.as_str()),
                    ),
                    _ => error_result(self.deal.pbn.as_str(), op.name(), code, None),
                };
                self.conclude(result)
            },
            Phase::Releasing => {
                self.phase = Phase::Finished;
                EngineCall::Finished
            },
            Phase::Finished => EngineCall::Finished,
        }
    }

    /// The result of a finished session: the engine's answer for the deal,
    /// or `EngineCreationFailed` where no instance could be had. `None` while
    /// the session is not finished.
    pub fn outcome(self) -> (r: Option<Result<DealResult, BbaError>>)
        ensures
            self@.phase != Phase::Finished ==> r is None,
            self@.phase == Phase::Finished ==> r is Some,
            self@.phase == Phase::Finished && self@.result is Some ==> r->0 is Ok && Some(
                r->0->Ok_0@,
            ) == self@.result,
            self@.phase == Phase::Finished && self@.result is None ==> (r->0 matches Err(
                BbaError::EngineCreationFailed(m),
            ) && m@ == "Failed to create EPBot instance"@),
    {
        match self.phase {
            Phase::Finished => match self.result {
                Some(result) => Some(Ok(result)),
                None => Some(
                    Err(
                        BbaError::EngineCreationFailed(
                            String::from_str("Failed to create EPBot instance"),
                        ),
                    ),
                ),
            },
            _ => None,
        }
    }
}

/// The convention file to load: the chosen one, unless it holds a NUL
/// character.
fn usable_path(path: &Option<String>) -> (r: Option<String>)
    ensures
        match opt_text(*path) {
            Some(p) if !has_nul(p) => opt_text(r) == Some(p),
            _ => r is None,
        },
{
    match path {
        Some(p) => match nul_position(p.as_str()) {
            None => Some(p.clone()),
            Some(_) => None,
        },
        None => None,
    }
}

} // verus!
