//! The batched exchange with an engine that runs as a process of its own:
//! the request document that is handed to it, and what is made of whatever
//! comes back.

use crate::batch::{count_mismatch, is_count_mismatch};
use crate::engine::{
    position_to_string, specs_view, DealResult, DealResultView, DealSpec, DealSpecView, EPBot,
};
use crate::error::BbaError;
use crate::text::{append_str, clone_opt, opt_text, texts};
use vstd::prelude::*;

verus! {

/// One deal of a request document.
#[derive(Debug, Clone, PartialEq, Eq)]
pub struct DealInput {
    pub pbn: String,
    /// The dealer's letter.
    pub dealer: String,
    /// The vulnerability's short code.
    pub vulnerability: String,
}

/// What a `DealInput` holds.
pub struct DealInputView {
    pub pbn: Seq<char>,
    pub dealer: Seq<char>,
    pub vulnerability: Seq<char>,
}

impl View for DealInput {
    type V = DealInputView;

    open spec fn view(&self) -> DealInputView {
        DealInputView {
            pbn: self.pbn@,
            dealer: self.dealer@,
            vulnerability: self.vulnerability@,
        }
    }
}

/// The request document of a batch: the convention file of each side and
/// the deals in the order in which they are to be answered.
#[derive(Debug, Clone, PartialEq, Eq)]
pub struct BatchRequest {
    pub ns_conventions: Option<String>,
    pub ew_conventions: Option<String>,
    pub deals: Vec<DealInput>,
}

/// What a list of deal inputs holds.
pub open spec fn inputs_view(v: Seq<DealInput>) -> Seq<DealInputView> {
    Seq::new(v.len(), |i: int| v[i]@)
}

/// The deal of a request document that stands for a request.
pub open spec fn input_of(d: DealSpecView) -> DealInputView {
    DealInputView {
        pbn: d.pbn,
        dealer: d.dealer.spec_letter(),
        vulnerability: d.vulnerability.spec_to_pbn(),
    }
}

/// The deals of the request document for the requests.
pub open spec fn inputs_of(deals: Seq<DealSpecView>) -> Seq<DealInputView> {
    Seq::new(deals.len(), |i: int| input_of(deals[i]))
}

/// What came back from the engine process.
#[derive(Debug, Clone, PartialEq, Eq)]
pub enum Exchange {
    /// The request document could not be written; holds the reason.
    Unserializable(String),
    /// The process could not be started; holds the reason.
    SpawnFailed(String),
    /// The process has no input to write to.
    NoInput,
    /// The request could not be written to the process; holds the reason.
    WriteFailed(String),
    /// The output of the process could not be read; holds the reason.
    ReadFailed(String),
    /// The process ended with a failure status; holds what it wrote to its
    /// error stream.
    Failed(String),
    /// The output is no result document: the reason, and the output.
    Malformed(String, String),
    /// The results of the result document, in its order.
    Results(Vec<DealResult>),
}

/// The message of the batch-level error for an exchange that gave no usable
/// results.
pub open spec fn exchange_error_text(x: Exchange) -> Seq<char> {
    match x {
        Exchange::Unserializable(e) => "JSON serialization error: "@ + e@,
        Exchange::SpawnFailed(e) => "Failed to spawn wrapper: "@ + e@,
        Exchange::NoInput => "Failed to open stdin"@,
        Exchange::WriteFailed(e) => "Failed to write to stdin: "@ + e@,
        Exchange::ReadFailed(e) => "Failed to read output: "@ + e@,
        Exchange::Failed(e) => "Wrapper exited with error: "@ + e@,
        Exchange::Malformed(e, out) => "Failed to parse response: "@ + e@ + " - Output: "@
            + out@,
        Exchange::Results(_) => Seq::empty(),
    }
}

/// Whether `e` is the batch-level error for the fault `x` of an exchange: a
/// document that could not be written is `InvalidPbn`, every other fault is
/// `FfiError`, each with the message of the fault.
pub open spec fn is_fault_of(e: BbaError, x: Exchange) -> bool {
    match x {
        Exchange::Results(_) => false,
        Exchange::Unserializable(_) => e matches BbaError::InvalidPbn(m) && m@
            == exchange_error_text(x),
        _ => e matches BbaError::FfiError(m) && m@ == exchange_error_text(x),
    }
}

/// Whether `r` is what a single result gives as the auction of its deal:
/// the bids of a success, `FfiError` for a success without bids, and
/// `EngineError` with the code -1 and the result's diagnostic for a failure.
pub open spec fn is_auction_of(r: Result<Vec<String>, BbaError>, result: DealResultView) -> bool {
    if result.success {
        match result.auction {
            Some(bids) => r is Ok && texts(r->Ok_0@) == bids,
            None => r matches Err(BbaError::FfiError(t)) && t@ == "No auction in result"@,
        }
    } else {
        r matches Err(BbaError::EngineError(c, t)) && c == -1 && t@ == (match result.error {
            Some(m) => m,
            None => "Unknown error"@,
        })
    }
}

/// The auction that a single result holds.
pub fn auction_of_result(result: DealResult) -> (r: Result<Vec<String>, BbaError>)
    ensures
        is_auction_of(r, result@),
{
    if result.success {
        match result.auction {
            Some(bids) => Ok(bids),
            None => Err(BbaError::FfiError(String::from_str("No auction in result"))),
        }
    } else {
        let msg = match result.error {
            Some(m) => m,
            None => String::from_str("Unknown error"),
        };
        Err(BbaError::EngineError(-1, msg))
    }
}

impl EPBot {
    /// The request document for the deals: the chosen conventions, and for
    /// each deal its cards, the dealer's letter and the vulnerability's short
    /// code, in the order of the deals.
    pub fn batch_request(&self, deals: &Vec<DealSpec>) -> (r: BatchRequest)
        ensures
            opt_text(r.ns_conventions) == opt_text(self.ns_conventions),
            opt_text(r.ew_conventions) == opt_text(self.ew_conventions),
            inputs_view(r.deals@) == inputs_of(specs_view(deals@)),
    {
        let mut inputs: Vec<DealInput> = Vec::new();
        let mut i: usize = 0;
        while i < deals.len()
            invariant
                i <= deals@.len(),
                inputs@.len() == i,
                forall|j: int| 0 <= j < i ==> (#[trigger] inputs@[j])@ == input_of(deals@[j]@),
            decreases deals@.len() - i,
        {
            let d = &deals[i];
            inputs.push(
                DealInput {
                    pbn: d.pbn.clone(),
                    dealer: position_to_string(d.dealer),
                    vulnerability: String::from_str(d.vulnerability.to_pbn()),
                },
            );
            i += 1;
        }
        proof {
            assert(inputs_view(inputs@) =~= inputs_of(specs_view(deals@)));
        }
        BatchRequest {
            ns_conventions: clone_opt(&self.ns_conventions),
            ew_conventions: clone_opt(&self.ew_conventions),
            deals: inputs,
        }
    }

    /// Concludes a batch of `submitted` requests from what came back from the
    /// engine process. Results are accepted as they stand, in their order, if
    /// there is exactly one for each request. Anything else fails the whole
    /// batch: a document that could not be written is `InvalidPbn`, every
    /// other fault is `FfiError`, each with the message of the fault.
    pub fn generate_auctions(&self, submitted: usize, exchange: Exchange) -> (r: Result<
        Vec<DealResult>,
        BbaError,
    >)
        ensures
            match exchange {
                Exchange::Results(results) => if results@.len() == submitted {
                    r is Ok && r->Ok_0@ == results@
                } else {
                    r is Err && is_count_mismatch(r->Err_0, submitted as nat, results@.len())
                },
                _ => r is Err && is_fault_of(r->Err_0, exchange),
            },
    {
        match exchange {
            Exchange::Results(results) => {
                if results.len() == submitted {
                    Ok(results)
                } else {
                    Err(count_mismatch(submitted, results.len()))
                }
            },
            Exchange::Unserializable(e) => {
                let mut m = String::from_str("JSON serialization error: ");
                append_str(&mut m, e.as_str());
                Err(BbaError::InvalidPbn(m))
            },
            Exchange::SpawnFailed(e) => {
                let mut m = String::from_str("Failed to spawn wrapper: ");
                append_str(&mut m, e.as_str());
                Err(BbaError::FfiError(m))
            },
            Exchange::NoInput => Err(BbaError::FfiError(String::from_str("Failed to open stdin"))),
            Exchange::WriteFailed(e) => {
                let mut m = String::from_str("Failed to write to stdin: ");
                append_str(&mut m, e.as_str());
                Err(BbaError::FfiError(m))
            },
            Exchange::ReadFailed(e) => {
                let mut m = String::from_str("Failed to read output: ");
                append_str(&mut m, e.as_str());
                Err(BbaError::FfiError(m))
            },
            Exchange::Failed(e) => {
                let mut m = String::from_str("Wrapper exited with error: ");
                append_str(&mut m, e.as_str());
                Err(BbaError::FfiError(m))
            },
            Exchange::Malformed(e, out) => {
                let mut m = String::from_str("Failed to parse response: ");
                append_str(&mut m, e.as_str());
                append_str(&mut m, " - Output: ");
                append_str(&mut m, out.as_str());
                Err(BbaError::FfiError(m))
            },
        }
    }

    /// Concludes the exchange for a single deal: the auction of its result.
    /// A fault of the exchange fails as in `generate_auctions`, and so does
    /// any number of results but one; the one result decides, as
    /// `is_auction_of` says.
    pub fn generate_auction(&self, exchange: Exchange) -> (r: Result<Vec<String>, BbaError>)
        ensures
            match exchange {
                Exchange::Results(results) => if results@.len() == 1 {
                    is_auction_of(r, results@[0]@)
                } else {
                    r is Err && is_count_mismatch(r->Err_0, 1, results@.len())
                },
                _ => r is Err && is_fault_of(r->Err_0, exchange),
            },
    {
        match self.generate_auctions(1, exchange) {
            Ok(results) => {
                let mut results = results;
                match results.pop() {
                    Some(result) => auction_of_result(result),
                    None => Err(BbaError::FfiError(String::from_str("No result returned"))),
                }
            },
            Err(e) => Err(e),
        }
    }
}

} // verus!
