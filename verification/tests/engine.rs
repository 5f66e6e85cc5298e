use bba_cli::bindings::{EPBotDealer, EPBotError, EPBotSide, EPBotVulnerability};
use bba_cli::driver::BatchRun;
use bba_cli::engine::{position_to_string, DealResult, DealSpec, EPBot, Position, Side, Vulnerability};
use bba_cli::error::BbaError;
use bba_cli::exchange::{auction_of_result, DealInput, Exchange};
use bba_cli::session::{
    error_result, nul_position, DealSession, EngineCall, EngineOp, EngineReply, Phase, MAX_BIDS,
};
use bba_cli::text::eq_ignore_ascii_case;

fn spec(pbn: &str) -> DealSpec {
    DealSpec { pbn: pbn.to_string(), dealer: Position::East, vulnerability: Vulnerability::Both }
}

fn configured_engine() -> EPBot {
    let mut engine = EPBot::new();
    engine.load_conventions(Some("ns.bbsa"), Side::NorthSouth).unwrap();
    engine.load_conventions(Some("ew.bbsa"), Side::EastWest).unwrap();
    engine
}

/// Runs a session against replies that are made from the call, and returns the calls made.
fn drive(session: &mut DealSession, answer: &mut dyn FnMut(&EngineCall) -> EngineReply) -> Vec<EngineCall> {
    let mut calls = vec![EngineCall::Acquire];
    let mut steps = 0;
    while !session.is_finished() {
        let reply = answer(calls.last().unwrap());
        calls.push(session.step(reply));
        steps += 1;
        assert!(steps <= 2 * MAX_BIDS + 9);
    }
    calls
}

fn releases(calls: &[EngineCall]) -> usize {
    calls.iter().filter(|c| **c == EngineCall::Release).count()
}

/// An engine that works and ends the auction after `len` bids by its flag.
fn cooperative(len: usize) -> impl FnMut(&EngineCall) -> EngineReply {
    let mut given = 0;
    move |call| match call {
        EngineCall::Acquire => EngineReply::Acquired(true),
        EngineCall::NextBid => {
            given += 1;
            EngineReply::Bid(0, format!("bid{}", given))
        }
        EngineCall::IsAuctionComplete => EngineReply::Complete(0, given >= len),
        EngineCall::LastError => EngineReply::LastError(Some("engine says no".to_string())),
        EngineCall::Release => EngineReply::Released,
        _ => EngineReply::Status(0),
    }
}

#[test]
fn engine_test_vulnerability_parsing() {
    assert_eq!(Vulnerability::from_pbn("None"), Some(Vulnerability::Neither));
    assert_eq!(Vulnerability::from_pbn("-"), Some(Vulnerability::Neither));
    assert_eq!(
        Vulnerability::from_pbn("NS"),
        Some(Vulnerability::NorthSouth)
    );
    assert_eq!(Vulnerability::from_pbn("EW"), Some(Vulnerability::EastWest));
    assert_eq!(Vulnerability::from_pbn("Both"), Some(Vulnerability::Both));
    assert_eq!(Vulnerability::from_pbn("All"), Some(Vulnerability::Both));
    assert_eq!(Vulnerability::from_pbn("invalid"), None);
}

#[test]
fn test_vulnerability_to_pbn() {
    assert_eq!(Vulnerability::Neither.to_pbn(), "None");
    assert_eq!(Vulnerability::NorthSouth.to_pbn(), "NS");
    assert_eq!(Vulnerability::EastWest.to_pbn(), "EW");
    assert_eq!(Vulnerability::Both.to_pbn(), "Both");
}

#[test]
fn test_vulnerability_ffi() {
    assert_eq!(Vulnerability::Neither.to_ffi(), 0);
    assert_eq!(Vulnerability::NorthSouth.to_ffi(), 1);
    assert_eq!(Vulnerability::EastWest.to_ffi(), 2);
    assert_eq!(Vulnerability::Both.to_ffi(), 3);
}

#[test]
fn test_error_descriptions() {
    assert_eq!(EPBotError::Success.description(), "Success");
    assert!(EPBotError::Success.is_ok());
    assert!(!EPBotError::ErrNullHandle.is_ok());
}

#[test]
fn vulnerability_tokens() {
    assert_eq!(Vulnerability::from_pbn(""), Some(Vulnerability::Neither));
    assert_eq!(Vulnerability::from_pbn("  "), Some(Vulnerability::Neither));
    assert_eq!(Vulnerability::from_pbn("none"), Some(Vulnerability::Neither));
    assert_eq!(Vulnerability::from_pbn("N-S"), Some(Vulnerability::NorthSouth));
    assert_eq!(Vulnerability::from_pbn(" n-s\t"), Some(Vulnerability::NorthSouth));
    assert_eq!(Vulnerability::from_pbn("E-W"), Some(Vulnerability::EastWest));
    assert_eq!(Vulnerability::from_pbn("ew"), Some(Vulnerability::EastWest));
    assert_eq!(Vulnerability::from_pbn("BOTH"), Some(Vulnerability::Both));
    assert_eq!(Vulnerability::from_pbn("all"), Some(Vulnerability::Both));
    assert_eq!(Vulnerability::from_pbn("N S"), None);
    assert_eq!(Vulnerability::from_pbn("Love"), None);
}

#[test]
fn vulnerability_goes_by_the_upper_case_of_unicode() {
    assert_eq!(Vulnerability::from_pbn("n\u{17f}"), Some(Vulnerability::NorthSouth));
    assert_eq!(Vulnerability::from_pbn("\u{2003}both\u{a0}"), Some(Vulnerability::Both));
    assert_eq!(Vulnerability::from_pbn("n\u{fb06}"), None);
}

#[test]
fn vulnerability_from_token_is_exact() {
    assert_eq!(Vulnerability::from_token("NONE"), Some(Vulnerability::Neither));
    assert_eq!(Vulnerability::from_token("None"), None);
    assert_eq!(Vulnerability::from_token("ALL"), Some(Vulnerability::Both));
    assert_eq!(Vulnerability::from_token(" NS"), None);
}

#[test]
fn engine_codes() {
    assert_eq!(EPBotError::Success.code(), 0);
    assert_eq!(EPBotError::ErrAuctionComplete.code(), -9);
    assert_eq!(EPBotError::from_code(-6), Some(EPBotError::ErrBiddingFailed));
    assert_eq!(EPBotError::from_code(-10), None);
    assert_eq!(EPBotError::from_code(1), None);
    for code in -9..=0 {
        assert_eq!(EPBotError::from_code(code).unwrap().code(), code);
    }
    assert_eq!(EPBotError::ErrOutOfMemory.description(), "Buffer too small or out of memory");
    assert_eq!(EPBotError::ErrAuctionComplete.description(), "Auction is complete");
    assert_eq!(EPBotDealer::West.code(), 3);
    assert_eq!(EPBotVulnerability::EW.code(), 2);
    assert_eq!(EPBotSide::NS.code(), 0);
    assert_eq!(EPBotSide::EW.code(), 1);
    assert_eq!(Side::NorthSouth.to_ffi(), 0);
    assert_eq!(Side::EastWest.to_ffi(), 1);
    assert_eq!(Side::EastWest.to_engine(), EPBotSide::EW);
    assert_eq!(Position::South.to_ffi(), EPBotDealer::South);
    assert_eq!(Position::South.to_ffi().code(), 2);
    assert_eq!(Vulnerability::NorthSouth.to_engine(), EPBotVulnerability::NS);
}

#[test]
fn seats_have_letters() {
    assert_eq!(position_to_string(Position::North), "N");
    assert_eq!(Position::East.letter(), "E");
    assert_eq!(Position::from_letter("W"), Some(Position::West));
    assert_eq!(Position::from_letter("w"), None);
    assert_eq!(Position::from_letter(""), None);
}

#[test]
fn text_comparisons() {
    assert!(eq_ignore_ascii_case("Dealer", "dEALER"));
    assert!(!eq_ignore_ascii_case("Dealer", "Dealers"));
    assert!(!eq_ignore_ascii_case("K", "\u{212a}"));
    assert!(eq_ignore_ascii_case("", ""));
    assert!(!eq_ignore_ascii_case("a-b", "a_b"));
}

#[test]
fn error_messages() {
    assert_eq!(
        BbaError::EngineCreationFailed("x".to_string()).message(),
        "Failed to create EPBot engine: x"
    );
    assert_eq!(BbaError::EngineError(-6, "bad".to_string()).message(), "EPBot error (code -6): bad");
    assert_eq!(
        BbaError::EngineError(i32::MIN, "".to_string()).message(),
        "EPBot error (code -2147483648): "
    );
    assert_eq!(BbaError::InvalidPbn("p".to_string()).message(), "Invalid PBN format: p");
    assert_eq!(
        BbaError::InvalidConventionFile("c".to_string()).message(),
        "Invalid convention file: c"
    );
    assert_eq!(BbaError::IoError("gone".to_string()).message(), "I/O error: gone");
    assert_eq!(BbaError::StringError("nul".to_string()).message(), "String conversion error: nul");
    assert_eq!(BbaError::InvalidPath.message(), "Invalid file path");
    assert_eq!(BbaError::AuctionTooLong(100).message(), "Auction too long (exceeded 100 bids)");
    assert_eq!(BbaError::AuctionTooLong(0).message(), "Auction too long (exceeded 0 bids)");
    assert_eq!(BbaError::AuctionComplete.message(), "Auction is complete");
    assert_eq!(BbaError::BufferTooSmall.message(), "Buffer too small");
    assert_eq!(BbaError::FfiError("f".to_string()).message(), "FFI error: f");
}

#[test]
fn conventions_are_kept_by_side() {
    let mut engine = EPBot::new();
    assert_eq!(engine.ns_conventions, None);
    assert_eq!(engine.ew_conventions, None);
    assert_eq!(engine.load_conventions(Some("a.bbsa"), Side::EastWest), Ok(()));
    assert_eq!(engine.ew_conventions, Some("a.bbsa".to_string()));
    assert_eq!(engine.ns_conventions, None);
    assert_eq!(engine.load_conventions(None, Side::NorthSouth), Err(BbaError::InvalidPath));
    assert_eq!(engine.ns_conventions, None);
    assert_eq!(engine.load_conventions(Some("b.bbsa"), Side::NorthSouth), Ok(()));
    assert_eq!(engine.load_conventions(Some("c.bbsa"), Side::NorthSouth), Ok(()));
    assert_eq!(engine.ns_conventions, Some("c.bbsa".to_string()));
    assert_eq!(engine.ew_conventions, Some("a.bbsa".to_string()));
}

#[test]
fn error_result_words() {
    let r = error_result("N:A", "set_deal", -2, None);
    assert_eq!(r.deal, Some("N:A".to_string()));
    assert_eq!(r.auction, None);
    assert!(!r.success);
    assert_eq!(r.error, Some("set_deal failed with code -2".to_string()));
    let r = error_result("N:A", "get_next_bid", -7, Some("boom"));
    assert_eq!(r.error, Some("get_next_bid failed (code -7): boom".to_string()));
}

#[test]
fn nul_positions_count_bytes() {
    assert_eq!(nul_position("abc"), None);
    assert_eq!(nul_position(""), None);
    assert_eq!(nul_position("\0"), Some(0));
    assert_eq!(nul_position("ab\0c\0"), Some(2));
    assert_eq!(nul_position("\u{e9}\u{20ac}\u{1f0a1}\0"), Some(9));
}

#[test]
fn a_session_configures_in_order_and_bids() {
    let engine = configured_engine();
    let mut session = engine.process_one_deal(&spec("N:A"));
    assert_eq!(session.phase(), Phase::Acquiring);
    let calls = drive(&mut session, &mut cooperative(3));
    assert_eq!(
        calls,
        vec![
            EngineCall::Acquire,
            EngineCall::SetDeal("N:A".to_string()),
            EngineCall::SetDealer(EPBotDealer::East),
            EngineCall::SetVulnerability(EPBotVulnerability::Both),
            EngineCall::LoadConventions("ns.bbsa".to_string(), EPBotSide::NS),
            EngineCall::LoadConventions("ew.bbsa".to_string(), EPBotSide::EW),
            EngineCall::NextBid,
            EngineCall::IsAuctionComplete,
            EngineCall::NextBid,
            EngineCall::IsAuctionComplete,
            EngineCall::NextBid,
            EngineCall::IsAuctionComplete,
            EngineCall::Release,
            EngineCall::Finished,
        ]
    );
    let result = session.outcome().unwrap().unwrap();
    assert!(result.success);
    assert_eq!(result.deal, Some("N:A".to_string()));
    assert_eq!(
        result.auction,
        Some(vec!["bid1".to_string(), "bid2".to_string(), "bid3".to_string()])
    );
    assert_eq!(result.error, None);
}

#[test]
fn a_session_skips_conventions_that_are_not_chosen() {
    let mut engine = EPBot::new();
    engine.load_conventions(Some("ew.bbsa"), Side::EastWest).unwrap();
    let mut session = engine.process_one_deal(&spec("N:A"));
    let calls = drive(&mut session, &mut cooperative(1));
    assert_eq!(calls[4], EngineCall::LoadConventions("ew.bbsa".to_string(), EPBotSide::EW));
    assert_eq!(calls[5], EngineCall::NextBid);

    let mut session = EPBot::new().process_one_deal(&spec("N:A"));
    let calls = drive(&mut session, &mut cooperative(1));
    assert_eq!(calls[3], EngineCall::SetVulnerability(EPBotVulnerability::Both));
    assert_eq!(calls[4], EngineCall::NextBid);

    let mut engine = EPBot::new();
    engine.load_conventions(Some("n\0s"), Side::NorthSouth).unwrap();
    let mut session = engine.process_one_deal(&spec("N:A"));
    let calls = drive(&mut session, &mut cooperative(1));
    assert_eq!(calls[4], EngineCall::NextBid);
}

#[test]
fn the_status_of_a_retrieval_ends_the_auction() {
    let mut given = 0;
    let mut answer = |call: &EngineCall| match call {
        EngineCall::Acquire => EngineReply::Acquired(true),
        EngineCall::NextBid => {
            given += 1;
            if given > 2 {
                EngineReply::Bid(-9, String::new())
            } else {
                EngineReply::Bid(0, "Pass".to_string())
            }
        }
        EngineCall::IsAuctionComplete => EngineReply::Complete(0, false),
        EngineCall::Release => EngineReply::Released,
        _ => EngineReply::Status(0),
    };
    let mut session = EPBot::new().process_one_deal(&spec("N:A"));
    let calls = drive(&mut session, &mut answer);
    assert_eq!(releases(&calls), 1);
    let result = session.outcome().unwrap().unwrap();
    assert!(result.success);
    assert_eq!(result.auction, Some(vec!["Pass".to_string(), "Pass".to_string()]));
}

#[test]
fn an_auction_of_no_bids_is_a_success() {
    let mut answer = |call: &EngineCall| match call {
        EngineCall::Acquire => EngineReply::Acquired(true),
        EngineCall::NextBid => EngineReply::Bid(-9, "junk".to_string()),
        EngineCall::Release => EngineReply::Released,
        _ => EngineReply::Status(0),
    };
    let mut session = EPBot::new().process_one_deal(&spec("N:A"));
    drive(&mut session, &mut answer);
    let result = session.outcome().unwrap().unwrap();
    assert!(result.success);
    assert_eq!(result.auction, Some(vec![]));
}

#[test]
fn an_engine_that_never_ends_the_auction_fails_the_request() {
    let mut session = configured_engine().process_one_deal(&spec("N:A"));
    let calls = drive(&mut session, &mut cooperative(usize::MAX));
    assert_eq!(calls.iter().filter(|c| **c == EngineCall::NextBid).count(), MAX_BIDS);
    assert_eq!(releases(&calls), 1);
    assert_eq!(calls[calls.len() - 2], EngineCall::Release);
    let result = session.outcome().unwrap().unwrap();
    assert!(!result.success);
    assert_eq!(result.auction, None);
    assert_eq!(result.deal, Some("N:A".to_string()));
    assert_eq!(result.error, Some("Auction too long (exceeded 100 bids)".to_string()));
}

#[test]
fn an_auction_that_ends_with_the_last_allowed_bid_is_a_success() {
    let mut session = EPBot::new().process_one_deal(&spec("N:A"));
    drive(&mut session, &mut cooperative(MAX_BIDS));
    let result = session.outcome().unwrap().unwrap();
    assert!(result.success);
    assert_eq!(result.auction.unwrap().len(), MAX_BIDS);
}

#[test]
fn the_instance_is_released_once_whichever_call_fails() {
    let failing = [
        (EngineOp::SetDeal, "set_deal"),
        (EngineOp::SetDealer, "set_dealer"),
        (EngineOp::SetVulnerability, "set_vulnerability"),
        (EngineOp::LoadNs, "load_conventions(NS)"),
        (EngineOp::LoadEw, "load_conventions(EW)"),
        (EngineOp::NextBid, "get_next_bid"),
        (EngineOp::IsAuctionComplete, "is_auction_complete"),
    ];
    for (n, (op, name)) in failing.iter().enumerate() {
        assert_eq!(op.name(), *name);
        let mut seen = 0;
        let mut answer = |call: &EngineCall| match call {
            EngineCall::Acquire => EngineReply::Acquired(true),
            EngineCall::LastError => EngineReply::LastError(Some("why".to_string())),
            EngineCall::Release => EngineReply::Released,
            EngineCall::NextBid => {
                seen += 1;
                if seen > n { EngineReply::Bid(-6, String::new()) } else { EngineReply::Bid(0, "1C".to_string()) }
            }
            EngineCall::IsAuctionComplete => {
                seen += 1;
                if seen > n { EngineReply::Complete(-7, true) } else { EngineReply::Complete(0, false) }
            }
            _ => {
                seen += 1;
                if seen > n { EngineReply::Status(-5) } else { EngineReply::Status(0) }
            }
        };
        let mut session = configured_engine().process_one_deal(&spec("N:A"));
        let calls = drive(&mut session, &mut answer);
        assert_eq!(releases(&calls), 1);
        assert_eq!(calls.len(), n + 5);
        assert_eq!(calls[calls.len() - 3], EngineCall::LastError);
        assert_eq!(calls[calls.len() - 2], EngineCall::Release);
        let result = session.outcome().unwrap().unwrap();
        assert!(!result.success);
        assert_eq!(result.auction, None);
        let code = match op {
            EngineOp::NextBid => -6,
            EngineOp::IsAuctionComplete => -7,
            _ => -5,
        };
        assert_eq!(result.error, Some(format!("{} failed (code {}): why", name, code)));
    }
}

#[test]
fn a_failure_without_a_diagnostic_names_the_code() {
    let mut answer = |call: &EngineCall| match call {
        EngineCall::Acquire => EngineReply::Acquired(true),
        EngineCall::LastError => EngineReply::LastError(None),
        EngineCall::Release => EngineReply::Released,
        _ => EngineReply::Status(-2),
    };
    let mut session = EPBot::new().process_one_deal(&spec("N:A"));
    let calls = drive(&mut session, &mut answer);
    assert_eq!(releases(&calls), 1);
    let result = session.outcome().unwrap().unwrap();
    assert_eq!(result.error, Some("set_deal failed with code -2".to_string()));
}

#[test]
fn no_instance_no_release() {
    let mut session = EPBot::new().process_one_deal(&spec("N:A"));
    assert!(!session.is_finished());
    let call = session.step(EngineReply::Acquired(false));
    assert_eq!(call, EngineCall::Finished);
    assert!(session.is_finished());
    assert_eq!(
        session.outcome(),
        Some(Err(BbaError::EngineCreationFailed("Failed to create EPBot instance".to_string())))
    );
}

#[test]
fn an_unfinished_session_has_no_outcome() {
    let mut session = EPBot::new().process_one_deal(&spec("N:A"));
    session.step(EngineReply::Acquired(true));
    assert_eq!(session.phase(), Phase::Awaiting(EngineOp::SetDeal));
    assert_eq!(session.outcome(), None);
}

#[test]
fn cards_with_a_nul_are_not_handed_over() {
    let mut session = EPBot::new().process_one_deal(&spec("N:\u{e9}\0A"));
    let call = session.step(EngineReply::Acquired(true));
    assert_eq!(call, EngineCall::Release);
    assert_eq!(session.phase(), Phase::Releasing);
    assert_eq!(session.step(EngineReply::Released), EngineCall::Finished);
    let result = session.outcome().unwrap().unwrap();
    assert!(!result.success);
    assert_eq!(
        result.error,
        Some("Invalid PBN string: nul byte found in provided data at position: 4".to_string())
    );
}

#[test]
fn a_reply_of_the_wrong_kind_fails_the_request() {
    let mut session = EPBot::new().process_one_deal(&spec("N:A"));
    session.step(EngineReply::Acquired(true));
    assert_eq!(session.step(EngineReply::Released), EngineCall::Release);
    assert_eq!(session.step(EngineReply::Status(0)), EngineCall::Finished);
    assert_eq!(session.step(EngineReply::Status(0)), EngineCall::Finished);
    let result = session.outcome().unwrap().unwrap();
    assert!(!result.success);
    assert_eq!(result.error, Some("Unexpected reply from the engine".to_string()));
}

fn drive_batch(run: &mut BatchRun, first: EngineCall, answer: &mut dyn FnMut(&EngineCall) -> EngineReply) -> Vec<EngineCall> {
    let mut calls = vec![first];
    while !run.is_finished() {
        let reply = answer(calls.last().unwrap());
        calls.push(run.step(reply));
        assert!(calls.len() < 10_000);
    }
    calls
}

#[test]
fn a_batch_gives_one_result_for_each_request_in_order() {
    let deals = vec![spec("first"), spec("second"), spec("third")];
    let (mut run, first) = EPBot::new().start_batch(deals);
    assert_eq!(first, EngineCall::Acquire);
    let mut current = String::new();
    let mut answer = |call: &EngineCall| match call {
        EngineCall::Acquire => EngineReply::Acquired(true),
        EngineCall::SetDeal(pbn) => {
            current = pbn.clone();
            if pbn == "second" { EngineReply::Status(-2) } else { EngineReply::Status(0) }
        }
        EngineCall::NextBid => EngineReply::Bid(0, format!("bid-{}", current)),
        EngineCall::IsAuctionComplete => EngineReply::Complete(0, true),
        EngineCall::LastError => EngineReply::LastError(Some("bad hand".to_string())),
        EngineCall::Release => EngineReply::Released,
        _ => EngineReply::Status(0),
    };
    let calls = drive_batch(&mut run, first, &mut answer);
    assert_eq!(calls.iter().filter(|c| **c == EngineCall::Acquire).count(), 3);
    assert_eq!(releases(&calls), 3);
    assert_eq!(calls.last(), Some(&EngineCall::Finished));
    let results = run.outcome().unwrap().unwrap();
    assert_eq!(results.len(), 3);
    assert_eq!(results[0].deal, Some("first".to_string()));
    assert_eq!(results[0].auction, Some(vec!["bid-first".to_string()]));
    assert_eq!(results[1].deal, Some("second".to_string()));
    assert!(!results[1].success);
    assert_eq!(results[1].error, Some("set_deal failed (code -2): bad hand".to_string()));
    assert_eq!(results[2].deal, Some("third".to_string()));
    assert_eq!(results[2].auction, Some(vec!["bid-third".to_string()]));
}

#[test]
fn a_batch_without_requests_is_finished_at_once() {
    let (run, first) = configured_engine().start_batch(vec![]);
    assert_eq!(first, EngineCall::Finished);
    assert!(run.is_finished());
    assert_eq!(run.outcome(), Some(Ok(vec![])));
}

#[test]
fn a_batch_is_given_up_when_no_instance_can_be_had() {
    let (mut run, first) = EPBot::new().start_batch(vec![spec("a"), spec("b")]);
    let mut acquired = 0;
    let mut answer = |call: &EngineCall| match call {
        EngineCall::Acquire => {
            acquired += 1;
            EngineReply::Acquired(acquired < 2)
        }
        EngineCall::NextBid => EngineReply::Bid(-9, String::new()),
        EngineCall::Release => EngineReply::Released,
        _ => EngineReply::Status(0),
    };
    let calls = drive_batch(&mut run, first, &mut answer);
    assert_eq!(releases(&calls), 1);
    assert_eq!(
        run.outcome(),
        Some(Err(BbaError::EngineCreationFailed("Failed to create EPBot instance".to_string())))
    );
}

#[test]
fn an_unfinished_batch_has_no_outcome() {
    let (run, _) = EPBot::new().start_batch(vec![spec("a")]);
    assert!(!run.is_finished());
    assert_eq!(run.outcome(), None);
}

#[test]
fn the_request_document_holds_short_codes() {
    let engine = configured_engine();
    let deals = vec![
        DealSpec { pbn: "N:A".to_string(), dealer: Position::South, vulnerability: Vulnerability::Neither },
        DealSpec { pbn: "E:K".to_string(), dealer: Position::West, vulnerability: Vulnerability::EastWest },
    ];
    let request = engine.batch_request(&deals);
    assert_eq!(request.ns_conventions, Some("ns.bbsa".to_string()));
    assert_eq!(request.ew_conventions, Some("ew.bbsa".to_string()));
    assert_eq!(
        request.deals,
        vec![
            DealInput { pbn: "N:A".to_string(), dealer: "S".to_string(), vulnerability: "None".to_string() },
            DealInput { pbn: "E:K".to_string(), dealer: "W".to_string(), vulnerability: "EW".to_string() },
        ]
    );
    assert_eq!(EPBot::new().batch_request(&vec![]).deals, vec![]);
    assert_eq!(EPBot::new().batch_request(&vec![]).ns_conventions, None);
}

fn ok_result(bid: &str) -> DealResult {
    DealResult { deal: None, auction: Some(vec![bid.to_string()]), success: true, error: None }
}

#[test]
fn results_of_another_count_fail_the_batch() {
    let engine = EPBot::new();
    let r = engine.generate_auctions(2, Exchange::Results(vec![ok_result("1C")]));
    assert_eq!(r.unwrap_err(), BbaError::FfiError("Expected 2 results, got 1".to_string()));
    let r = engine.generate_auctions(0, Exchange::Results(vec![ok_result("1C")]));
    assert_eq!(r.unwrap_err(), BbaError::FfiError("Expected 0 results, got 1".to_string()));
    let r = engine.generate_auctions(2, Exchange::Results(vec![ok_result("1C"), ok_result("1D")]));
    let results = r.unwrap();
    assert_eq!(results[0].auction, Some(vec!["1C".to_string()]));
    assert_eq!(results[1].auction, Some(vec!["1D".to_string()]));
}

#[test]
fn faults_of_the_exchange_fail_the_batch() {
    let engine = EPBot::new();
    let text = |x: Exchange| engine.generate_auctions(1, x).unwrap_err();
    assert_eq!(
        text(Exchange::Unserializable("e".to_string())),
        BbaError::InvalidPbn("JSON serialization error: e".to_string())
    );
    assert_eq!(
        text(Exchange::SpawnFailed("e".to_string())),
        BbaError::FfiError("Failed to spawn wrapper: e".to_string())
    );
    assert_eq!(text(Exchange::NoInput), BbaError::FfiError("Failed to open stdin".to_string()));
    assert_eq!(
        text(Exchange::WriteFailed("e".to_string())),
        BbaError::FfiError("Failed to write to stdin: e".to_string())
    );
    assert_eq!(
        text(Exchange::ReadFailed("e".to_string())),
        BbaError::FfiError("Failed to read output: e".to_string())
    );
    assert_eq!(
        text(Exchange::Failed("crash".to_string())),
        BbaError::FfiError("Wrapper exited with error: crash".to_string())
    );
    assert_eq!(
        text(Exchange::Malformed("eof".to_string(), "{".to_string())),
        BbaError::FfiError("Failed to parse response: eof - Output: {".to_string())
    );
}

#[test]
fn a_single_auction() {
    let engine = EPBot::new();
    assert_eq!(
        engine.generate_auction(Exchange::Results(vec![ok_result("1C")])),
        Ok(vec!["1C".to_string()])
    );
    assert_eq!(
        engine.generate_auction(Exchange::Results(vec![])),
        Err(BbaError::FfiError("Expected 1 results, got 0".to_string()))
    );
    assert_eq!(
        engine.generate_auction(Exchange::Failed("x".to_string())),
        Err(BbaError::FfiError("Wrapper exited with error: x".to_string()))
    );
    let odd = DealResult { deal: None, auction: None, success: true, error: None };
    assert_eq!(
        auction_of_result(odd),
        Err(BbaError::FfiError("No auction in result".to_string()))
    );
    let failed = DealResult { deal: None, auction: None, success: false, error: Some("why".to_string()) };
    assert_eq!(auction_of_result(failed), Err(BbaError::EngineError(-1, "why".to_string())));
    let silent = DealResult { deal: None, auction: None, success: false, error: None };
    assert_eq!(
        engine.generate_auction(Exchange::Results(vec![silent])),
        Err(BbaError::EngineError(-1, "Unknown error".to_string()))
    );
}
