use bba_cli::batch::{
    apply_results, collect_deal_specs, count_deals, deal_content_of, format_auction, merge_result,
    process_pbn_file, ProcessingStats,
};
use bba_cli::engine::{DealResult, Position, Vulnerability};
use bba_cli::error::BbaError;
use bba_cli::pbn::{parse_pbn, ParsedDeal, PbnGame};

fn bids(tokens: &[&str]) -> Vec<String> {
    tokens.iter().map(|t| t.to_string()).collect()
}

fn auction(tokens: &[&str]) -> DealResult {
    DealResult { deal: None, auction: Some(bids(tokens)), success: true, error: None }
}

fn failed(message: &str) -> DealResult {
    DealResult { deal: None, auction: None, success: false, error: Some(message.to_string()) }
}

fn game(tags: &[(&str, &str)], deal: Option<&str>) -> PbnGame {
    PbnGame {
        tags: tags.iter().map(|(n, v)| (n.to_string(), v.to_string())).collect(),
        deal: deal.map(|d| ParsedDeal { tag: d.to_string() }),
        other_lines: vec![],
    }
}

const DEAL: &str = "[Deal \"N:AKQ.JT9.876.5432 J.KQ.AKQJ.T9876 T98.A87.T95.AKQJ 765432.65432.432.\"]";

#[test]
fn batch_test_format_auction() {
    let bids = vec![
        "1H".to_string(),
        "Pass".to_string(),
        "2H".to_string(),
        "Pass".to_string(),
        "Pass".to_string(),
        "Pass".to_string(),
    ];
    let formatted = format_auction(&bids, Position::North);
    assert!(formatted.contains("1H Pass 2H Pass"));
    assert!(formatted.contains("Pass Pass"));
}

#[test]
fn processor_test_format_auction() {
    let bids = vec![
        "1H".to_string(),
        "Pass".to_string(),
        "2H".to_string(),
        "Pass".to_string(),
        "Pass".to_string(),
        "Pass".to_string(),
    ];
    let formatted = format_auction(&bids, Position::North);
    assert!(formatted.contains("1H Pass 2H Pass"));
    assert!(formatted.contains("Pass Pass"));
}

#[test]
fn six_bids_make_two_lines() {
    let formatted = format_auction(&bids(&["1H", "Pass", "2H", "Pass", "Pass", "Pass"]), Position::East);
    assert_eq!(formatted, "1H Pass 2H Pass\nPass Pass\n");
}

#[test]
fn auction_lines_hold_four_bids() {
    assert_eq!(format_auction(&[], Position::North), "");
    assert_eq!(format_auction(&bids(&["Pass"]), Position::North), "Pass\n");
    assert_eq!(
        format_auction(&bids(&["1C", "1D", "1H", "1S"]), Position::North),
        "1C 1D 1H 1S\n"
    );
    assert_eq!(
        format_auction(&bids(&["1C", "1D", "1H", "1S", "1NT", "Double", "Pass", "Pass", "Pass"]), Position::North),
        "1C 1D 1H 1S\n1NT Double Pass Pass\nPass\n"
    );
}

#[test]
fn deal_content_is_what_stands_in_the_tag() {
    assert_eq!(deal_content_of("[Deal \"N:AKQ\"]"), "N:AKQ");
    assert_eq!(deal_content_of("[Deal \"\"]"), "");
    assert_eq!(deal_content_of("N:AKQ"), "N:AKQ");
    assert_eq!(deal_content_of("[Deal \"N:AKQ"), "[Deal \"N:AKQ");
    assert_eq!(deal_content_of("[deal \"N:AKQ\"]"), "[deal \"N:AKQ\"]");
    assert_eq!(deal_content_of("[Deal \""), "[Deal \"");
}

#[test]
fn requests_default_to_north_and_none() {
    let games = vec![game(&[("Deal", "x")], Some(DEAL))];
    let specs = collect_deal_specs(&games);
    assert_eq!(specs.len(), 1);
    assert_eq!(
        specs[0].pbn,
        "N:AKQ.JT9.876.5432 J.KQ.AKQJ.T9876 T98.A87.T95.AKQJ 765432.65432.432."
    );
    assert_eq!(specs[0].dealer, Position::North);
    assert_eq!(specs[0].vulnerability, Vulnerability::Neither);
}

#[test]
fn requests_take_dealer_and_vulnerability_from_the_tags() {
    let games = vec![
        game(&[("Dealer", "W"), ("Vulnerable", "E-W")], Some(DEAL)),
        game(&[("Dealer", "X"), ("Vulnerable", "Love")], Some(DEAL)),
        game(&[("Dealer", "S"), ("Vulnerable", "All")], None),
    ];
    let specs = collect_deal_specs(&games);
    assert_eq!(specs.len(), 2);
    assert_eq!(specs[0].dealer, Position::West);
    assert_eq!(specs[0].vulnerability, Vulnerability::EastWest);
    assert_eq!(specs[1].dealer, Position::North);
    assert_eq!(specs[1].vulnerability, Vulnerability::Neither);
    assert_eq!(count_deals(&games), 2);
}

#[test]
fn a_game_without_a_deal_is_skipped_not_counted() {
    let mut games = vec![game(&[("Event", "A")], None)];
    assert!(collect_deal_specs(&games).is_empty());
    let before = games.clone();
    let stats = apply_results(&mut games, &vec![]).unwrap();
    assert_eq!(stats, ProcessingStats { deals_processed: 0, auctions_generated: 0, errors: 0 });
    assert_eq!(games, before);
}

#[test]
fn one_deal_without_dealer_gets_its_auction() {
    let mut games = vec![game(&[("Event", "A"), ("Deal", "x")], Some(DEAL))];
    let specs = collect_deal_specs(&games);
    assert_eq!(specs[0].dealer, Position::North);
    assert_eq!(specs[0].vulnerability, Vulnerability::Neither);
    let stats = apply_results(&mut games, &vec![auction(&["1H", "Pass", "Pass"])]).unwrap();
    assert_eq!(stats, ProcessingStats { deals_processed: 1, auctions_generated: 1, errors: 0 });
    assert_eq!(games[0].get_tag("Auction"), Some("N"));
    assert_eq!(games[0].other_lines, vec!["1H Pass Pass\n".to_string()]);
    assert_eq!(games[0].tags.len(), 3);
}

#[test]
fn results_go_to_the_games_they_were_asked_for() {
    let mut games = vec![
        game(&[("Event", "0")], None),
        game(&[("Event", "1"), ("Dealer", "E")], Some(DEAL)),
        game(&[("Event", "2")], None),
        game(&[("Event", "3")], None),
        game(&[("Event", "4"), ("Dealer", "S")], Some(DEAL)),
        game(&[("Event", "5"), ("Dealer", "W")], Some(DEAL)),
        game(&[("Event", "6")], None),
    ];
    let before = games.clone();
    let results = vec![auction(&["1C"]), failed("no luck"), auction(&["2C", "Pass"])];
    let stats = apply_results(&mut games, &results).unwrap();
    assert_eq!(stats, ProcessingStats { deals_processed: 3, auctions_generated: 2, errors: 1 });
    assert_eq!(games[0], before[0]);
    assert_eq!(games[2], before[2]);
    assert_eq!(games[3], before[3]);
    assert_eq!(games[6], before[6]);
    assert_eq!(games[4], before[4]);
    assert_eq!(games[1].get_tag("Auction"), Some("E"));
    assert_eq!(games[1].other_lines, vec!["1C\n".to_string()]);
    assert_eq!(games[5].get_tag("Auction"), Some("W"));
    assert_eq!(games[5].other_lines, vec!["2C Pass\n".to_string()]);
}

#[test]
fn a_success_without_bids_changes_and_counts_nothing() {
    let mut games = vec![game(&[("Event", "A")], Some(DEAL))];
    let before = games.clone();
    let odd = DealResult { deal: None, auction: None, success: true, error: None };
    let stats = apply_results(&mut games, &vec![odd]).unwrap();
    assert_eq!(stats, ProcessingStats { deals_processed: 1, auctions_generated: 0, errors: 0 });
    assert_eq!(games, before);
}

#[test]
fn a_failure_with_bids_is_a_failure() {
    let mut games = vec![game(&[("Event", "A")], Some(DEAL))];
    let before = games.clone();
    let odd = DealResult { deal: None, auction: Some(bids(&["1C"])), success: false, error: None };
    let stats = apply_results(&mut games, &vec![odd]).unwrap();
    assert_eq!(stats, ProcessingStats { deals_processed: 1, auctions_generated: 0, errors: 1 });
    assert_eq!(games, before);
}

#[test]
fn another_number_of_results_is_no_partial_merge() {
    let mut games = vec![
        game(&[("Event", "A")], Some(DEAL)),
        game(&[("Event", "B")], Some(DEAL)),
    ];
    let before = games.clone();
    let r = apply_results(&mut games, &vec![auction(&["1C"])]);
    assert_eq!(r, Err(BbaError::FfiError("Expected 2 results, got 1".to_string())));
    assert_eq!(games, before);
    let r = apply_results(&mut games, &vec![auction(&["1C"]), auction(&["1D"]), auction(&["1H"])]);
    assert_eq!(r, Err(BbaError::FfiError("Expected 2 results, got 3".to_string())));
    assert_eq!(games, before);
}

#[test]
fn merge_result_replaces_an_auction_tag() {
    let mut g = game(&[("auction", "W"), ("Dealer", "S")], Some(DEAL));
    merge_result(&mut g, &auction(&["Pass", "Pass", "Pass", "Pass"]));
    assert_eq!(g.tags, vec![("auction".to_string(), "S".to_string()), ("Dealer".to_string(), "S".to_string())]);
    assert_eq!(g.other_lines, vec!["Pass Pass Pass Pass\n".to_string()]);
    merge_result(&mut g, &failed("x"));
    assert_eq!(g.other_lines.len(), 1);
}

#[test]
fn default_stats_are_zero() {
    assert_eq!(
        ProcessingStats::default(),
        ProcessingStats { deals_processed: 0, auctions_generated: 0, errors: 0 }
    );
}

#[test]
fn a_dry_run_counts_and_writes_nothing() {
    let mut games = parse_pbn("[Event \"A\"]\n[Dealer \"S\"]\n");
    games[0].resolve_deal(&vec![Some(ParsedDeal { tag: DEAL.to_string() })]);
    let out = process_pbn_file(&mut games, &vec![auction(&["1H", "Pass"])], true).unwrap();
    assert_eq!(out.text, None);
    assert_eq!(out.stats, ProcessingStats { deals_processed: 1, auctions_generated: 1, errors: 0 });
    assert_eq!(games[0].get_tag("Auction"), Some("S"));
}

#[test]
fn a_batch_writes_the_annotated_document() {
    let mut games = parse_pbn("[Event \"A\"]\n[Dealer \"S\"]\n; note\n\n[Event \"B\"]\n");
    games[0].resolve_deal(&vec![Some(ParsedDeal { tag: DEAL.to_string() })]);
    let out = process_pbn_file(&mut games, &vec![auction(&["1H", "Pass", "2H", "Pass", "Pass"])], false).unwrap();
    assert_eq!(
        out.text,
        Some(
            "[Event \"A\"]\n[Dealer \"S\"]\n[Auction \"S\"]\n; note\n1H Pass 2H Pass\nPass\n\n\n[Event \"B\"]\n"
                .to_string()
        )
    );
    let r = process_pbn_file(&mut games, &vec![], false);
    assert_eq!(r, Err(BbaError::FfiError("Expected 1 results, got 0".to_string())));
}
