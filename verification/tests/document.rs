use bba_cli::engine::{Position, Vulnerability};
use bba_cli::pbn::{parse_pbn, parse_tag_pair, render_pbn, ParsedDeal, PbnGame};

fn tag(name: &str, value: &str) -> (String, String) {
    (name.to_string(), value.to_string())
}

#[test]
fn batch_test_parse_tag_pair() {
    let (name, value) = parse_tag_pair("[Deal \"N:AKQ...\"]").unwrap();
    assert_eq!(name, "Deal");
    assert_eq!(value, "N:AKQ...");

    let (name, value) = parse_tag_pair("[Dealer \"N\"]").unwrap();
    assert_eq!(name, "Dealer");
    assert_eq!(value, "N");
}

#[test]
fn processor_test_parse_tag_pair() {
    let (name, value) = parse_tag_pair("[Deal \"N:AKQ...\"]").unwrap();
    assert_eq!(name, "Deal");
    assert_eq!(value, "N:AKQ...");

    let (name, value) = parse_tag_pair("[Dealer \"N\"]").unwrap();
    assert_eq!(name, "Dealer");
    assert_eq!(value, "N");
}

#[test]
fn tag_pair_without_space_is_none() {
    assert_eq!(parse_tag_pair("[]"), None);
    assert_eq!(parse_tag_pair("[Event]"), None);
    assert_eq!(parse_tag_pair(""), None);
}

#[test]
fn tag_pair_strips_every_bracket_and_quote() {
    assert_eq!(parse_tag_pair("[[[a b]]]"), Some(tag("a", "b")));
    assert_eq!(parse_tag_pair("[Site \"\"London\"\"]"), Some(tag("Site", "London")));
    assert_eq!(parse_tag_pair("[Event \"\"]"), Some(tag("Event", "")));
    assert_eq!(parse_tag_pair("[ ]"), Some(tag("", "")));
}

#[test]
fn tag_pair_keeps_spaces_inside_the_value() {
    assert_eq!(
        parse_tag_pair("[Event \"Cavendish  Pairs \"]"),
        Some(tag("Event", "Cavendish  Pairs "))
    );
    assert_eq!(parse_tag_pair("Name rest of line"), Some(tag("Name", "rest of line")));
}

#[test]
fn get_tag_ignores_ascii_case_and_takes_the_first() {
    let game = PbnGame {
        tags: vec![tag("Event", "a"), tag("dealer", "S"), tag("DEALER", "W")],
        deal: None,
        other_lines: vec![],
    };
    assert_eq!(game.get_tag("Dealer"), Some("S"));
    assert_eq!(game.get_tag("EVENT"), Some("a"));
    assert_eq!(game.get_tag("Vulnerable"), None);
    assert_eq!(game.get_tag("Deale"), None);
}

#[test]
fn set_tag_updates_the_first_match_or_appends() {
    let mut game = PbnGame {
        tags: vec![tag("auction", "E"), tag("Auction", "W")],
        deal: None,
        other_lines: vec![],
    };
    game.set_tag("Auction", "N");
    assert_eq!(game.tags, vec![tag("auction", "N"), tag("Auction", "W")]);
    game.set_tag("Dealer", "S");
    assert_eq!(
        game.tags,
        vec![tag("auction", "N"), tag("Auction", "W"), tag("Dealer", "S")]
    );
    game.set_tag("Dealer", "E");
    assert_eq!(game.get_tag("Dealer"), Some("E"));
    assert_eq!(game.tags.len(), 3);
}

#[test]
fn dealer_reads_the_four_letters_only() {
    let mut game = PbnGame::new();
    assert_eq!(game.dealer(), None);
    game.set_tag("Dealer", " E ");
    assert_eq!(game.dealer(), Some(Position::East));
    game.set_tag("Dealer", "N");
    assert_eq!(game.dealer(), Some(Position::North));
    game.set_tag("Dealer", "S");
    assert_eq!(game.dealer(), Some(Position::South));
    game.set_tag("Dealer", "W");
    assert_eq!(game.dealer(), Some(Position::West));
    game.set_tag("Dealer", "n");
    assert_eq!(game.dealer(), None);
    game.set_tag("Dealer", "North");
    assert_eq!(game.dealer(), None);
}

#[test]
fn vulnerability_reads_the_tag() {
    let mut game = PbnGame::new();
    assert_eq!(game.vulnerability(), None);
    game.set_tag("Vulnerable", " ns ");
    assert_eq!(game.vulnerability(), Some(Vulnerability::NorthSouth));
    game.set_tag("Vulnerable", "Love");
    assert_eq!(game.vulnerability(), None);
    game.set_tag("Vulnerable", "");
    assert_eq!(game.vulnerability(), Some(Vulnerability::Neither));
}

#[test]
fn parse_splits_games_at_blank_lines() {
    let text = "\n\n[Event \"A\"]\n[Dealer \"N\"]\n; note\n1H Pass\n\n   \n[Event \"B\"]\n";
    let games = parse_pbn(text);
    assert_eq!(games.len(), 2);
    assert_eq!(games[0].tags, vec![tag("Event", "A"), tag("Dealer", "N")]);
    assert_eq!(games[0].other_lines, vec!["; note".to_string(), "1H Pass".to_string()]);
    assert_eq!(games[0].deal, None);
    assert_eq!(games[1].tags, vec![tag("Event", "B")]);
    assert!(games[1].other_lines.is_empty());
}

#[test]
fn parse_of_nothing_is_no_game() {
    assert!(parse_pbn("").is_empty());
    assert!(parse_pbn("\n\n  \n").is_empty());
}

#[test]
fn parse_drops_a_game_without_tags() {
    let games = parse_pbn("% PBN 2.1\n% EXPORT\n\n[Event \"A\"]\n");
    assert_eq!(games.len(), 1);
    assert_eq!(games[0].tags, vec![tag("Event", "A")]);
    assert!(games[0].other_lines.is_empty());
}

#[test]
fn parse_keeps_comments_before_the_first_tag() {
    let games = parse_pbn("% PBN 2.1\n; hello\n[Event \"A\"]\n");
    assert_eq!(games.len(), 1);
    assert_eq!(games[0].tags, vec![tag("Event", "A")]);
    assert_eq!(
        games[0].other_lines,
        vec!["% PBN 2.1".to_string(), "; hello".to_string()]
    );
}

#[test]
fn parse_drops_other_lines_before_the_first_tag() {
    let games = parse_pbn("stray\n[Event \"A\"]\nkept\n");
    assert_eq!(games.len(), 1);
    assert_eq!(games[0].other_lines, vec!["kept".to_string()]);
}

#[test]
fn parse_keeps_lines_untrimmed() {
    let games = parse_pbn("  [Event \"A\"]  \n   ; note  \n\t1H Pass \n");
    assert_eq!(games.len(), 1);
    assert_eq!(games[0].tags, vec![tag("Event", "A")]);
    assert_eq!(
        games[0].other_lines,
        vec!["   ; note  ".to_string(), "\t1H Pass ".to_string()]
    );
}

#[test]
fn parse_takes_line_ends_of_both_kinds() {
    let games = parse_pbn("[Event \"A\"]\r\n; one\r\n\r\n[Event \"B\"]\r\n; two");
    assert_eq!(games.len(), 2);
    assert_eq!(games[0].other_lines, vec!["; one".to_string()]);
    assert_eq!(games[1].tags, vec![tag("Event", "B")]);
    assert_eq!(games[1].other_lines, vec!["; two".to_string()]);
}

#[test]
fn parse_opens_a_game_for_brackets_without_a_tag() {
    let games = parse_pbn("[]\nkept\n[Event \"A\"]\n");
    assert_eq!(games.len(), 1);
    assert_eq!(games[0].tags, vec![tag("Event", "A")]);
    assert_eq!(games[0].other_lines, vec!["kept".to_string()]);
}

#[test]
fn render_writes_tags_then_lines_with_blank_lines_between_games() {
    let games = vec![
        PbnGame {
            tags: vec![tag("Event", "A"), tag("Dealer", "N")],
            deal: None,
            other_lines: vec!["; note".to_string()],
        },
        PbnGame { tags: vec![tag("Event", "B")], deal: None, other_lines: vec![] },
    ];
    assert_eq!(
        render_pbn(&games),
        "[Event \"A\"]\n[Dealer \"N\"]\n; note\n\n[Event \"B\"]\n"
    );
    assert_eq!(render_pbn(&Vec::new()), "");
}

#[test]
fn render_then_parse_gives_the_games_back() {
    let games = vec![
        PbnGame {
            tags: vec![tag("Event", "Cavendish  Pairs"), tag("", "odd"), tag("a]b", "x]")],
            deal: None,
            other_lines: vec!["% escape".to_string(), "  ; c".to_string(), "1H [x] Pass".to_string()],
        },
        PbnGame { tags: vec![tag("Dealer", "")], deal: None, other_lines: vec![] },
    ];
    assert_eq!(parse_pbn(&render_pbn(&games)), games);
}

#[test]
fn parse_then_render_reproduces_tags_and_lines() {
    let text = "[Event \"A\"]\n[Deal \"N:AKQ...\"]\n; about A\n% more\n\n[Event \"B\"]\n[Dealer \"S\"]\n";
    let games = parse_pbn(text);
    let written = render_pbn(&games);
    assert_eq!(written, text);
    assert_eq!(parse_pbn(&written), games);
}

#[test]
fn a_stray_carriage_return_is_not_reproduced() {
    let games = parse_pbn("[Event \"A\"]\nx\r\r\n");
    assert_eq!(games[0].other_lines, vec!["x\r".to_string()]);
    let again = parse_pbn(&render_pbn(&games));
    assert_eq!(again[0].other_lines, vec!["x".to_string()]);
}

#[test]
fn deal_tags_are_handed_out_in_order() {
    let game = PbnGame {
        tags: vec![tag("Deal", "N:A"), tag("Event", "x"), tag("DEAL", "S:K")],
        deal: None,
        other_lines: vec![],
    };
    assert_eq!(
        game.deal_tags(),
        vec!["[Deal \"N:A\"]".to_string(), "[Deal \"S:K\"]".to_string()]
    );
    assert!(PbnGame::new().deal_tags().is_empty());
}

#[test]
fn resolve_deal_takes_the_last_that_parsed() {
    let first = ParsedDeal { tag: "[Deal \"N:A\"]".to_string() };
    let second = ParsedDeal { tag: "[Deal \"S:K\"]".to_string() };
    let mut game = PbnGame::new();
    game.resolve_deal(&vec![None, None]);
    assert_eq!(game.deal, None);
    game.resolve_deal(&vec![Some(first.clone()), None]);
    assert_eq!(game.deal, Some(first.clone()));
    game.resolve_deal(&vec![]);
    assert_eq!(game.deal, Some(first.clone()));
    game.resolve_deal(&vec![Some(first), Some(second.clone()), None]);
    assert_eq!(game.deal, Some(second));
}
