//! From games to requests and from results back to games: which games are
//! bid, what is asked for each, and how the engine's answers are written
//! into the games they belong to.

use crate::engine::{
    results_view, specs_view, DealResult, DealResultView, DealSpec, DealSpecView, Position,
    Vulnerability,
};
use crate::error::BbaError;
use crate::pbn::{games_view, render_pbn, render_text, GameView, PbnGame};
use crate::text::{push_char, append_digits, append_str, chars_of, digits, string_of, texts};
use vstd::prelude::*;

verus! {

/// Counts of a batch: the deals that were submitted, the auctions that were
/// generated, and the deals that failed.
#[derive(Debug, Clone, Copy, PartialEq, Eq, Structural)]
pub struct ProcessingStats {
    pub deals_processed: usize,
    pub auctions_generated: usize,
    pub errors: usize,
}

impl Default for ProcessingStats {
    fn default() -> (r: ProcessingStats)
        ensures
            r.deals_processed == 0,
            r.auctions_generated == 0,
            r.errors == 0,
    {
        ProcessingStats { deals_processed: 0, auctions_generated: 0, errors: 0 }
    }
}

/// What follows the bid at index `i` of `total`: a line feed after every
/// fourth bid and after the last one, a space after any other.
pub open spec fn bid_end(i: int, total: int) -> char {
    if (i + 1) % 4 == 0 || i + 1 == total {
        '\n'
    } else {
        ' '
    }
}

/// The text of the first `n` bids of an auction.
pub open spec fn auction_prefix(bids: Seq<Seq<char>>, n: int) -> Seq<char>
    decreases n,
{
    if n <= 0 {
        Seq::empty()
    } else {
        auction_prefix(bids, n - 1) + bids[n - 1] + seq![bid_end(n - 1, bids.len() as int)]
    }
}

/// The body of an auction: four bids to a line, one for each seat, with a
/// space between two bids; what is left over makes a shorter last line.
pub open spec fn auction_text(bids: Seq<Seq<char>>) -> Seq<char> {
    auction_prefix(bids, bids.len() as int)
}

/// Writes the bids of an auction, four to a line.
pub fn format_auction(bids: &[String], _dealer: Position) -> (r: String)
    ensures
        r@ == auction_text(texts(bids@)),
{
    let ghost all = texts(bids@);
    let mut r = String::new();
    let mut i: usize = 0;
    let n = bids.len();
    while i < n
        invariant
            i <= n,
            n == bids@.len(),
            all == texts(bids@),
            r@ == auction_prefix(all, i as int),
        decreases n - i,
    {
        append_str(&mut r, bids[i].as_str());
        if (i + 1) % 4 == 0 || i + 1 == n {
            push_char(&mut r, '\n');
        } else {
            push_char(&mut r, ' ');
        }
        proof {
            assert(all[i as int] == bids@[i as int]@);
            assert(r@ =~= auction_prefix(all, i as int) + all[i as int] + seq![
                bid_end(i as int, all.len() as int),
            ]);
        }
        i += 1;
    }
    r
}

/// Whether the text starts with `[Deal "` and ends with `"]`, with room for
/// both.
pub open spec fn is_deal_tag(tag: Seq<char>) -> bool {
    &&& tag.len() >= 9
    &&& tag[0] == '['
    &&& tag[1] == 'D'
    &&& tag[2] == 'e'
    &&& tag[3] == 'a'
    &&& tag[4] == 'l'
    &&& tag[5] == ' '
    &&& tag[6] == '"'
    &&& tag[tag.len() - 2] == '"'
    &&& tag[tag.len() - 1] == ']'
}

/// The cards of a canonical `Deal` tag: what stands between `[Deal "` and
/// `"]`, or the whole text where it is not of that form.
pub open spec fn deal_content(tag: Seq<char>) -> Seq<char> {
    if is_deal_tag(tag) {
        tag.subrange(7, tag.len() - 2)
    } else {
        tag
    }
}

/// The cards of a canonical `Deal` tag.
pub fn deal_content_of(tag: &str) -> (r: String)
    ensures
        r@ == deal_content(tag@),
{
    let v = chars_of(tag);
    let n = v.len();
    proof {
        assert(v@.subrange(0, n as int) =~= v@);
    }
    if n >= 9 && v[0] == '[' && v[1] == 'D' && v[2] == 'e' && v[3] == 'a' && v[4] == 'l' && v[5]
        == ' ' && v[6] == '"' && v[n - 2] == '"' && v[n - 1] == ']' {
        string_of(&v, 7, n - 2)
    } else {
        string_of(&v, 0, n)
    }
}

/// The request for a game that has a deal: its cards, the dealer that the
/// `Dealer` tag names or else North, and the vulnerability that the
/// `Vulnerable` tag names or else neither side.
pub open spec fn request_of(g: GameView) -> DealSpecView {
    DealSpecView {
        pbn: deal_content(g.deal->0),
        dealer: match g.dealer() {
            Some(d) => d,
            None => Position::North,
        },
        vulnerability: match g.vulnerability() {
            Some(v) => v,
            None => Vulnerability::Neither,
        },
    }
}

/// The indices of the games that have a deal, in ascending order.
pub open spec fn deal_indices(games: Seq<GameView>) -> Seq<int>
    decreases games.len(),
{
    if games.len() == 0 {
        Seq::empty()
    } else if games.last().deal is Some {
        deal_indices(games.drop_last()).push(games.len() - 1)
    } else {
        deal_indices(games.drop_last())
    }
}

/// The requests of a document: one for each game that has a deal, in the
/// order of the games.
pub open spec fn requests_of(games: Seq<GameView>) -> Seq<DealSpecView> {
    Seq::new(deal_indices(games).len(), |k: int| request_of(games[deal_indices(games)[k]]))
}

/// The number of games before the game at index `i` that have a deal: the
/// place of that game's request among the requests.
pub open spec fn rank(games: Seq<GameView>, i: int) -> int {
    deal_indices(games.take(i)).len() as int
}

/// The indices of the games that have a deal are exactly those, each once and
/// in ascending order; the request at place `k` is that of the game at the
/// `k`-th of them, and that game's rank is `k`.
pub proof fn lemma_deal_indices(games: Seq<GameView>)
    ensures
        deal_indices(games).len() <= games.len(),
        forall|k: int|
            0 <= k < deal_indices(games).len() ==> 0 <= (#[trigger] deal_indices(games)[k])
                < games.len() && games[deal_indices(games)[k]].deal is Some,
        forall|k: int, l: int|
            0 <= k < l < deal_indices(games).len() ==> deal_indices(games)[k] < deal_indices(
                games,
            )[l],
        forall|i: int|
            0 <= i < games.len() && (#[trigger] games[i]).deal is Some ==> 0 <= rank(games, i)
                < deal_indices(games).len() && deal_indices(games)[rank(games, i)] == i,
        forall|k: int|
            0 <= k < deal_indices(games).len() ==> rank(games, #[trigger] deal_indices(games)[k])
                == k,
    decreases games.len(),
{
    if games.len() > 0 {
        let before = games.drop_last();
        let n = games.len() - 1;
        lemma_deal_indices(before);
        assert(games.take(n) =~= before);
        assert forall|i: int| 0 <= i < n implies #[trigger] games.take(i) == before.take(i) by {
            assert(games.take(i) =~= before.take(i));
        }
        assert forall|i: int|
            0 <= i < games.len() && (#[trigger] games[i]).deal is Some implies 0 <= rank(games, i)
            < deal_indices(games).len() && deal_indices(games)[rank(games, i)] == i by {
            if i < n {
                assert(before[i] == games[i]);
                assert(rank(games, i) == rank(before, i));
            }
        }
        assert forall|k: int| 0 <= k < deal_indices(games).len() implies rank(
            games,
            #[trigger] deal_indices(games)[k],
        ) == k by {
            if k < deal_indices(before).len() {
                let i = deal_indices(before)[k];
                assert(deal_indices(games)[k] == i);
                assert(rank(games, i) == rank(before, i));
            }
        }
    }
}

/// The request for a game that has a deal.
fn deal_spec_of(game: &PbnGame) -> (r: DealSpec)
    requires
        game.deal is Some,
    ensures
        r@ == request_of(game@),
{
    let dealer = match game.dealer() {
        Some(d) => d,
        None => Position::North,
    };
    let vulnerability = match game.vulnerability() {
        Some(v) => v,
        None => Vulnerability::Neither,
    };
    let pbn = match &game.deal {
        Some(d) => deal_content_of(d.tag.as_str()),
        None => String::new(),
    };
    DealSpec { pbn, dealer, vulnerability }
}

/// The requests of a document, one for each game that has a deal, in the
/// order of the games. A game without a deal is passed over.
pub fn collect_deal_specs(games: &Vec<PbnGame>) -> (specs: Vec<DealSpec>)
    ensures
        specs_view(specs@) == requests_of(games_view(games@)),
{
    let ghost gs = games_view(games@);
    let mut specs: Vec<DealSpec> = Vec::new();
    let mut i: usize = 0;
    proof {
        assert(gs.take(0) =~= Seq::<GameView>::empty());
        assert(specs_view(specs@) =~= requests_of(gs.take(0)));
    }
    while i < games.len()
        invariant
            i <= games@.len(),
            gs == games_view(games@),
            specs_view(specs@) == requests_of(gs.take(i as int)),
        decreases games@.len() - i,
    {
        let ghost done = gs.take(i as int);
        let ghost next = gs.take(i as int + 1);
        let ghost before = specs_view(specs@);
        proof {
            assert(next.drop_last() =~= done);
            assert(next.last() == gs[i as int]);
            assert(gs[i as int] == games@[i as int]@);
            lemma_deal_indices(done);
        }
        if games[i].deal.is_some() {
            let spec = deal_spec_of(&games[i]);
            specs.push(spec);
            proof {
                assert(specs_view(specs@) =~= before.push(request_of(gs[i as int])));
                assert(before.push(request_of(gs[i as int])) =~= requests_of(next));
            }
        } else {
            proof {
                assert(before =~= requests_of(next));
            }
        }
        i += 1;
    }
    proof {
        assert(gs.take(i as int) =~= gs);
    }
    specs
}


/// The dealer of a game: the one that its `Dealer` tag names, or else North.
pub open spec fn dealer_of(g: GameView) -> Position {
    match g.dealer() {
        Some(d) => d,
        None => Position::North,
    }
}

/// Whether the result holds an auction to write into its game.
pub open spec fn has_auction(r: DealResultView) -> bool {
    r.success && r.auction is Some
}

/// A game with the engine's result for it. An auction sets the `Auction` tag
/// to the dealer's letter and adds the auction's body to the lines that the
/// game keeps. Any other result leaves the game as it is.
pub open spec fn merged(g: GameView, r: DealResultView) -> GameView {
    if has_auction(r) {
        g.set_tag("Auction"@, dealer_of(g).spec_letter()).push_line(auction_text(r.auction->0))
    } else {
        g
    }
}

/// The games with the results: the game at index `i`, if it has a deal, takes
/// the result whose place among the results is the game's rank among the
/// games with a deal; a game without a deal stays as it is.
pub open spec fn reconciled(games: Seq<GameView>, results: Seq<DealResultView>) -> Seq<GameView> {
    Seq::new(
        games.len(),
        |i: int|
            if games[i].deal is Some {
                merged(games[i], results[rank(games, i)])
            } else {
                games[i]
            },
    )
}

/// The number of results that hold an auction.
pub open spec fn count_generated(results: Seq<DealResultView>) -> nat
    decreases results.len(),
{
    if results.len() == 0 {
        0
    } else {
        count_generated(results.drop_last()) + if has_auction(results.last()) {
            1nat
        } else {
            0nat
        }
    }
}

/// The number of results that are failures.
pub open spec fn count_errors(results: Seq<DealResultView>) -> nat
    decreases results.len(),
{
    if results.len() == 0 {
        0
    } else {
        count_errors(results.drop_last()) + if !results.last().success {
            1nat
        } else {
            0nat
        }
    }
}

/// The message for a batch that came back with the wrong number of results.
pub open spec fn count_mismatch_text(expected: nat, got: nat) -> Seq<char> {
    "Expected "@ + digits(expected) + " results, got "@ + digits(got)
}

/// Whether `e` is the error for `got` results where `expected` were due.
pub open spec fn is_count_mismatch(e: BbaError, expected: nat, got: nat) -> bool {
    e matches BbaError::FfiError(m) && m@ == count_mismatch_text(expected, got)
}

/// Whether `stats` counts the results: the requests, the results that hold
/// an auction, and the results that are failures.
pub open spec fn is_stats_of(stats: ProcessingStats, results: Seq<DealResultView>) -> bool {
    &&& stats.deals_processed == results.len()
    &&& stats.auctions_generated == count_generated(results)
    &&& stats.errors == count_errors(results)
}

/// The error for a batch that came back with the wrong number of results.
pub fn count_mismatch(expected: usize, got: usize) -> (e: BbaError)
    ensures
        is_count_mismatch(e, expected as nat, got as nat),
{
    let mut m = String::from_str("Expected ");
    append_digits(&mut m, expected as u128);
    append_str(&mut m, " results, got ");
    append_digits(&mut m, got as u128);
    BbaError::FfiError(m)
}

/// The number of games that have a deal.
pub fn count_deals(games: &Vec<PbnGame>) -> (n: usize)
    ensures
        n == deal_indices(games_view(games@)).len(),
{
    let ghost gs = games_view(games@);
    let mut n: usize = 0;
    let mut i: usize = 0;
    proof {
        assert(gs.take(0) =~= Seq::<GameView>::empty());
    }
    while i < games.len()
        invariant
            i <= games@.len(),
            gs == games_view(games@),
            n == rank(gs, i as int),
            n <= i,
        decreases games@.len() - i,
    {
        proof {
            assert(gs.take(i as int + 1).drop_last() =~= gs.take(i as int));
            assert(gs.take(i as int + 1).last() == games@[i as int]@);
        }
        if games[i].deal.is_some() {
            n += 1;
        }
        i += 1;
    }
    proof {
        assert(gs.take(i as int) =~= gs);
    }
    n
}

/// Writes the engine's result for a game into it.
pub fn merge_result(game: &mut PbnGame, result: &DealResult)
    ensures
        final(game)@ == merged(old(game)@, result@),
{
    if result.success {
        match &result.auction {
            Some(bids) => {
                let dealer = match game.dealer() {
                    Some(d) => d,
                    None => Position::North,
                };
                let body = format_auction(bids.as_slice(), dealer);
                game.set_tag("Auction", dealer.letter());
                let ghost before = game@;
                game.other_lines.push(body);
                proof {
                    assert(texts(game.other_lines@) =~= before.lines.push(
                        auction_text(texts(bids@)),
                    ));
                }
            },
            None => {},
        }
    }
}

/// Writes the results of a batch into the games they belong to. The results
/// stand in the order of the requests, one for each game that has a deal:
/// each goes to the game whose request stands at the same place, however
/// many games without a deal lie between. With another number of results
/// than games with a deal nothing is written and the call fails. The
/// statistics count the requests, the auctions that were written and the
/// results that are failures.
pub fn apply_results(games: &mut Vec<PbnGame>, results: &Vec<DealResult>) -> (r: Result<
    ProcessingStats,
    BbaError,
>)
    ensures
        if results@.len() == deal_indices(games_view(old(games)@)).len() {
            &&& r is Ok
            &&& is_stats_of(r->Ok_0, results_view(results@))
            &&& games_view(final(games)@) == reconciled(
                games_view(old(games)@),
                results_view(results@),
            )
        } else {
            &&& r is Err
            &&& is_count_mismatch(
                r->Err_0,
                deal_indices(games_view(old(games)@)).len(),
                results@.len(),
            )
            &&& final(games)@ == old(games)@
        },
{
    let expected = count_deals(games);
    if results.len() != expected {
        return Err(count_mismatch(expected, results.len()));
    }
    let ghost gs0 = games_view(games@);
    let ghost rs = results_view(results@);
    let n = games.len();
    let mut generated: usize = 0;
    let mut errors: usize = 0;
    let mut k: usize = 0;
    let mut i: usize = 0;
    proof {
        assert(gs0.take(0) =~= Seq::<GameView>::empty());
        assert(rs.take(0) =~= Seq::<DealResultView>::empty());
        lemma_deal_indices(gs0);
    }
    while i < n
        invariant
            i <= n,
            n == games@.len(),
            n == gs0.len(),
            rs == results_view(results@),
            results@.len() == deal_indices(gs0).len(),
            k == rank(gs0, i as int),
            k <= results@.len(),
            generated == count_generated(rs.take(k as int)),
            errors == count_errors(rs.take(k as int)),
            generated <= k,
            errors <= k,
            forall|j: int| 0 <= j < i ==> (#[trigger] games@[j])@ == reconciled(gs0, rs)[j],
            forall|j: int| i <= j < n ==> (#[trigger] games@[j])@ == gs0[j],
        decreases n - i,
    {
        proof {
            assert(gs0.take(i as int + 1).drop_last() =~= gs0.take(i as int));
            assert(gs0.take(i as int + 1).last() == gs0[i as int]);
            assert(games@[i as int]@ == gs0[i as int]);
            lemma_deal_indices(gs0);
        }
        if games[i].deal.is_some() {
            proof {
                assert(gs0[i as int].deal is Some);
                assert(rs.take(k as int + 1).drop_last() =~= rs.take(k as int));
                assert(rs.take(k as int + 1).last() == results@[k as int]@);
            }
            let result = &results[k];
            if result.success {
                if result.auction.is_some() {
                    generated += 1;
                }
            } else {
                errors += 1;
            }
            merge_result(&mut games[i], result);
            k += 1;
        }
        i += 1;
    }
    proof {
        assert(gs0.take(n as int) =~= gs0);
        assert(rs.take(k as int) =~= rs);
        assert(games_view(games@) =~= reconciled(gs0, rs));
    }
    Ok(ProcessingStats { deals_processed: expected, auctions_generated: generated, errors })
}


/// Results find their games. Where there are as many results as requests,
/// the result at place `k` is written into the game from which the request
/// at place `k` was made, and into no other; a game without a deal, wherever
/// it stands among the others, stays as it is.
pub proof fn lemma_results_reach_their_games(games: Seq<GameView>, results: Seq<DealResultView>)
    requires
        results.len() == requests_of(games).len(),
    ensures
        reconciled(games, results).len() == games.len(),
        forall|k: int|
            0 <= k < results.len() ==> 0 <= (#[trigger] deal_indices(games)[k]) < games.len()
                && requests_of(games)[k] == request_of(games[deal_indices(games)[k]])
                && reconciled(games, results)[deal_indices(games)[k]] == merged(
                games[deal_indices(games)[k]],
                results[k],
            ),
        forall|i: int|
            0 <= i < games.len() && (#[trigger] games[i]).deal is None ==> reconciled(
                games,
                results,
            )[i] == games[i],
{
    lemma_deal_indices(games);
}


/// What a batch leaves behind: its statistics, and the text of the output
/// file where one is to be written.
#[derive(Debug, Clone, PartialEq, Eq)]
pub struct BatchOutput {
    pub stats: ProcessingStats,
    pub text: Option<String>,
}

/// Concludes a batch once the engine has answered: the results are written
/// into the games they belong to, as `apply_results` says, and the document
/// is written as text, unless this is a dry run, which only counts. With
/// another number of results than games with a deal the batch fails and the
/// games stay as they are.
pub fn process_pbn_file(games: &mut Vec<PbnGame>, results: &Vec<DealResult>, dry_run: bool) -> (r:
    Result<BatchOutput, BbaError>)
    ensures
        if results@.len() == deal_indices(games_view(old(games)@)).len() {
            &&& r is Ok
            &&& is_stats_of(r->Ok_0.stats, results_view(results@))
            &&& games_view(final(games)@) == reconciled(
                games_view(old(games)@),
                results_view(results@),
            )
            &&& dry_run ==> r->Ok_0.text is None
            &&& !dry_run ==> r->Ok_0.text is Some && r->Ok_0.text->0@ == render_text(
                games_view(final(games)@),
            )
        } else {
            &&& r is Err
            &&& is_count_mismatch(
                r->Err_0,
                deal_indices(games_view(old(games)@)).len(),
                results@.len(),
            )
            &&& final(games)@ == old(games)@
        },
{
    match apply_results(games, results) {
        Err(e) => Err(e),
        Ok(stats) => {
            let text = if dry_run {
                None
            } else {
                Some(render_pbn(games))
            };
            Ok(BatchOutput { stats, text })
        },
    }
}

} // verus!
