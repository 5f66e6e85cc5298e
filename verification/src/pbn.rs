//! The document model: a PBN text as a sequence of games, each with its tags
//! and the lines that are kept as they are.

use crate::engine::{uppercase_of, Position, Vulnerability};
use crate::text::{
    push_char, append_str, chars_of, eq_ignore_ascii_case, eq_ignore_case, find_char,
    first_index, lemma_first_index_bounds, line_bounds, lines_of, ranges_of, skip_leading,
    skip_trailing, string_of, strip, strip_bounds, strip_leading, strip_trailing, texts, trim,
    CharClass,
};
use vstd::prelude::*;

verus! {

/// A deal that the deal parser accepted, held in its canonical notation: the
/// `Deal` tag that the deal formatter writes for the 52 cards, starting with
/// the seat at which the notation begins.
#[derive(Debug, Clone, PartialEq, Eq)]
pub struct ParsedDeal {
    pub tag: String,
}

/// One game of a PBN file.
#[derive(Debug, Clone, PartialEq, Eq)]
pub struct PbnGame {
    /// The tags as name and value, in the order of the file.
    pub tags: Vec<(String, String)>,
    /// The deal, where a `Deal` tag was parsed.
    pub deal: Option<ParsedDeal>,
    /// Comments, escape lines and other text, in the order of the file.
    pub other_lines: Vec<String>,
}

/// What a game holds.
pub struct GameView {
    pub tags: Seq<(Seq<char>, Seq<char>)>,
    pub deal: Option<Seq<char>>,
    pub lines: Seq<Seq<char>>,
}

/// The names and values that a list of tags holds.
pub open spec fn tags_view(v: Seq<(String, String)>) -> Seq<(Seq<char>, Seq<char>)> {
    Seq::new(v.len(), |i: int| (v[i].0@, v[i].1@))
}

impl View for PbnGame {
    type V = GameView;

    open spec fn view(&self) -> GameView {
        GameView {
            tags: tags_view(self.tags@),
            deal: match self.deal {
                Some(d) => Some(d.tag@),
                None => None,
            },
            lines: texts(self.other_lines@),
        }
    }
}

/// What a list of games holds.
pub open spec fn games_view(v: Seq<PbnGame>) -> Seq<GameView> {
    Seq::new(v.len(), |i: int| v[i]@)
}

/// The index of the first tag whose name is `name` up to the case of ASCII
/// letters, or the number of tags if there is none.
pub open spec fn tag_index(tags: Seq<(Seq<char>, Seq<char>)>, name: Seq<char>) -> int
    decreases tags.len(),
{
    if tags.len() == 0 || eq_ignore_case(tags[0].0, name) {
        0
    } else {
        1 + tag_index(tags.drop_first(), name)
    }
}

/// The first match wins: the index of a tag is a place among the tags or
/// their number; the tag there, if any, has the name, and none before it has.
pub proof fn lemma_tag_index_bounds(tags: Seq<(Seq<char>, Seq<char>)>, name: Seq<char>)
    ensures
        0 <= tag_index(tags, name) <= tags.len(),
        tag_index(tags, name) < tags.len() ==> eq_ignore_case(
            tags[tag_index(tags, name)].0,
            name,
        ),
        forall|i: int| 0 <= i < tag_index(tags, name) ==> !eq_ignore_case((#[trigger] tags[i]).0, name),
    decreases tags.len(),
{
    if tags.len() == 0 || eq_ignore_case(tags[0].0, name) {
    } else {
        let t = tags.drop_first();
        lemma_tag_index_bounds(t, name);
        assert forall|i: int| 0 <= i < tag_index(tags, name) implies !eq_ignore_case(
            (#[trigger] tags[i]).0,
            name,
        ) by {
            if i > 0 {
                assert(tags[i] == t[i - 1]);
            }
        }
    }
}

impl GameView {
    /// A game without tags, deal or lines.
    pub open spec fn empty() -> GameView {
        GameView { tags: Seq::empty(), deal: None, lines: Seq::empty() }
    }

    /// The value of the first tag named `name`, whatever the case of the
    /// name's ASCII letters.
    pub open spec fn get_tag(self, name: Seq<char>) -> Option<Seq<char>> {
        let i = tag_index(self.tags, name);
        if i < self.tags.len() {
            Some(self.tags[i].1)
        } else {
            None
        }
    }

    /// The game with the tag `name` set to `value`: the first tag of that
    /// name gets the value and keeps its place and spelling; without one, the
    /// tag is added at the end.
    pub open spec fn set_tag(self, name: Seq<char>, value: Seq<char>) -> GameView {
        let i = tag_index(self.tags, name);
        if i < self.tags.len() {
            GameView { tags: self.tags.update(i, (self.tags[i].0, value)), ..self }
        } else {
            GameView { tags: self.tags.push((name, value)), ..self }
        }
    }

    /// The dealer that the `Dealer` tag names.
    pub open spec fn dealer(self) -> Option<Position> {
        match self.get_tag("Dealer"@) {
            Some(v) => Position::of_letter(trim(v)),
            None => None,
        }
    }

    /// The vulnerability that the `Vulnerable` tag names.
    pub open spec fn vulnerability(self) -> Option<Vulnerability> {
        match self.get_tag("Vulnerable"@) {
            Some(v) => Vulnerability::of_token(uppercase_of(trim(v))),
            None => None,
        }
    }

    /// The game with one more tag at the end.
    pub open spec fn push_tag(self, name: Seq<char>, value: Seq<char>) -> GameView {
        GameView { tags: self.tags.push((name, value)), ..self }
    }

    /// The game with one more line at the end.
    pub open spec fn push_line(self, line: Seq<char>) -> GameView {
        GameView { lines: self.lines.push(line), ..self }
    }
}

/// The name and value of a tag line. The brackets at both ends are dropped,
/// however many there are; the name is what stands before the first space; the
/// value is the rest, without the quotation marks at its ends. A line without
/// a space after the brackets holds no tag.
pub open spec fn tag_pair(line: Seq<char>) -> Option<(Seq<char>, Seq<char>)> {
    let inner = strip_trailing(
        strip_leading(line, CharClass::Only('[')),
        CharClass::Only(']'),
    );
    let k = first_index(inner, ' ');
    if k < inner.len() {
        Some((inner.take(k), strip(inner.skip(k + 1), CharClass::Only('"'))))
    } else {
        None
    }
}

/// The tag that `v[a..b]` holds.
fn tag_pair_at(v: &Vec<char>, a: usize, b: usize) -> (r: Option<(String, String)>)
    requires
        a <= b <= v@.len(),
    ensures
        match r {
            Some(t) => tag_pair(v@.subrange(a as int, b as int)) == Some((t.0@, t.1@)),
            None => tag_pair(v@.subrange(a as int, b as int)) is None,
        },
{
    let a1 = skip_leading(v, a, b, CharClass::Only('['));
    let b1 = skip_trailing(v, a1, b, CharClass::Only(']'));
    let k = find_char(v, a1, b1, ' ');
    let ghost inner = v@.subrange(a1 as int, b1 as int);
    proof {
        lemma_first_index_bounds(inner, ' ');
    }
    if k == b1 {
        return None;
    }
    let name = string_of(v, a1, k);
    let (qa, qb) = strip_bounds(v, k + 1, b1, CharClass::Only('"'));
    let value = string_of(v, qa, qb);
    proof {
        assert(inner.take(k - a1) =~= v@.subrange(a1 as int, k as int));
        assert(inner.skip(k - a1 + 1) =~= v@.subrange(k as int + 1, b1 as int));
    }
    Some((name, value))
}

/// Reads the name and the value of a tag line such as `[Dealer "N"]`.
pub fn parse_tag_pair(line: &str) -> (r: Option<(String, String)>)
    ensures
        match r {
            Some(t) => tag_pair(line@) == Some((t.0@, t.1@)),
            None => tag_pair(line@) is None,
        },
{
    let v = chars_of(line);
    proof {
        assert(v@.subrange(0, v@.len() as int) =~= v@);
    }
    tag_pair_at(&v, 0, v.len())
}

impl PbnGame {
    /// A game without tags, deal or lines.
    pub fn new() -> (g: PbnGame)
        ensures
            g@ == GameView::empty(),
    {
        let g = PbnGame { tags: Vec::new(), deal: None, other_lines: Vec::new() };
        proof {
            assert(g@.tags =~= Seq::empty());
            assert(g@.lines =~= Seq::empty());
        }
        g
    }

    /// The position of the first tag named `name`, or the number of tags.
    fn find_tag(&self, name: &str) -> (i: usize)
        ensures
            i == tag_index(self@.tags, name@),
            i <= self.tags@.len(),
    {
        let ghost tags = self@.tags;
        let mut i: usize = 0;
        proof {
            assert(tags.skip(0) =~= tags);
        }
        while i < self.tags.len()
            invariant
                i <= self.tags@.len(),
                tags == tags_view(self.tags@),
                tag_index(tags, name@) == i + tag_index(tags.skip(i as int), name@),
            decreases self.tags@.len() - i,
        {
            proof {
                assert(tags.skip(i as int)[0] == tags[i as int]);
                assert(tags.skip(i as int).drop_first() =~= tags.skip(i as int + 1));
            }
            if eq_ignore_ascii_case(self.tags[i].0.as_str(), name) {
                return i;
            }
            i += 1;
        }
        proof {
            assert(tags.skip(i as int).len() == 0);
        }
        i
    }

    /// The value of the first tag named `name`, whatever the case of the
    /// name's ASCII letters.
    pub fn get_tag(&self, name: &str) -> (r: Option<&str>)
        ensures
            match r {
                Some(v) => self@.get_tag(name@) == Some(v@),
                None => self@.get_tag(name@) is None,
            },
    {
        let i = self.find_tag(name);
        if i < self.tags.len() {
            Some(self.tags[i].1.as_str())
        } else {
            None
        }
    }

    /// Sets the tag `name` to `value`: the first tag of that name gets the
    /// value, and without one the tag is added at the end.
    pub fn set_tag(&mut self, name: &str, value: &str)
        ensures
            final(self)@ == old(self)@.set_tag(name@, value@),
    {
        let i = self.find_tag(name);
        if i < self.tags.len() {
            let kept = self.tags[i].0.clone();
            self.tags.set(i, (kept, String::from_str(value)));
            proof {
                assert(tags_view(self.tags@) =~= old(self)@.tags.update(
                    i as int,
                    (old(self)@.tags[i as int].0, value@),
                ));
            }
        } else {
            self.tags.push((String::from_str(name), String::from_str(value)));
            proof {
                assert(tags_view(self.tags@) =~= old(self)@.tags.push((name@, value@)));
            }
        }
    }

    /// The dealer that the `Dealer` tag names: its trimmed value is one of
    /// the letters `N`, `E`, `S` and `W`.
    pub fn dealer(&self) -> (r: Option<Position>)
        ensures
            r == self@.dealer(),
    {
        match self.get_tag("Dealer") {
            Some(s) => {
                let v = chars_of(s);
                proof {
                    assert(v@.subrange(0, v@.len() as int) =~= v@);
                }
                let (a, b) = strip_bounds(&v, 0, v.len(), CharClass::Space);
                let t = string_of(&v, a, b);
                Position::from_letter(t.as_str())
            },
            None => None,
        }
    }

    /// The vulnerability that the `Vulnerable` tag names.
    pub fn vulnerability(&self) -> (r: Option<Vulnerability>)
        ensures
            r == self@.vulnerability(),
    {
        match self.get_tag("Vulnerable") {
            Some(s) => Vulnerability::from_pbn(s),
            None => None,
        }
    }
}


/// What an optional game holds.
pub open spec fn game_opt_view(o: Option<PbnGame>) -> Option<GameView> {
    match o {
        Some(g) => Some(g@),
        None => None,
    }
}

/// Where the reading of a document stands: the games that are closed, and
/// the one that is open.
pub struct ParseState {
    pub games: Seq<GameView>,
    pub current: Option<GameView>,
}

impl ParseState {
    /// Nothing was read yet.
    pub open spec fn initial() -> ParseState {
        ParseState { games: Seq::empty(), current: None }
    }

    /// The open game is closed: it joins the games if it has a tag, and is
    /// dropped if it has none.
    pub open spec fn close(self) -> ParseState {
        match self.current {
            Some(g) => if g.tags.len() > 0 {
                ParseState { games: self.games.push(g), current: None }
            } else {
                ParseState { games: self.games, current: None }
            },
            None => ParseState { games: self.games, current: None },
        }
    }

    /// The open game, or a new one where none is open.
    pub open spec fn opened(self) -> GameView {
        match self.current {
            Some(g) => g,
            None => GameView::empty(),
        }
    }

    /// The state after one more line. A blank line closes the open game. A
    /// line that starts with `%` or `;` is kept as it is, and opens a game
    /// where none is open. A line in brackets opens a game where none is open
    /// and adds its tag, if it holds one. Any other line is kept as it is by
    /// the open game, and dropped where none is open.
    pub open spec fn parse_line(self, line: Seq<char>) -> ParseState {
        let t = trim(line);
        if t.len() == 0 {
            self.close()
        } else if t[0] == '%' || t[0] == ';' {
            ParseState { current: Some(self.opened().push_line(line)), ..self }
        } else if t[0] == '[' && t.last() == ']' {
            match tag_pair(t) {
                Some(tag) => ParseState {
                    current: Some(self.opened().push_tag(tag.0, tag.1)),
                    ..self
                },
                None => ParseState { current: Some(self.opened()), ..self },
            }
        } else {
            match self.current {
                Some(g) => ParseState { current: Some(g.push_line(line)), ..self },
                None => self,
            }
        }
    }

    /// The state after the lines `lines`, one after the other.
    pub open spec fn parse_lines(self, lines: Seq<Seq<char>>) -> ParseState
        decreases lines.len(),
    {
        if lines.len() == 0 {
            self
        } else {
            self.parse_lines(lines.drop_last()).parse_line(lines.last())
        }
    }
}

/// The state that holds the closed games `games` and the open game `current`.
pub open spec fn state_of(games: Seq<PbnGame>, current: Option<PbnGame>) -> ParseState {
    ParseState { games: games_view(games), current: game_opt_view(current) }
}

/// The games of a PBN text: its lines are read one after the other, and the
/// end of the text closes the game that is open.
pub open spec fn parse_text(text: Seq<char>) -> Seq<GameView> {
    ParseState::initial().parse_lines(lines_of(text)).close().games
}

/// Closes the open game.
fn close_game(games: &mut Vec<PbnGame>, current: Option<PbnGame>)
    ensures
        state_of(final(games)@, None) == state_of(old(games)@, current).close(),
{
    match current {
        Some(g) => {
            if g.tags.len() > 0 {
                let ghost gv = g@;
                games.push(g);
                proof {
                    assert(games_view(games@) =~= games_view(old(games)@).push(gv));
                }
            }
        },
        None => {},
    }
}

/// The open game, or a new one where none is open.
fn open_game(current: Option<PbnGame>) -> (g: PbnGame)
    ensures
        g@ == state_of(Seq::empty(), current).opened(),
{
    match current {
        Some(g) => g,
        None => PbnGame::new(),
    }
}

/// Adds the line `v[a..b]` to the game.
fn keep_line(g: PbnGame, v: &Vec<char>, a: usize, b: usize) -> (r: PbnGame)
    requires
        a <= b <= v@.len(),
    ensures
        r@ == g@.push_line(v@.subrange(a as int, b as int)),
{
    let mut g = g;
    let ghost before = g@;
    let line = string_of(v, a, b);
    g.other_lines.push(line);
    proof {
        assert(texts(g.other_lines@) =~= before.lines.push(v@.subrange(a as int, b as int)));
    }
    g
}

/// Adds a tag to the game.
fn keep_tag(g: PbnGame, tag: (String, String)) -> (r: PbnGame)
    ensures
        r@ == g@.push_tag(tag.0@, tag.1@),
{
    let mut g = g;
    let ghost before = g@;
    let ghost name = tag.0@;
    let ghost value = tag.1@;
    g.tags.push(tag);
    proof {
        assert(tags_view(g.tags@) =~= before.tags.push((name, value)));
    }
    g
}

/// Reads the line `v[a..b]`.
fn parse_line_at(
    games: &mut Vec<PbnGame>,
    current: Option<PbnGame>,
    v: &Vec<char>,
    a: usize,
    b: usize,
) -> (next: Option<PbnGame>)
    requires
        a <= b <= v@.len(),
    ensures
        state_of(final(games)@, next) == state_of(old(games)@, current).parse_line(
            v@.subrange(a as int, b as int),
        ),
{
    let (ta, tb) = strip_bounds(v, a, b, CharClass::Space);
    let ghost line = v@.subrange(a as int, b as int);
    let ghost t = v@.subrange(ta as int, tb as int);
    if ta == tb {
        close_game(games, current);
        return None;
    }
    proof {
        assert(t[0] == v@[ta as int]);
        assert(t.last() == v@[tb as int - 1]);
    }
    if v[ta] == '%' || v[ta] == ';' {
        let g = open_game(current);
        Some(keep_line(g, v, a, b))
    } else if v[ta] == '[' && v[tb - 1] == ']' {
        let g = open_game(current);
        match tag_pair_at(v, ta, tb) {
            Some(tag) => Some(keep_tag(g, tag)),
            None => Some(g),
        }
    } else {
        match current {
            Some(g) => Some(keep_line(g, v, a, b)),
            None => None,
        }
    }
}

/// Reads a PBN text into its games, in the order of the text. Every game has
/// at least one tag. No deal is attached yet: see `PbnGame::deal_tags`.
pub fn parse_pbn(text: &str) -> (games: Vec<PbnGame>)
    ensures
        games_view(games@) == parse_text(text@),
{
    let v = chars_of(text);
    let bounds = line_bounds(&v);
    let ghost lines = lines_of(v@);
    let mut games: Vec<PbnGame> = Vec::new();
    let mut current: Option<PbnGame> = None;
    let mut i: usize = 0;
    proof {
        assert(games_view(games@) =~= Seq::<GameView>::empty());
        assert(lines.take(0) =~= Seq::<Seq<char>>::empty());
    }
    while i < bounds.len()
        invariant
            i <= bounds@.len(),
            lines == lines_of(v@),
            ranges_of(v@, bounds@) == lines,
            forall|j: int|
                0 <= j < bounds@.len() ==> (#[trigger] bounds@[j]).0 <= bounds@[j].1 <= v@.len(),
            state_of(games@, current) == ParseState::initial().parse_lines(lines.take(i as int)),
        decreases bounds@.len() - i,
    {
        let (a, b) = bounds[i];
        proof {
            assert(lines.len() == bounds@.len());
            assert(lines[i as int] == v@.subrange(a as int, b as int));
            assert(lines.take(i as int + 1).drop_last() =~= lines.take(i as int));
            assert(lines.take(i as int + 1).last() == lines[i as int]);
        }
        current = parse_line_at(&mut games, current, &v, a, b);
        i += 1;
    }
    proof {
        assert(lines.len() == bounds@.len());
        assert(lines.take(i as int) =~= lines);
    }
    close_game(&mut games, current);
    games
}

/// The line that a tag is written as.
pub open spec fn tag_line(tag: (Seq<char>, Seq<char>)) -> Seq<char> {
    seq!['['] + tag.0 + seq![' ', '"'] + tag.1 + seq!['"', ']']
}

/// The lines that tags are written as.
pub open spec fn tag_lines(tags: Seq<(Seq<char>, Seq<char>)>) -> Seq<Seq<char>> {
    Seq::new(tags.len(), |i: int| tag_line(tags[i]))
}

/// The lines of a game: its tags, then the lines it keeps.
pub open spec fn game_lines(g: GameView) -> Seq<Seq<char>> {
    tag_lines(g.tags) + g.lines
}

/// The lines of a document: those of its games, with an empty line before
/// every game but the first.
pub open spec fn doc_lines(games: Seq<GameView>) -> Seq<Seq<char>>
    decreases games.len(),
{
    if games.len() == 0 {
        Seq::empty()
    } else if games.len() == 1 {
        game_lines(games[0])
    } else {
        doc_lines(games.drop_last()) + seq![Seq::<char>::empty()] + game_lines(games.last())
    }
}

/// The text of lines: each is followed by a line feed.
pub open spec fn join_lines(lines: Seq<Seq<char>>) -> Seq<char>
    decreases lines.len(),
{
    if lines.len() == 0 {
        Seq::empty()
    } else {
        join_lines(lines.drop_last()) + lines.last() + seq!['\n']
    }
}

/// The text of a document.
pub open spec fn render_text(games: Seq<GameView>) -> Seq<char> {
    join_lines(doc_lines(games))
}

/// Writes a tag as a line of its own.
fn write_tag(out: &mut String, name: &str, value: &str)
    ensures
        final(out)@ == old(out)@ + tag_line((name@, value@)) + seq!['\n'],
{
    push_char(out, '[');
    append_str(out, name);
    push_char(out, ' ');
    push_char(out, '"');
    append_str(out, value);
    push_char(out, '"');
    push_char(out, ']');
    push_char(out, '\n');
    proof {
        assert(out@ =~= old(out)@ + tag_line((name@, value@)) + seq!['\n']);
    }
}

/// Writes the lines of a game.
fn write_game(out: &mut String, game: &PbnGame)
    ensures
        final(out)@ == old(out)@ + join_lines(game_lines(game@)),
{
    let ghost tags = game@.tags;
    let ghost kept = game@.lines;
    let mut j: usize = 0;
    proof {
        assert(tag_lines(tags).take(0) =~= Seq::<Seq<char>>::empty());
        assert(out@ =~= old(out)@ + join_lines(Seq::<Seq<char>>::empty()));
    }
    while j < game.tags.len()
        invariant
            j <= game.tags@.len(),
            tags == tags_view(game.tags@),
            out@ == old(out)@ + join_lines(tag_lines(tags).take(j as int)),
        decreases game.tags@.len() - j,
    {
        let ghost done = tag_lines(tags).take(j as int);
        let ghost before = out@;
        write_tag(out, game.tags[j].0.as_str(), game.tags[j].1.as_str());
        proof {
            let next = tag_lines(tags).take(j as int + 1);
            assert(next.drop_last() =~= done);
            assert(next.last() == tag_line(tags[j as int]));
            assert(out@ =~= old(out)@ + join_lines(next));
        }
        j += 1;
    }
    proof {
        assert(tag_lines(tags).take(j as int) =~= tag_lines(tags));
        assert(tag_lines(tags) + kept.take(0) =~= tag_lines(tags));
    }
    let mut k: usize = 0;
    while k < game.other_lines.len()
        invariant
            k <= game.other_lines@.len(),
            kept == texts(game.other_lines@),
            out@ == old(out)@ + join_lines(tag_lines(tags) + kept.take(k as int)),
        decreases game.other_lines@.len() - k,
    {
        let ghost done = tag_lines(tags) + kept.take(k as int);
        append_str(out, game.other_lines[k].as_str());
        push_char(out, '\n');
        proof {
            let next = tag_lines(tags) + kept.take(k as int + 1);
            assert(next.drop_last() =~= done);
            assert(next.last() == kept[k as int]);
            assert(out@ =~= old(out)@ + join_lines(next));
        }
        k += 1;
    }
    proof {
        assert(kept.take(k as int) =~= kept);
    }
}

/// The text of the joined lines of two lists is the two texts joined.
pub proof fn lemma_join_concat(a: Seq<Seq<char>>, b: Seq<Seq<char>>)
    ensures
        join_lines(a + b) == join_lines(a) + join_lines(b),
    decreases b.len(),
{
    if b.len() == 0 {
        assert(a + b =~= a);
        assert(join_lines(a) + join_lines(b) =~= join_lines(a));
    } else {
        lemma_join_concat(a, b.drop_last());
        assert((a + b).drop_last() =~= a + b.drop_last());
        assert((a + b).last() == b.last());
        assert(join_lines(a + b) =~= join_lines(a) + join_lines(b));
    }
}

/// Writes the games as a PBN text: for each game its tags, each as
/// `[Name "Value"]`, then the lines it keeps, and an empty line between two
/// games.
pub fn render_pbn(games: &Vec<PbnGame>) -> (out: String)
    ensures
        out@ == render_text(games_view(games@)),
{
    let ghost gs = games_view(games@);
    let mut out = String::new();
    let mut i: usize = 0;
    proof {
        assert(gs.take(0) =~= Seq::<GameView>::empty());
    }
    while i < games.len()
        invariant
            i <= games@.len(),
            gs == games_view(games@),
            out@ == render_text(gs.take(i as int)),
        decreases games@.len() - i,
    {
        let ghost done = gs.take(i as int);
        let ghost next = gs.take(i as int + 1);
        proof {
            assert(next.drop_last() =~= done);
            assert(next.last() == gs[i as int]);
        }
        if i > 0 {
            push_char(&mut out, '\n');
            proof {
                let blank = seq![Seq::<char>::empty()];
                assert((doc_lines(done) + blank).drop_last() =~= doc_lines(done));
                assert(join_lines(doc_lines(done) + blank) =~= join_lines(doc_lines(done))
                    + seq!['\n']);
                lemma_join_concat(doc_lines(done) + blank, game_lines(gs[i as int]));
            }
        } else {
            proof {
                assert(out@ + join_lines(game_lines(gs[i as int])) =~= join_lines(
                    game_lines(gs[i as int]),
                ));
            }
        }
        write_game(&mut out, &games[i]);
        i += 1;
    }
    proof {
        assert(gs.take(i as int) =~= gs);
    }
    out
}


/// The tag line that stands for the value of a `Deal` tag when it is handed
/// to the deal parser.
pub open spec fn deal_tag_text(value: Seq<char>) -> Seq<char> {
    "[Deal \""@ + value + "\"]"@
}

/// The `Deal` tags among `tags`, in their order, each as the tag line to
/// parse. A tag is a `Deal` tag whatever the case of its name's letters.
pub open spec fn deal_tags_of(tags: Seq<(Seq<char>, Seq<char>)>) -> Seq<Seq<char>>
    decreases tags.len(),
{
    if tags.len() == 0 {
        Seq::empty()
    } else if eq_ignore_case(tags.last().0, "Deal"@) {
        deal_tags_of(tags.drop_last()).push(deal_tag_text(tags.last().1))
    } else {
        deal_tags_of(tags.drop_last())
    }
}

/// What a list of parsing outcomes holds.
pub open spec fn outcomes_view(v: Seq<Option<ParsedDeal>>) -> Seq<Option<Seq<char>>> {
    Seq::new(
        v.len(),
        |i: int|
            match v[i] {
                Some(d) => Some(d.tag@),
                None => None,
            },
    )
}

/// The deal of a game after its `Deal` tags were parsed with the outcomes
/// `outcomes`: the last one that was parsed, or `before` where none was.
pub open spec fn last_parsed(outcomes: Seq<Option<Seq<char>>>, before: Option<Seq<char>>) -> Option<
    Seq<char>,
>
    decreases outcomes.len(),
{
    if outcomes.len() == 0 {
        before
    } else {
        match outcomes.last() {
            Some(d) => Some(d),
            None => last_parsed(outcomes.drop_last(), before),
        }
    }
}

impl PbnGame {
    /// The game's `Deal` tags in their order, each as the tag line to hand to
    /// the deal parser.
    pub fn deal_tags(&self) -> (r: Vec<String>)
        ensures
            texts(r@) == deal_tags_of(self@.tags),
    {
        let ghost tags = self@.tags;
        let mut r: Vec<String> = Vec::new();
        let mut i: usize = 0;
        proof {
            assert(tags.take(0) =~= Seq::<(Seq<char>, Seq<char>)>::empty());
            assert(texts(r@) =~= deal_tags_of(tags.take(0)));
        }
        while i < self.tags.len()
            invariant
                i <= self.tags@.len(),
                tags == tags_view(self.tags@),
                texts(r@) == deal_tags_of(tags.take(i as int)),
            decreases self.tags@.len() - i,
        {
            let ghost before = texts(r@);
            proof {
                assert(tags.take(i as int + 1).drop_last() =~= tags.take(i as int));
                assert(tags.take(i as int + 1).last() == tags[i as int]);
            }
            if eq_ignore_ascii_case(self.tags[i].0.as_str(), "Deal") {
                let mut line = String::from_str("[Deal \"");
                append_str(&mut line, self.tags[i].1.as_str());
                append_str(&mut line, "\"]");
                r.push(line);
                proof {
                    assert(texts(r@) =~= before.push(deal_tag_text(tags[i as int].1)));
                }
            }
            i += 1;
        }
        proof {
            assert(tags.take(i as int) =~= tags);
        }
        r
    }

    /// Attaches the deal of the game. `outcomes` holds what the deal parser
    /// made of the game's `Deal` tags, in their order: a tag that parsed
    /// replaces the deal that an earlier one gave, and one that did not
    /// leaves it. Tags and lines stay as they are.
    pub fn resolve_deal(&mut self, outcomes: &Vec<Option<ParsedDeal>>)
        ensures
            final(self)@.tags == old(self)@.tags,
            final(self)@.lines == old(self)@.lines,
            final(self)@.deal == last_parsed(outcomes_view(outcomes@), old(self)@.deal),
    {
        let ghost all = outcomes_view(outcomes@);
        let mut i: usize = 0;
        proof {
            assert(all.take(0) =~= Seq::<Option<Seq<char>>>::empty());
        }
        while i < outcomes.len()
            invariant
                i <= outcomes@.len(),
                all == outcomes_view(outcomes@),
                self@.tags == old(self)@.tags,
                self@.lines == old(self)@.lines,
                self@.deal == last_parsed(all.take(i as int), old(self)@.deal),
            decreases outcomes@.len() - i,
        {
            proof {
                assert(all.take(i as int + 1).drop_last() =~= all.take(i as int));
                assert(all.take(i as int + 1).last() == all[i as int]);
            }
            match &outcomes[i] {
                Some(d) => {
                    self.deal = Some(ParsedDeal { tag: d.tag.clone() });
                },
                None => {},
            }
            i += 1;
        }
        proof {
            assert(all.take(i as int) =~= all);
        }
    }
}

} // verus!
