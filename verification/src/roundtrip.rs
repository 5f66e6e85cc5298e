//! Writing and reading back: a document that is written as text and read
//! again is the document that was written.

use crate::pbn::{
    doc_lines, game_lines, join_lines, parse_text, render_text, tag_line, tag_lines, tag_pair,
    GameView, ParseState,
};
use crate::text::{
    first_index, lines_from, lines_of, strip, strip_cr, strip_leading, strip_trailing, trim,
    CharClass,
};
use vstd::prelude::*;

verus! {

/// Whether the text holds no `c`.
pub open spec fn free_of(s: Seq<char>, c: char) -> bool {
    forall|i: int| 0 <= i < s.len() ==> s[i] != c
}

/// Whether a line can be written and read back as one line: it holds no line
/// feed and does not end in a carriage return.
pub open spec fn clean_line(l: Seq<char>) -> bool {
    free_of(l, '\n') && (l.len() > 0 ==> l.last() != '\r')
}

/// Whether a tag is one that reading produces: its name holds no space and
/// does not start with a bracket, its value neither starts nor ends with a
/// quotation mark, and neither holds a line feed.
pub open spec fn tag_wf(t: (Seq<char>, Seq<char>)) -> bool {
    &&& free_of(t.0, ' ')
    &&& free_of(t.0, '\n')
    &&& t.0.len() > 0 ==> t.0[0] != '['
    &&& free_of(t.1, '\n')
    &&& t.1.len() > 0 ==> t.1[0] != '"' && t.1.last() != '"'
}

/// Whether a kept line is one that reading keeps: a clean line that is not
/// blank and that is a comment, an escape line, or not in brackets.
pub open spec fn kept_line_wf(l: Seq<char>) -> bool {
    &&& clean_line(l)
    &&& trim(l).len() > 0
    &&& trim(l)[0] == '%' || trim(l)[0] == ';' || !(trim(l)[0] == '[' && trim(l).last() == ']')
}

/// Whether a game is one that reading produces: it has a tag, and its tags
/// and kept lines are such as reading produces.
pub open spec fn game_wf(g: GameView) -> bool {
    &&& g.tags.len() > 0
    &&& forall|i: int| 0 <= i < g.tags.len() ==> tag_wf(#[trigger] g.tags[i])
    &&& forall|i: int| 0 <= i < g.lines.len() ==> kept_line_wf(#[trigger] g.lines[i])
}

/// The game without its deal.
pub open spec fn without_deal(g: GameView) -> GameView {
    GameView { deal: None, ..g }
}

/// The games without their deals.
pub open spec fn without_deals(games: Seq<GameView>) -> Seq<GameView> {
    Seq::new(games.len(), |i: int| without_deal(games[i]))
}

proof fn lemma_first_index_at(a: Seq<char>, c: char, rest: Seq<char>)
    requires
        free_of(a, c),
    ensures
        first_index(a + seq![c] + rest, c) == a.len(),
    decreases a.len(),
{
    let s = a + seq![c] + rest;
    if a.len() == 0 {
        assert(s[0] == c);
    } else {
        assert(s[0] == a[0]);
        let b = a.drop_first();
        assert forall|i: int| 0 <= i < b.len() implies b[i] != c by {
            assert(b[i] == a[i + 1]);
        }
        assert(s.drop_first() =~= b + seq![c] + rest);
        lemma_first_index_at(b, c, rest);
    }
}

/// A tag that is written as a line is read back from it.
proof fn lemma_tag_line_parses(t: (Seq<char>, Seq<char>))
    requires
        tag_wf(t),
    ensures
        tag_line(t)[0] == '[',
        tag_line(t).last() == ']',
        trim(tag_line(t)) == tag_line(t),
        tag_pair(tag_line(t)) == Some(t),
        clean_line(tag_line(t)),
{
    let name = t.0;
    let value = t.1;
    let line = tag_line(t);
    let open = CharClass::Only('[');
    let close = CharClass::Only(']');
    let quote = CharClass::Only('"');
    assert(line[0] == '[');
    assert(line.last() == ']');
    // the line has no white space at its ends
    assert(strip_leading(line, CharClass::Space) == line);
    assert(strip_trailing(line, CharClass::Space) == line);
    // the brackets
    let m = name + seq![' ', '"'] + value + seq!['"', ']'];
    assert(line.drop_first() =~= m);
    assert(m[0] != '[') by {
        if name.len() > 0 {
            assert(m[0] == name[0]);
        } else {
            assert(m[0] == ' ');
        }
    }
    assert(strip_leading(m, open) == m);
    assert(strip_leading(line, open) == m);
    let inner = name + seq![' ', '"'] + value + seq!['"'];
    assert(m.drop_last() =~= inner);
    assert(m.last() == ']');
    assert(inner.last() == '"');
    assert(strip_trailing(inner, close) == inner);
    assert(strip_trailing(m, close) == inner);
    // the name
    let q = seq!['"'] + value + seq!['"'];
    assert(inner =~= name + seq![' '] + q);
    lemma_first_index_at(name, ' ', q);
    let k = name.len() as int;
    assert(first_index(inner, ' ') == k);
    assert(inner.take(k) =~= name);
    assert(inner.skip(k + 1) =~= q);
    // the value
    let q1 = value + seq!['"'];
    assert(q[0] == '"');
    assert(q.drop_first() =~= q1);
    assert(strip_leading(q, quote) == strip_leading(q1, quote));
    if value.len() > 0 {
        assert(q1[0] == value[0]);
        assert(strip_leading(q1, quote) == q1);
        assert(q1.last() == '"');
        assert(q1.drop_last() =~= value);
        assert(strip_trailing(q1, quote) == strip_trailing(value, quote));
        assert(strip_trailing(value, quote) == value);
    } else {
        assert(q1[0] == '"');
        assert(q1.drop_first() =~= Seq::<char>::empty());
        assert(strip_leading(q1.drop_first(), quote) == q1.drop_first());
        assert(strip_leading(q1, quote) =~= value);
        assert(strip_trailing(value, quote) == value);
    }
    assert(strip(q, quote) == value);
    assert(tag_pair(line) == Some((name, value)));
    // no line feed
    assert forall|i: int| 0 <= i < line.len() implies line[i] != '\n' by {
        if i == 0 {
        } else if i < 1 + name.len() {
            assert(line[i] == name[i - 1]);
        } else if i < 3 + name.len() {
        } else if i < 3 + name.len() + value.len() {
            assert(line[i] == value[i - 3 - name.len()]);
        } else {
        }
    }
}

/// Reading the lines `a` and then the lines `b` is reading `a + b`.
pub proof fn lemma_parse_lines_concat(st: ParseState, a: Seq<Seq<char>>, b: Seq<Seq<char>>)
    ensures
        st.parse_lines(a + b) == st.parse_lines(a).parse_lines(b),
    decreases b.len(),
{
    if b.len() == 0 {
        assert(a + b =~= a);
    } else {
        lemma_parse_lines_concat(st, a, b.drop_last());
        assert((a + b).drop_last() =~= a + b.drop_last());
        assert((a + b).last() == b.last());
    }
}

/// The game that is open after the tags `tags` were read.
spec fn with_tags(st: ParseState, tags: Seq<(Seq<char>, Seq<char>)>) -> ParseState {
    if tags.len() == 0 {
        st
    } else {
        ParseState {
            games: st.games,
            current: Some(GameView { tags: st.opened().tags + tags, ..st.opened() }),
        }
    }
}

proof fn lemma_parse_tag_lines(st: ParseState, tags: Seq<(Seq<char>, Seq<char>)>)
    requires
        forall|i: int| 0 <= i < tags.len() ==> tag_wf(#[trigger] tags[i]),
    ensures
        st.parse_lines(tag_lines(tags)) == with_tags(st, tags),
    decreases tags.len(),
{
    if tags.len() > 0 {
        let before = tags.drop_last();
        let t = tags.last();
        assert forall|i: int| 0 <= i < before.len() implies tag_wf(#[trigger] before[i]) by {
            assert(before[i] == tags[i]);
        }
        lemma_parse_tag_lines(st, before);
        assert(tag_lines(tags).drop_last() =~= tag_lines(before));
        assert(tag_lines(tags).last() == tag_line(t));
        assert(tag_wf(t));
        lemma_tag_line_parses(t);
        let mid = with_tags(st, before);
        assert(mid.parse_line(tag_line(t)) == ParseState {
            games: mid.games,
            current: Some(mid.opened().push_tag(t.0, t.1)),
        });
        if before.len() == 0 {
            assert(st.opened().tags.push(t) =~= st.opened().tags + tags);
        } else {
            assert((st.opened().tags + before).push(t) =~= st.opened().tags + tags);
        }
    }
}

proof fn lemma_parse_kept_lines(st: ParseState, lines: Seq<Seq<char>>)
    requires
        st.current is Some,
        forall|i: int| 0 <= i < lines.len() ==> kept_line_wf(#[trigger] lines[i]),
    ensures
        st.parse_lines(lines) == (ParseState {
            games: st.games,
            current: Some(GameView { lines: st.current->0.lines + lines, ..st.current->0 }),
        }),
    decreases lines.len(),
{
    let g = st.current->0;
    if lines.len() == 0 {
        assert(g.lines + lines =~= g.lines);
    } else {
        let before = lines.drop_last();
        let l = lines.last();
        assert forall|i: int| 0 <= i < before.len() implies kept_line_wf(#[trigger] before[i]) by {
            assert(before[i] == lines[i]);
        }
        lemma_parse_kept_lines(st, before);
        assert(kept_line_wf(l));
        assert((g.lines + before).push(l) =~= g.lines + lines);
    }
}

proof fn lemma_parse_game(done: Seq<GameView>, g: GameView)
    requires
        game_wf(g),
    ensures
        (ParseState { games: done, current: None }).parse_lines(game_lines(g)) == (ParseState {
            games: done,
            current: Some(without_deal(g)),
        }),
{
    let st = ParseState { games: done, current: None };
    lemma_parse_lines_concat(st, tag_lines(g.tags), g.lines);
    lemma_parse_tag_lines(st, g.tags);
    let mid = with_tags(st, g.tags);
    lemma_parse_kept_lines(mid, g.lines);
    assert(Seq::<(Seq<char>, Seq<char>)>::empty() + g.tags =~= g.tags);
    assert(Seq::<Seq<char>>::empty() + g.lines =~= g.lines);
}

proof fn lemma_parse_doc(games: Seq<GameView>)
    requires
        games.len() > 0,
        forall|i: int| 0 <= i < games.len() ==> game_wf(#[trigger] games[i]),
    ensures
        ParseState::initial().parse_lines(doc_lines(games)) == (ParseState {
            games: without_deals(games.drop_last()),
            current: Some(without_deal(games.last())),
        }),
    decreases games.len(),
{
    let init = ParseState::initial();
    if games.len() == 1 {
        assert(game_wf(games[0]));
        lemma_parse_game(Seq::empty(), games[0]);
        assert(without_deals(games.drop_last()) =~= Seq::<GameView>::empty());
    } else {
        let before = games.drop_last();
        let g = games.last();
        assert forall|i: int| 0 <= i < before.len() implies game_wf(#[trigger] before[i]) by {
            assert(before[i] == games[i]);
        }
        lemma_parse_doc(before);
        let blank = seq![Seq::<char>::empty()];
        lemma_parse_lines_concat(init, doc_lines(before) + blank, game_lines(g));
        lemma_parse_lines_concat(init, doc_lines(before), blank);
        let st1 = init.parse_lines(doc_lines(before));
        assert(blank.drop_last() =~= Seq::<Seq<char>>::empty());
        assert(st1.parse_lines(blank) == st1.parse_lines(blank.drop_last()).parse_line(
            blank.last(),
        ));
        assert(st1.parse_lines(blank.drop_last()) == st1);
        assert(trim(Seq::<char>::empty()) =~= Seq::<char>::empty());
        assert(game_wf(before.last()));
        assert(without_deals(before.drop_last()).push(without_deal(before.last()))
            =~= without_deals(before));
        assert(st1.parse_line(blank.last()) == ParseState {
            games: without_deals(before),
            current: None,
        });
        assert(game_wf(g));
        lemma_parse_game(without_deals(before), g);
    }
}

/// The text of lines ends with a line feed unless there is no line.
proof fn lemma_join_complete(lines: Seq<Seq<char>>)
    ensures
        join_lines(lines).len() == 0 || join_lines(lines).last() == '\n',
        lines.len() == 0 ==> join_lines(lines).len() == 0,
{
}

proof fn lemma_lines_after_complete(t1: Seq<char>, t2: Seq<char>, cur: Seq<char>)
    requires
        if t1.len() == 0 {
            cur.len() == 0
        } else {
            t1.last() == '\n'
        },
    ensures
        lines_from(t1 + t2, cur) == lines_from(t1, cur) + lines_of(t2),
    decreases t1.len(),
{
    if t1.len() == 0 {
        assert(t1 + t2 =~= t2);
        assert(cur =~= Seq::<char>::empty());
        assert(lines_from(t1, cur) + lines_of(t2) =~= lines_of(t2));
    } else {
        let s = t1 + t2;
        assert(s[0] == t1[0]);
        assert(s.drop_first() =~= t1.drop_first() + t2);
        let r = t1.drop_first();
        if r.len() > 0 {
            assert(r.last() == t1.last());
        }
        if t1[0] == '\n' {
            lemma_lines_after_complete(r, t2, Seq::empty());
            assert(seq![strip_cr(cur)] + (lines_from(r, Seq::empty()) + lines_of(t2)) =~= (seq![
                strip_cr(cur),
            ] + lines_from(r, Seq::empty())) + lines_of(t2));
        } else {
            assert(r.len() > 0);
            lemma_lines_after_complete(r, t2, cur.push(t1[0]));
        }
    }
}

proof fn lemma_one_line(x: Seq<char>, cur: Seq<char>)
    requires
        free_of(x, '\n'),
    ensures
        lines_from(x + seq!['\n'], cur) == seq![strip_cr(cur + x)],
    decreases x.len(),
{
    let s = x + seq!['\n'];
    if x.len() == 0 {
        assert(s[0] == '\n');
        assert(s.drop_first() =~= Seq::<char>::empty());
        assert(cur + x =~= cur);
        assert(seq![strip_cr(cur)] + lines_from(s.drop_first(), Seq::empty()) =~= seq![
            strip_cr(cur),
        ]);
    } else {
        assert(s[0] == x[0]);
        let r = x.drop_first();
        assert forall|i: int| 0 <= i < r.len() implies r[i] != '\n' by {
            assert(r[i] == x[i + 1]);
        }
        assert(s.drop_first() =~= r + seq!['\n']);
        lemma_one_line(r, cur.push(x[0]));
        assert(cur.push(x[0]) + r =~= cur + x);
    }
}

/// Clean lines that are written as text are read back as the same lines.
pub proof fn lemma_lines_of_join(lines: Seq<Seq<char>>)
    requires
        forall|i: int| 0 <= i < lines.len() ==> clean_line(#[trigger] lines[i]),
    ensures
        lines_of(join_lines(lines)) == lines,
    decreases lines.len(),
{
    if lines.len() == 0 {
        assert(lines_of(join_lines(lines)) =~= lines);
    } else {
        let before = lines.drop_last();
        let x = lines.last();
        assert forall|i: int| 0 <= i < before.len() implies clean_line(#[trigger] before[i]) by {
            assert(before[i] == lines[i]);
        }
        lemma_lines_of_join(before);
        lemma_join_complete(before);
        assert(clean_line(x));
        assert(join_lines(lines) =~= join_lines(before) + (x + seq!['\n']));
        lemma_lines_after_complete(join_lines(before), x + seq!['\n'], Seq::empty());
        lemma_one_line(x, Seq::empty());
        assert(Seq::<char>::empty() + x =~= x);
        assert(before + seq![x] =~= lines);
    }
}

proof fn lemma_game_lines_clean(g: GameView)
    requires
        game_wf(g),
    ensures
        forall|i: int| 0 <= i < game_lines(g).len() ==> clean_line(#[trigger] game_lines(g)[i]),
{
    assert forall|i: int| 0 <= i < game_lines(g).len() implies clean_line(
        #[trigger] game_lines(g)[i],
    ) by {
        if i < g.tags.len() {
            assert(game_lines(g)[i] == tag_line(g.tags[i]));
            assert(tag_wf(g.tags[i]));
            lemma_tag_line_parses(g.tags[i]);
        } else {
            assert(game_lines(g)[i] == g.lines[i - g.tags.len()]);
            assert(kept_line_wf(g.lines[i - g.tags.len()]));
        }
    }
}

proof fn lemma_doc_lines_clean(games: Seq<GameView>)
    requires
        forall|i: int| 0 <= i < games.len() ==> game_wf(#[trigger] games[i]),
    ensures
        forall|i: int| 0 <= i < doc_lines(games).len() ==> clean_line(#[trigger] doc_lines(games)[i]),
    decreases games.len(),
{
    if games.len() == 0 {
    } else if games.len() == 1 {
        assert(game_wf(games[0]));
        lemma_game_lines_clean(games[0]);
    } else {
        let before = games.drop_last();
        let g = games.last();
        assert forall|i: int| 0 <= i < before.len() implies game_wf(#[trigger] before[i]) by {
            assert(before[i] == games[i]);
        }
        lemma_doc_lines_clean(before);
        assert(game_wf(g));
        lemma_game_lines_clean(g);
        let a = doc_lines(before);
        let blank = seq![Seq::<char>::empty()];
        let c = game_lines(g);
        assert forall|i: int| 0 <= i < doc_lines(games).len() implies clean_line(
            #[trigger] doc_lines(games)[i],
        ) by {
            if i < a.len() {
                assert(doc_lines(games)[i] == a[i]);
            } else if i == a.len() {
                assert(doc_lines(games)[i] == blank[0]);
            } else {
                assert(doc_lines(games)[i] == c[i - a.len() - 1]);
            }
        }
    }
}

/// Writing and reading back gives the same document. For games such as
/// reading produces, the text that they are written as is read back as the
/// same games, with every tag and every kept line in its place; only the
/// deals, which reading does not attach, are missing.
pub proof fn lemma_parse_render(games: Seq<GameView>)
    requires
        forall|i: int| 0 <= i < games.len() ==> game_wf(#[trigger] games[i]),
    ensures
        parse_text(render_text(games)) == without_deals(games),
{
    lemma_doc_lines_clean(games);
    lemma_lines_of_join(doc_lines(games));
    if games.len() == 0 {
        assert(without_deals(games) =~= Seq::<GameView>::empty());
    } else {
        lemma_parse_doc(games);
        assert(game_wf(games.last()));
        assert(without_deals(games.drop_last()).push(without_deal(games.last()))
            =~= without_deals(games));
    }
}


/// What is left of a text after its leading characters of `cls` are gone is
/// its end, and does not start with a character of `cls`.
pub proof fn lemma_strip_leading_is_end(s: Seq<char>, cls: CharClass)
    ensures
        strip_leading(s, cls).len() <= s.len(),
        strip_leading(s, cls) == s.skip(s.len() - strip_leading(s, cls).len()),
        strip_leading(s, cls).len() > 0 ==> !cls.has(strip_leading(s, cls)[0]),
    decreases s.len(),
{
    if s.len() > 0 && cls.has(s[0]) {
        let r = s.drop_first();
        lemma_strip_leading_is_end(r, cls);
        let n = r.len() - strip_leading(r, cls).len();
        assert(r.skip(n) =~= s.skip(n + 1));
    } else {
        assert(s.skip(0) =~= s);
    }
}

/// What is left of a text after its trailing characters of `cls` are gone is
/// its start, and does not end with a character of `cls`.
pub proof fn lemma_strip_trailing_is_start(s: Seq<char>, cls: CharClass)
    ensures
        strip_trailing(s, cls).len() <= s.len(),
        strip_trailing(s, cls) == s.take(strip_trailing(s, cls).len() as int),
        strip_trailing(s, cls).len() > 0 ==> !cls.has(strip_trailing(s, cls).last()),
    decreases s.len(),
{
    if s.len() > 0 && cls.has(s.last()) {
        let r = s.drop_last();
        lemma_strip_trailing_is_start(r, cls);
        let n = strip_trailing(r, cls).len() as int;
        assert(r.take(n) =~= s.take(n));
    } else {
        assert(s.take(s.len() as int) =~= s);
    }
}

/// Stripping the ends of a text brings no character into it.
proof fn lemma_strip_free(s: Seq<char>, cls: CharClass, c: char)
    requires
        free_of(s, c),
    ensures
        free_of(strip_leading(s, cls), c),
        free_of(strip_trailing(s, cls), c),
        free_of(strip(s, cls), c),
{
    lemma_strip_leading_is_end(s, cls);
    lemma_strip_trailing_is_start(s, cls);
    let a = strip_leading(s, cls);
    lemma_strip_trailing_is_start(a, cls);
    let n = s.len() - a.len();
    assert forall|i: int| 0 <= i < a.len() implies a[i] != c by {
        assert(a[i] == s[i + n]);
    }
    let b = strip_trailing(s, cls);
    assert forall|i: int| 0 <= i < b.len() implies b[i] != c by {
        assert(b[i] == s[i]);
    }
    let d = strip_trailing(a, cls);
    assert forall|i: int| 0 <= i < d.len() implies d[i] != c by {
        assert(d[i] == a[i]);
    }
}

/// A tag that is read from a line without a line feed is such as reading
/// produces.
proof fn lemma_tag_pair_wf(line: Seq<char>)
    requires
        free_of(line, '\n'),
        tag_pair(line) is Some,
    ensures
        tag_wf(tag_pair(line)->0),
{
    let open = CharClass::Only('[');
    let close = CharClass::Only(']');
    let quote = CharClass::Only('"');
    let a = strip_leading(line, open);
    let inner = strip_trailing(a, close);
    lemma_strip_leading_is_end(line, open);
    lemma_strip_trailing_is_start(a, close);
    lemma_strip_free(line, open, '\n');
    lemma_strip_free(a, close, '\n');
    crate::text::lemma_first_index_bounds(inner, ' ');
    let k = first_index(inner, ' ');
    let name = inner.take(k);
    let rest = inner.skip(k + 1);
    let value = strip(rest, quote);
    assert forall|i: int| 0 <= i < name.len() implies name[i] != ' ' && name[i] != '\n' by {
        assert(name[i] == inner[i]);
    }
    if name.len() > 0 {
        assert(name[0] == inner[0]);
        assert(inner[0] == a[0]);
    }
    assert forall|i: int| 0 <= i < rest.len() implies rest[i] != '\n' by {
        assert(rest[i] == inner[i + k + 1]);
    }
    lemma_strip_free(rest, quote, '\n');
    let b = strip_leading(rest, quote);
    lemma_strip_leading_is_end(rest, quote);
    lemma_strip_trailing_is_start(b, quote);
    if value.len() > 0 {
        assert(value[0] == b[0]);
    }
}

/// What holds of the state while a text is read: every game and the open
/// game are such as reading produces, and none has a deal.
pub open spec fn state_wf(st: ParseState) -> bool {
    &&& forall|i: int|
        0 <= i < st.games.len() ==> game_wf(#[trigger] st.games[i]) && st.games[i].deal is None
    &&& match st.current {
        Some(g) => {
            &&& g.deal is None
            &&& forall|i: int| 0 <= i < g.tags.len() ==> tag_wf(#[trigger] g.tags[i])
            &&& forall|i: int| 0 <= i < g.lines.len() ==> kept_line_wf(#[trigger] g.lines[i])
        },
        None => true,
    }
}

proof fn lemma_close_wf(st: ParseState)
    requires
        state_wf(st),
    ensures
        state_wf(st.close()),
{
    match st.current {
        Some(g) => {
            if g.tags.len() > 0 {
                let pushed = st.games.push(g);
                assert forall|i: int| 0 <= i < pushed.len() implies game_wf(#[trigger] pushed[i])
                    && pushed[i].deal is None by {
                    if i < st.games.len() {
                        assert(pushed[i] == st.games[i]);
                    }
                }
            }
        },
        None => {},
    }
}

proof fn lemma_push_line_wf(st: ParseState, g: GameView, line: Seq<char>)
    requires
        state_wf(st),
        g.deal is None,
        forall|i: int| 0 <= i < g.tags.len() ==> tag_wf(#[trigger] g.tags[i]),
        forall|i: int| 0 <= i < g.lines.len() ==> kept_line_wf(#[trigger] g.lines[i]),
        kept_line_wf(line),
    ensures
        state_wf(ParseState { current: Some(g.push_line(line)), ..st }),
{
    let h = g.push_line(line);
    assert forall|i: int| 0 <= i < h.lines.len() implies kept_line_wf(#[trigger] h.lines[i]) by {
        if i < g.lines.len() {
            assert(h.lines[i] == g.lines[i]);
        }
    }
}

proof fn lemma_parse_line_wf(st: ParseState, line: Seq<char>)
    requires
        state_wf(st),
        clean_line(line),
    ensures
        state_wf(st.parse_line(line)),
{
    let t = trim(line);
    lemma_strip_free(line, CharClass::Space, '\n');
    if t.len() == 0 {
        lemma_close_wf(st);
    } else if t[0] == '%' || t[0] == ';' {
        lemma_push_line_wf(st, st.opened(), line);
    } else if t[0] == '[' && t.last() == ']' {
        match tag_pair(t) {
            Some(tag) => {
                lemma_tag_pair_wf(t);
                let g = st.opened();
                let h = g.push_tag(tag.0, tag.1);
                assert forall|i: int| 0 <= i < h.tags.len() implies tag_wf(#[trigger] h.tags[i]) by {
                    if i < g.tags.len() {
                        assert(h.tags[i] == g.tags[i]);
                    }
                }
            },
            None => {},
        }
    } else {
        match st.current {
            Some(g) => {
                lemma_push_line_wf(st, g, line);
            },
            None => {},
        }
    }
}

proof fn lemma_parse_lines_wf(lines: Seq<Seq<char>>)
    requires
        forall|i: int| 0 <= i < lines.len() ==> clean_line(#[trigger] lines[i]),
    ensures
        state_wf(ParseState::initial().parse_lines(lines)),
    decreases lines.len(),
{
    if lines.len() > 0 {
        let before = lines.drop_last();
        assert forall|i: int| 0 <= i < before.len() implies clean_line(#[trigger] before[i]) by {
            assert(before[i] == lines[i]);
        }
        lemma_parse_lines_wf(before);
        assert(clean_line(lines.last()));
        lemma_parse_line_wf(ParseState::initial().parse_lines(before), lines.last());
    }
}

/// No line of a text holds a line feed.
proof fn lemma_lines_hold_no_feed(s: Seq<char>, cur: Seq<char>)
    requires
        free_of(cur, '\n'),
    ensures
        forall|i: int|
            0 <= i < lines_from(s, cur).len() ==> free_of(#[trigger] lines_from(s, cur)[i], '\n'),
    decreases s.len(),
{
    let all = lines_from(s, cur);
    if s.len() == 0 {
        assert forall|i: int| 0 <= i < all.len() implies free_of(#[trigger] all[i], '\n') by {
            assert(all[i] == cur);
        }
    } else if s[0] == '\n' {
        lemma_lines_hold_no_feed(s.drop_first(), Seq::empty());
        let head = strip_cr(cur);
        assert(free_of(head, '\n')) by {
            assert forall|j: int| 0 <= j < head.len() implies head[j] != '\n' by {
                assert(head[j] == cur[j]);
            }
        }
        let tail = lines_from(s.drop_first(), Seq::empty());
        assert(all == seq![head] + tail);
        assert forall|i: int| 0 <= i < all.len() implies free_of(#[trigger] all[i], '\n') by {
            if i > 0 {
                assert(all[i] == tail[i - 1]);
            } else {
                assert(all[i] == head);
            }
        }
    } else {
        let next = cur.push(s[0]);
        assert(free_of(next, '\n')) by {
            assert forall|j: int| 0 <= j < next.len() implies next[j] != '\n' by {
                if j < cur.len() {
                    assert(next[j] == cur[j]);
                }
            }
        }
        lemma_lines_hold_no_feed(s.drop_first(), next);
        assert(all == lines_from(s.drop_first(), next));
    }
}

/// Whether no line of the text ends in a carriage return once the line's
/// own end is taken off.
pub open spec fn no_stray_return(text: Seq<char>) -> bool {
    forall|i: int|
        0 <= i < lines_of(text).len() ==> ((#[trigger] lines_of(text)[i]).len() > 0 ==> lines_of(
            text,
        )[i].last() != '\r')
}

/// Reading produces games that can be written and read back: every game
/// that is read from a text without stray carriage returns has a tag, its
/// tags and lines are such as reading produces, and it has no deal.
pub proof fn lemma_parse_gives_wf(text: Seq<char>)
    requires
        no_stray_return(text),
    ensures
        forall|i: int|
            0 <= i < parse_text(text).len() ==> game_wf(#[trigger] parse_text(text)[i])
                && parse_text(text)[i].deal is None,
{
    lemma_lines_hold_no_feed(text, Seq::empty());
    let lines = lines_of(text);
    assert forall|i: int| 0 <= i < lines.len() implies clean_line(#[trigger] lines[i]) by {
        assert(free_of(lines[i], '\n'));
    }
    lemma_parse_lines_wf(lines);
    lemma_close_wf(ParseState::initial().parse_lines(lines));
}

/// A text that is read and written again holds every tag and every kept
/// line of the text, in their order: it is read as the same games. This
/// holds of every text in which no line ends in a stray carriage return.
pub proof fn lemma_render_reproduces(text: Seq<char>)
    requires
        no_stray_return(text),
    ensures
        parse_text(render_text(parse_text(text))) == parse_text(text),
{
    lemma_parse_gives_wf(text);
    let games = parse_text(text);
    lemma_parse_render(games);
    assert(without_deals(games) =~= games);
}

} // verus!
