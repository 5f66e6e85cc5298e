//! Characters and strings: the primitives the document model is built on.
//!
//! Text is processed as a vector of characters, and every function here is
//! stated over the sequence of characters that a string denotes.

use vstd::prelude::*;
use vstd::std_specs::iter::IteratorSpec;

verus! {

/// The characters of `s`, in order.
pub fn chars_of(s: &str) -> (v: Vec<char>)
    ensures
        v@ == s@,
{
    let mut v: Vec<char> = Vec::new();
    for c in it: s.chars()
        invariant
            it.seq() == s@,
            v@ == it.seq().take(it.index()),
    {
        v.push(c);
    }
    v
}

/// `String::push`: appends one character to the end of the string, and
/// leaves what was there as it is.
#[verifier::external_body]
pub(crate) fn push_char(s: &mut String, c: char)
    ensures
        final(s)@ == old(s)@.push(c),
{
    s.push(c);
}

/// The string that holds the characters `v[from..to]`.
pub fn string_of(v: &Vec<char>, from: usize, to: usize) -> (s: String)
    requires
        from <= to <= v@.len(),
    ensures
        s@ == v@.subrange(from as int, to as int),
{
    let mut s = String::new();
    let mut i: usize = from;
    while i < to
        invariant
            from <= i <= to <= v@.len(),
            s@ == v@.subrange(from as int, i as int),
        decreases to - i,
    {
        push_char(&mut s, v[i]);
        i += 1;
    }
    s
}

/// White space as Unicode defines it.
pub open spec fn is_space(c: char) -> bool {
    let u = c as u32;
    ||| 0x9 <= u <= 0xd
    ||| u == 0x20
    ||| u == 0x85
    ||| u == 0xa0
    ||| u == 0x1680
    ||| 0x2000 <= u <= 0x200a
    ||| u == 0x2028
    ||| u == 0x2029
    ||| u == 0x202f
    ||| u == 0x205f
    ||| u == 0x3000
}

/// A set of characters to strip from the ends of a text.
#[derive(Clone, Copy, Debug)]
pub enum CharClass {
    /// Every white-space character.
    Space,
    /// One character.
    Only(char),
}

impl CharClass {
    /// Whether `c` is one of the characters.
    pub open spec fn has(self, c: char) -> bool {
        match self {
            CharClass::Space => is_space(c),
            CharClass::Only(x) => c == x,
        }
    }

    /// Whether `c` is one of the characters.
    pub fn contains(&self, c: char) -> (r: bool)
        ensures
            r == self.has(c),
    {
        match self {
            CharClass::Space => {
                let u: u32 = c as u32;
                (0x9 <= u && u <= 0xd) || u == 0x20 || u == 0x85 || u == 0xa0 || u == 0x1680 || (
                0x2000 <= u && u <= 0x200a) || u == 0x2028 || u == 0x2029 || u == 0x202f || u
                    == 0x205f || u == 0x3000
            },
            CharClass::Only(x) => c == *x,
        }
    }
}

/// `s` without its longest prefix of characters of `cls`.
pub open spec fn strip_leading(s: Seq<char>, cls: CharClass) -> Seq<char>
    decreases s.len(),
{
    if s.len() > 0 && cls.has(s[0]) {
        strip_leading(s.drop_first(), cls)
    } else {
        s
    }
}

/// `s` without its longest suffix of characters of `cls`.
pub open spec fn strip_trailing(s: Seq<char>, cls: CharClass) -> Seq<char>
    decreases s.len(),
{
    if s.len() > 0 && cls.has(s.last()) {
        strip_trailing(s.drop_last(), cls)
    } else {
        s
    }
}

/// `s` with the characters of `cls` removed from both ends.
pub open spec fn strip(s: Seq<char>, cls: CharClass) -> Seq<char> {
    strip_trailing(strip_leading(s, cls), cls)
}

/// `s` without leading and trailing white space.
pub open spec fn trim(s: Seq<char>) -> Seq<char> {
    strip(s, CharClass::Space)
}

/// The index of the first `c` in `s`, or the length of `s` if it holds none.
pub open spec fn first_index(s: Seq<char>, c: char) -> int
    decreases s.len(),
{
    if s.len() == 0 || s[0] == c {
        0
    } else {
        1 + first_index(s.drop_first(), c)
    }
}

/// The first index of a character is a place in the text or its length; the
/// character stands there, if anywhere, and nowhere before.
pub proof fn lemma_first_index_bounds(s: Seq<char>, c: char)
    ensures
        0 <= first_index(s, c) <= s.len(),
        first_index(s, c) < s.len() ==> s[first_index(s, c)] == c,
        forall|i: int| 0 <= i < first_index(s, c) ==> s[i] != c,
    decreases s.len(),
{
    if s.len() == 0 || s[0] == c {
    } else {
        let t = s.drop_first();
        lemma_first_index_bounds(t, c);
        assert forall|i: int| 0 <= i < first_index(s, c) implies s[i] != c by {
            if i > 0 {
                assert(s[i] == t[i - 1]);
            }
        }
    }
}

/// The start of `v[from..to]` once the leading characters of `cls` are gone.
pub fn skip_leading(v: &Vec<char>, from: usize, to: usize, cls: CharClass) -> (a: usize)
    requires
        from <= to <= v@.len(),
    ensures
        from <= a <= to,
        v@.subrange(a as int, to as int) == strip_leading(v@.subrange(from as int, to as int), cls),
{
    let mut a: usize = from;
    while a < to && cls.contains(v[a])
        invariant
            from <= a <= to <= v@.len(),
            strip_leading(v@.subrange(from as int, to as int), cls) == strip_leading(
                v@.subrange(a as int, to as int),
                cls,
            ),
        decreases to - a,
    {
        proof {
            assert(v@.subrange(a as int, to as int).drop_first() =~= v@.subrange(
                a as int + 1,
                to as int,
            ));
        }
        a += 1;
    }
    a
}

/// The end of `v[from..to]` once the trailing characters of `cls` are gone.
pub fn skip_trailing(v: &Vec<char>, from: usize, to: usize, cls: CharClass) -> (b: usize)
    requires
        from <= to <= v@.len(),
    ensures
        from <= b <= to,
        v@.subrange(from as int, b as int) == strip_trailing(
            v@.subrange(from as int, to as int),
            cls,
        ),
{
    let mut b: usize = to;
    while b > from && cls.contains(v[b - 1])
        invariant
            from <= b <= to <= v@.len(),
            strip_trailing(v@.subrange(from as int, to as int), cls) == strip_trailing(
                v@.subrange(from as int, b as int),
                cls,
            ),
        decreases b - from,
    {
        proof {
            assert(v@.subrange(from as int, b as int).drop_last() =~= v@.subrange(
                from as int,
                b as int - 1,
            ));
        }
        b -= 1;
    }
    b
}

/// The bounds of `v[from..to]` once the characters of `cls` are gone from both
/// ends.
pub fn strip_bounds(v: &Vec<char>, from: usize, to: usize, cls: CharClass) -> (r: (usize, usize))
    requires
        from <= to <= v@.len(),
    ensures
        from <= r.0 <= r.1 <= to,
        v@.subrange(r.0 as int, r.1 as int) == strip(v@.subrange(from as int, to as int), cls),
{
    let a = skip_leading(v, from, to, cls);
    let b = skip_trailing(v, a, to, cls);
    (a, b)
}

/// The position of the first `c` in `v[from..to]`, or `to` if it holds none.
pub fn find_char(v: &Vec<char>, from: usize, to: usize, c: char) -> (k: usize)
    requires
        from <= to <= v@.len(),
    ensures
        from <= k <= to,
        k - from == first_index(v@.subrange(from as int, to as int), c),
{
    let mut k: usize = from;
    while k < to && v[k] != c
        invariant
            from <= k <= to <= v@.len(),
            first_index(v@.subrange(from as int, to as int), c) == (k - from) + first_index(
                v@.subrange(k as int, to as int),
                c,
            ),
        decreases to - k,
    {
        proof {
            assert(v@.subrange(k as int, to as int).drop_first() =~= v@.subrange(
                k as int + 1,
                to as int,
            ));
        }
        k += 1;
    }
    k
}

/// The code of `c` with the upper-case ASCII letters mapped to lower case.
pub open spec fn fold_ascii(c: char) -> u32 {
    let u = c as u32;
    if 0x41 <= u <= 0x5a {
        (u + 0x20) as u32
    } else {
        u
    }
}

/// Equality of two texts up to the case of ASCII letters.
pub open spec fn eq_ignore_case(a: Seq<char>, b: Seq<char>) -> bool {
    &&& a.len() == b.len()
    &&& forall|i: int| 0 <= i < a.len() ==> fold_ascii(#[trigger] a[i]) == fold_ascii(b[i])
}

fn fold_char(c: char) -> (u: u32)
    ensures
        u == fold_ascii(c),
{
    let u: u32 = c as u32;
    if 0x41 <= u && u <= 0x5a {
        u + 0x20
    } else {
        u
    }
}

/// Whether two texts are equal up to the case of ASCII letters.
pub fn eq_ignore_ascii_case(a: &str, b: &str) -> (r: bool)
    ensures
        r == eq_ignore_case(a@, b@),
{
    let x = chars_of(a);
    let y = chars_of(b);
    if x.len() != y.len() {
        return false;
    }
    let mut i: usize = 0;
    while i < x.len()
        invariant
            i <= x.len(),
            x.len() == y.len(),
            x@ == a@,
            y@ == b@,
            forall|j: int| 0 <= j < i ==> fold_ascii(#[trigger] x@[j]) == fold_ascii(y@[j]),
        decreases x.len() - i,
    {
        if fold_char(x[i]) != fold_char(y[i]) {
            proof {
                assert(fold_ascii(x@[i as int]) != fold_ascii(y@[i as int]));
            }
            return false;
        }
        i += 1;
    }
    true
}

/// The decimal digit for `d`.
pub open spec fn digit_char(d: int) -> char {
    if d == 0 {
        '0'
    } else if d == 1 {
        '1'
    } else if d == 2 {
        '2'
    } else if d == 3 {
        '3'
    } else if d == 4 {
        '4'
    } else if d == 5 {
        '5'
    } else if d == 6 {
        '6'
    } else if d == 7 {
        '7'
    } else if d == 8 {
        '8'
    } else {
        '9'
    }
}

/// The decimal digits of `n`, without leading zeros.
pub open spec fn digits(n: nat) -> Seq<char>
    decreases n,
{
    if n < 10 {
        seq![digit_char(n as int)]
    } else {
        digits(n / 10).push(digit_char((n % 10) as int))
    }
}

/// The decimal notation of `i`, with a minus sign where it is negative.
pub open spec fn decimal(i: int) -> Seq<char> {
    if i < 0 {
        seq!['-'] + digits((-i) as nat)
    } else {
        digits(i as nat)
    }
}

fn digit_of(d: u128) -> (c: char)
    requires
        d < 10,
    ensures
        c == digit_char(d as int),
{
    if d == 0 {
        '0'
    } else if d == 1 {
        '1'
    } else if d == 2 {
        '2'
    } else if d == 3 {
        '3'
    } else if d == 4 {
        '4'
    } else if d == 5 {
        '5'
    } else if d == 6 {
        '6'
    } else if d == 7 {
        '7'
    } else if d == 8 {
        '8'
    } else {
        '9'
    }
}

/// Appends the decimal digits of `n` to `s`.
pub fn append_digits(s: &mut String, n: u128)
    ensures
        final(s)@ == old(s)@ + digits(n as nat),
    decreases n,
{
    if n < 10 {
        push_char(s, digit_of(n));
        proof {
            assert(old(s)@.push(digit_char(n as int)) =~= old(s)@ + digits(n as nat));
        }
    } else {
        append_digits(s, n / 10);
        push_char(s, digit_of(n % 10));
        proof {
            assert((old(s)@ + digits((n / 10) as nat)).push(digit_char((n % 10) as int)) =~= old(
                s,
            )@ + digits(n as nat));
        }
    }
}

/// Appends the decimal notation of `i` to `s`.
pub fn append_decimal(s: &mut String, i: i64)
    ensures
        final(s)@ == old(s)@ + decimal(i as int),
{
    if i < 0 {
        push_char(s, '-');
        let m: u128 = if i == i64::MIN {
            0x8000_0000_0000_0000u128
        } else {
            (-i) as u128
        };
        append_digits(s, m);
        proof {
            assert(old(s)@.push('-') + digits(m as nat) =~= old(s)@ + decimal(i as int));
        }
    } else {
        append_digits(s, i as u128);
    }
}

/// Appends the text `t` to `s`.
pub fn append_str(s: &mut String, t: &str)
    ensures
        final(s)@ == old(s)@ + t@,
{
    s.append(t);
}


/// The texts that a sequence of strings holds.
pub open spec fn texts(v: Seq<String>) -> Seq<Seq<char>> {
    Seq::new(v.len(), |i: int| v[i]@)
}

/// The text that an optional string holds.
pub open spec fn opt_text(o: Option<String>) -> Option<Seq<char>> {
    match o {
        Some(s) => Some(s@),
        None => None,
    }
}

/// The texts that an optional list of strings holds.
pub open spec fn opt_texts(o: Option<Vec<String>>) -> Option<Seq<Seq<char>>> {
    match o {
        Some(v) => Some(texts(v@)),
        None => None,
    }
}

/// A copy of an optional string.
pub fn clone_opt(o: &Option<String>) -> (r: Option<String>)
    ensures
        opt_text(r) == opt_text(*o),
        r is Some == o is Some,
{
    match o {
        Some(s) => Some(s.clone()),
        None => None,
    }
}

/// A copy of a list of strings.
pub fn clone_texts(v: &Vec<String>) -> (r: Vec<String>)
    ensures
        texts(r@) == texts(v@),
{
    let mut r: Vec<String> = Vec::new();
    let mut i: usize = 0;
    while i < v.len()
        invariant
            i <= v.len(),
            r.len() == i,
            forall|j: int| 0 <= j < i ==> (#[trigger] r@[j])@ == v@[j]@,
        decreases v.len() - i,
    {
        r.push(v[i].clone());
        i += 1;
    }
    proof {
        assert(texts(r@) =~= texts(v@));
    }
    r
}


/// `s` without the carriage return at its end, if it has one.
pub open spec fn strip_cr(s: Seq<char>) -> Seq<char> {
    if s.len() > 0 && s.last() == '\r' {
        s.drop_last()
    } else {
        s
    }
}

/// The lines of the text `s` that follows the unfinished line `cur`.
pub open spec fn lines_from(s: Seq<char>, cur: Seq<char>) -> Seq<Seq<char>>
    decreases s.len(),
{
    if s.len() == 0 {
        if cur.len() == 0 {
            Seq::empty()
        } else {
            seq![cur]
        }
    } else if s[0] == '\n' {
        seq![strip_cr(cur)] + lines_from(s.drop_first(), Seq::empty())
    } else {
        lines_from(s.drop_first(), cur.push(s[0]))
    }
}

/// The lines of a text. A line ends at a line feed, which is not part of it,
/// nor is a carriage return just before the line feed. What follows the last
/// line feed is a line of its own unless it is empty.
pub open spec fn lines_of(s: Seq<char>) -> Seq<Seq<char>> {
    lines_from(s, Seq::empty())
}

/// The texts that the ranges `r` cut out of `v`.
pub open spec fn ranges_of(v: Seq<char>, r: Seq<(usize, usize)>) -> Seq<Seq<char>> {
    Seq::new(r.len(), |i: int| v.subrange(r[i].0 as int, r[i].1 as int))
}

/// Where the lines of `v` start and end.
pub fn line_bounds(v: &Vec<char>) -> (r: Vec<(usize, usize)>)
    ensures
        ranges_of(v@, r@) == lines_of(v@),
        forall|i: int| 0 <= i < r@.len() ==> (#[trigger] r@[i]).0 <= r@[i].1 <= v@.len(),
{
    let mut r: Vec<(usize, usize)> = Vec::new();
    let mut start: usize = 0;
    let mut i: usize = 0;
    proof {
        assert(v@.skip(0) =~= v@);
        assert(v@.subrange(0, 0) =~= Seq::<char>::empty());
        assert(ranges_of(v@, r@) =~= Seq::<Seq<char>>::empty());
        assert(Seq::<Seq<char>>::empty() + lines_of(v@) =~= lines_of(v@));
    }
    while i < v.len()
        invariant
            start <= i <= v@.len(),
            forall|j: int| 0 <= j < r@.len() ==> (#[trigger] r@[j]).0 <= r@[j].1 <= v@.len(),
            lines_of(v@) == ranges_of(v@, r@) + lines_from(
                v@.skip(i as int),
                v@.subrange(start as int, i as int),
            ),
        decreases v@.len() - i,
    {
        let ghost rest = v@.skip(i as int);
        let ghost cur = v@.subrange(start as int, i as int);
        let ghost before = ranges_of(v@, r@);
        proof {
            assert(rest[0] == v@[i as int]);
            assert(rest.drop_first() =~= v@.skip(i as int + 1));
        }
        if v[i] == '\n' {
            let mut end: usize = i;
            if end > start && v[end - 1] == '\r' {
                end = end - 1;
            }
            r.push((start, end));
            proof {
                assert(v@.subrange(start as int, end as int) =~= strip_cr(cur));
                assert(ranges_of(v@, r@) =~= before.push(strip_cr(cur)));
                assert(v@.subrange(i as int + 1, i as int + 1) =~= Seq::<char>::empty());
                assert(before.push(strip_cr(cur)) + lines_from(rest.drop_first(), Seq::empty())
                    =~= before + (seq![strip_cr(cur)] + lines_from(
                    rest.drop_first(),
                    Seq::empty(),
                )));
            }
            start = i + 1;
        } else {
            proof {
                assert(cur.push(rest[0]) =~= v@.subrange(start as int, i as int + 1));
            }
        }
        i += 1;
    }
    proof {
        assert(v@.skip(i as int).len() == 0);
    }
    if start < v.len() {
        let ghost before = ranges_of(v@, r@);
        let ghost cur = v@.subrange(start as int, i as int);
        r.push((start, v.len()));
        proof {
            assert(ranges_of(v@, r@) =~= before.push(cur));
            assert(before.push(cur) =~= before + seq![cur]);
        }
    } else {
        proof {
            assert(lines_from(v@.skip(i as int), v@.subrange(start as int, i as int))
                =~= Seq::<Seq<char>>::empty());
            assert(ranges_of(v@, r@) + Seq::<Seq<char>>::empty() =~= ranges_of(v@, r@));
        }
    }
    r
}


/// Whether `t` is the one character `a`.
pub open spec fn is_chars1(t: Seq<char>, a: char) -> bool {
    t.len() == 1 && t[0] == a
}

/// Whether `t` is the two characters `a`, `b`.
pub open spec fn is_chars2(t: Seq<char>, a: char, b: char) -> bool {
    t.len() == 2 && t[0] == a && t[1] == b
}

/// Whether `t` is the three characters `a`, `b`, `c`.
pub open spec fn is_chars3(t: Seq<char>, a: char, b: char, c: char) -> bool {
    t.len() == 3 && t[0] == a && t[1] == b && t[2] == c
}

/// Whether `t` is the four characters `a`, `b`, `c`, `d`.
pub open spec fn is_chars4(t: Seq<char>, a: char, b: char, c: char, d: char) -> bool {
    t.len() == 4 && t[0] == a && t[1] == b && t[2] == c && t[3] == d
}

} // verus!
