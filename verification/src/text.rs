//! Character-level helpers shared by the listing parsers and the scheduler.
//!
//! Everything here is stated over `Seq<char>`, the view of `str` and
//! `String`; the executable functions work on character vectors so that a
//! position is reached in constant time.

use vstd::prelude::*;
use vstd::std_specs::iter::IteratorSpec;

verus! {

/// `String::push` appends one character to the end of the string.
pub assume_specification[ String::push ](s: &mut String, ch: char)
    ensures
        final(s)@ == old(s)@.push(ch),
;

/// The characters of `s`, in order.
pub fn to_chars(s: &str) -> (v: Vec<char>)
    ensures
        v@ == s@,
{
    broadcast use vstd::string::group_string_axioms;

    let mut v: Vec<char> = Vec::new();
    for c in it: s.chars()
        invariant
            it.seq() == s@,
            v@ == it.seq().take(it.index() as int),
    {
        v.push(c);
    }
    v
}

/// The string made of the characters of `v`, in order.
pub fn from_chars(v: &[char]) -> (s: String)
    ensures
        s@ == v@,
{
    let mut s = String::new();
    let mut i: usize = 0;
    while i < v.len()
        invariant
            i <= v.len(),
            s@ == v@.take(i as int),
        decreases v.len() - i,
    {
        s.push(v[i]);
        i += 1;
    }
    assert(v@.take(v.len() as int) == v@);
    s
}

/// The views of a sequence of character vectors.
pub open spec fn texts(v: Seq<Vec<char>>) -> Seq<Seq<char>> {
    Seq::new(v.len(), |i: int| v[i]@)
}

/// The views of a sequence of strings.
pub open spec fn string_texts(v: Seq<String>) -> Seq<Seq<char>> {
    Seq::new(v.len(), |i: int| v[i]@)
}

/// The code points that Unicode gives the property `White_Space`.
pub open spec fn is_whitespace(c: char) -> bool {
    let u = c as u32;
    ||| 0x09 <= u <= 0x0D
    ||| u == 0x20
    ||| u == 0x85
    ||| u == 0xA0
    ||| u == 0x1680
    ||| 0x2000 <= u <= 0x200A
    ||| u == 0x2028
    ||| u == 0x2029
    ||| u == 0x202F
    ||| u == 0x205F
    ||| u == 0x3000
}

/// What ends one piece of a text and starts the next.
#[derive(Clone, Copy, Debug)]
pub enum Separator {
    /// Exactly this character.
    Char(char),
    /// Any whitespace character.
    Whitespace,
}

impl Separator {
    /// Whether `c` is a separator.
    pub open spec fn holds(self, c: char) -> bool {
        match self {
            Separator::Char(d) => c == d,
            Separator::Whitespace => is_whitespace(c),
        }
    }

    /// Whether `c` is a separator.
    pub fn matches(&self, c: char) -> (b: bool)
        ensures
            b == self.holds(c),
    {
        match self {
            Separator::Char(d) => c == *d,
            Separator::Whitespace => {
                let u: u32 = c as u32;
                (0x09 <= u && u <= 0x0D) || u == 0x20 || u == 0x85 || u == 0xA0 || u == 0x1680 || (
                0x2000 <= u && u <= 0x200A) || u == 0x2028 || u == 0x2029 || u == 0x202F || u
                    == 0x205F || u == 0x3000
            },
        }
    }
}

/// The pieces of `s` between separators, read from left to right: a
/// separator closes the current piece and opens an empty one, any other
/// character extends the current piece. A text with `k` separators has
/// `k + 1` pieces, some of which may be empty.
pub open spec fn split(s: Seq<char>, sep: Separator) -> Seq<Seq<char>>
    decreases s.len(),
{
    if s.len() == 0 {
        seq![Seq::<char>::empty()]
    } else {
        let before = split(s.drop_last(), sep);
        if sep.holds(s.last()) {
            before.push(Seq::<char>::empty())
        } else {
            before.drop_last().push(before.last().push(s.last()))
        }
    }
}

/// `split` never returns an empty sequence of pieces.
pub proof fn lemma_split_nonempty(s: Seq<char>, sep: Separator)
    ensures
        split(s, sep).len() >= 1,
        split(s, sep).len() <= s.len() + 1,
    decreases s.len(),
{
    if s.len() > 0 {
        lemma_split_nonempty(s.drop_last(), sep);
    }
}

/// The pieces put together again, with `c` between one piece and the next.
pub open spec fn join(pieces: Seq<Seq<char>>, c: char) -> Seq<char>
    decreases pieces.len(),
{
    if pieces.len() == 0 {
        Seq::empty()
    } else if pieces.len() == 1 {
        pieces[0]
    } else {
        join(pieces.drop_last(), c).push(c) + pieces.last()
    }
}

/// Splits `s` at every separator.
pub fn split_chars(s: &[char], sep: Separator) -> (pieces: Vec<Vec<char>>)
    ensures
        texts(pieces@) == split(s@, sep),
{
    let mut pieces: Vec<Vec<char>> = Vec::new();
    let mut current: Vec<char> = Vec::new();
    let mut i: usize = 0;
    while i < s.len()
        invariant
            i <= s.len(),
            texts(pieces@).push(current@) == split(s@.take(i as int), sep),
        decreases s.len() - i,
    {
        let c = s[i];
        proof {
            let next = s@.take(i + 1);
            assert(next.drop_last() == s@.take(i as int));
            assert(next.last() == c);
        }
        if sep.matches(c) {
            let ghost before = texts(pieces@);
            pieces.push(current);
            current = Vec::new();
            assert(texts(pieces@) == before.push(pieces@.last()@));
        } else {
            let ghost before = current@;
            current.push(c);
            assert(texts(pieces@).push(before).drop_last() == texts(pieces@));
        }
        i += 1;
    }
    assert(s@.take(s.len() as int) == s@);
    let ghost before = texts(pieces@);
    pieces.push(current);
    assert(texts(pieces@) == before.push(pieces@.last()@));
    pieces
}

/// The sum of the code points of `w`.
pub open spec fn code_sum(w: Seq<char>) -> nat
    decreases w.len(),
{
    if w.len() == 0 {
        0
    } else {
        code_sum(w.drop_last()) + (w.last() as u32) as nat
    }
}

/// Adds up the code points of `w`. The sum of as many characters as a
/// slice can hold fits in 128 bits.
pub fn code_point_sum(w: &[char]) -> (total: u128)
    ensures
        total == code_sum(w@),
{
    let mut total: u128 = 0;
    let mut i: usize = 0;
    while i < w.len()
        invariant
            i <= w.len(),
            total == code_sum(w@.take(i as int)),
            total <= i * 0x10FFFF,
        decreases w.len() - i,
    {
        proof {
            assert(w@.take(i + 1).drop_last() == w@.take(i as int));
            vstd::utf8::char_is_scalar(w@[i as int]);
        }
        total = total + (w[i] as u32) as u128;
        i += 1;
    }
    assert(w@.take(w.len() as int) == w@);
    total
}

/// Whether `a` and `b` hold the same characters.
pub fn same_chars(a: &[char], b: &[char]) -> (same: bool)
    ensures
        same == (a@ == b@),
{
    if a.len() != b.len() {
        return false;
    }
    let mut i: usize = 0;
    while i < a.len()
        invariant
            i <= a.len(),
            a.len() == b.len(),
            a@.take(i as int) == b@.take(i as int),
        decreases a.len() - i,
    {
        if a[i] != b[i] {
            return false;
        }
        assert(a@.take(i + 1) == a@.take(i as int).push(a@[i as int]));
        assert(b@.take(i + 1) == b@.take(i as int).push(b@[i as int]));
        i += 1;
    }
    assert(a@.take(a.len() as int) == a@);
    assert(b@.take(b.len() as int) == b@);
    true
}

/// Whether `pattern` stands in `s` from position `at` on.
pub open spec fn occurs_at(s: Seq<char>, pattern: Seq<char>, at: int) -> bool {
    0 <= at && at + pattern.len() <= s.len() && s.subrange(at, at + pattern.len()) == pattern
}

/// Whether `pattern` stands somewhere in `s`.
pub open spec fn contains(s: Seq<char>, pattern: Seq<char>) -> bool {
    exists|at: int| occurs_at(s, pattern, at)
}

/// The first position from `from` on at which `pattern` stands in `s`, or
/// -1 where there is none.
pub open spec fn find_from(s: Seq<char>, pattern: Seq<char>, from: int) -> int
    decreases s.len() + 1 - from,
{
    if from < 0 || from + pattern.len() > s.len() {
        -1
    } else if occurs_at(s, pattern, from) {
        from
    } else {
        find_from(s, pattern, from + 1)
    }
}

/// `find_from` names an occurrence that none precedes, and is -1 only
/// where there is none.
pub proof fn lemma_find_from(s: Seq<char>, pattern: Seq<char>, from: int)
    requires
        0 <= from,
    ensures
        find_from(s, pattern, from) == -1 || from <= find_from(s, pattern, from),
        find_from(s, pattern, from) >= 0 ==> occurs_at(s, pattern, find_from(s, pattern, from)),
        forall|k: int|
            from <= k && (k < find_from(s, pattern, from) || find_from(s, pattern, from) == -1)
                ==> !occurs_at(s, pattern, k),
    decreases s.len() + 1 - from,
{
    if from + pattern.len() <= s.len() && !occurs_at(s, pattern, from) {
        lemma_find_from(s, pattern, from + 1);
    }
}

/// A text contains a pattern exactly where a search from its start finds
/// one.
pub proof fn lemma_contains(s: Seq<char>, pattern: Seq<char>)
    ensures
        contains(s, pattern) <==> find_from(s, pattern, 0) >= 0,
{
    lemma_find_from(s, pattern, 0);
}

/// Whether `pattern` stands in `s` from position `at` on.
pub fn matches_at(s: &[char], pattern: &[char], at: usize) -> (b: bool)
    ensures
        b == occurs_at(s@, pattern@, at as int),
{
    if pattern.len() > s.len() || at > s.len() - pattern.len() {
        return false;
    }
    let ghost window = s@.subrange(at as int, at + pattern.len());
    let mut i: usize = 0;
    while i < pattern.len()
        invariant
            i <= pattern.len(),
            at + pattern.len() <= s.len(),
            window == s@.subrange(at as int, at + pattern.len()),
            window.take(i as int) == pattern@.take(i as int),
        decreases pattern.len() - i,
    {
        if s[at + i] != pattern[i] {
            assert(window[i as int] != pattern@[i as int]);
            return false;
        }
        assert(window.take(i + 1) == window.take(i as int).push(window[i as int]));
        assert(pattern@.take(i + 1) == pattern@.take(i as int).push(pattern@[i as int]));
        i += 1;
    }
    assert(window.take(pattern.len() as int) == window);
    assert(pattern@.take(pattern.len() as int) == pattern@);
    true
}

/// Searches `s` from position `from` on for `pattern`.
pub fn find(s: &[char], pattern: &[char], from: usize) -> (r: Option<usize>)
    ensures
        match r {
            Some(at) => find_from(s@, pattern@, from as int) == at,
            None => find_from(s@, pattern@, from as int) == -1,
        },
{
    if pattern.len() > s.len() {
        return None;
    }
    let last: usize = s.len() - pattern.len();
    let mut at: usize = from;
    while at <= last
        invariant
            from <= at,
            last == s.len() - pattern.len(),
            find_from(s@, pattern@, at as int) == find_from(s@, pattern@, from as int),
        decreases last + 1 - at,
    {
        if matches_at(s, pattern, at) {
            return Some(at);
        }
        if at == last {
            assert(find_from(s@, pattern@, at + 1) == -1);
            return None;
        }
        at += 1;
    }
    None
}

/// The character that writes the digit `d`.
pub open spec fn digit(d: nat) -> char {
    ((0x30 + d) as u8) as char
}

/// The decimal numeral of `n`, without leading zeros.
pub open spec fn decimal(n: nat) -> Seq<char>
    decreases n,
{
    if n < 10 {
        seq![digit(n)]
    } else {
        decimal(n / 10).push(digit(n % 10))
    }
}

/// The number that a decimal numeral writes.
pub open spec fn decimal_value(s: Seq<char>) -> nat
    decreases s.len(),
{
    if s.len() == 0 {
        0
    } else {
        (10 * decimal_value(s.drop_last()) + (s.last() as u8 - 0x30)) as nat
    }
}

/// Reading a numeral gives back the number it was written for, so two
/// numbers with one numeral are equal.
pub proof fn lemma_decimal_value(n: nat)
    ensures
        decimal_value(decimal(n)) == n,
        decimal(n).len() >= 1,
    decreases n,
{
    if n < 10 {
        assert(decimal(n).drop_last() == Seq::<char>::empty());
        assert(decimal_value(Seq::<char>::empty()) == 0);
    } else {
        lemma_decimal_value(n / 10);
        assert(decimal(n).drop_last() == decimal(n / 10));
    }
}

/// Appends the decimal numeral of `n` to `s`.
pub fn push_decimal(s: &mut String, n: usize)
    ensures
        final(s)@ == old(s)@ + decimal(n as nat),
    decreases n,
{
    if n >= 10 {
        push_decimal(s, n / 10);
    }
    let d: u8 = (n % 10) as u8;
    s.push((0x30 + d) as char);
    assert(final(s)@ == old(s)@ + decimal(n as nat));
}

} // verus!
