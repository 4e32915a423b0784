//! The words of a text: where each occurs, which of them are distinct, and
//! under which id each is known.

use crate::text::{
    lemma_split_nonempty, same_chars, split, split_chars, texts, to_chars, Separator,
};
use vstd::prelude::*;

verus! {

/// The first id given to a word; the ids below it belong to the render
/// engine's own instruments.
pub const FIRST_ID: usize = 2;

/// The word occurrences of a text: its pieces between whitespace
/// characters. Two separators in a row enclose an empty word.
pub open spec fn words_of(text: Seq<char>) -> Seq<Seq<char>> {
    split(text, Separator::Whitespace)
}

/// The position of the last occurrence of `w` in `words`, or -1 where it
/// does not occur.
pub open spec fn last_index(words: Seq<Seq<char>>, w: Seq<char>) -> int
    decreases words.len(),
{
    if words.len() == 0 {
        -1
    } else if words.last() == w {
        words.len() - 1
    } else {
        last_index(words.drop_last(), w)
    }
}

/// The positions below `n` that hold the last occurrence of their word, in
/// ascending order.
pub open spec fn last_positions(words: Seq<Seq<char>>, n: int) -> Seq<int>
    decreases n,
{
    if n <= 0 {
        Seq::empty()
    } else {
        let before = last_positions(words, n - 1);
        if last_index(words, words[n - 1]) == n - 1 {
            before.push(n - 1)
        } else {
            before
        }
    }
}

/// The distinct words of `words`, each named by the position of its last
/// occurrence, in ascending order of that position.
pub open spec fn unique_words(words: Seq<Seq<char>>) -> Seq<int> {
    last_positions(words, words.len() as int)
}

/// The id of the word `w`: two more than the position of its last
/// occurrence.
pub open spec fn word_id(words: Seq<Seq<char>>, w: Seq<char>) -> int {
    last_index(words, w) + FIRST_ID
}

/// The place of the word `w` among the distinct words: how many of them
/// have their last occurrence before that of `w`.
pub open spec fn slot(words: Seq<Seq<char>>, w: Seq<char>) -> int {
    last_positions(words, last_index(words, w)).len() as int
}

/// `last_index` names an occurrence of `w` that no other follows, and is -1
/// only where there is none.
pub proof fn lemma_last_index(words: Seq<Seq<char>>, w: Seq<char>)
    ensures
        -1 <= last_index(words, w) < words.len(),
        last_index(words, w) >= 0 ==> words[last_index(words, w)] == w,
        forall|j: int| last_index(words, w) < j < words.len() ==> words[j] != w,
    decreases words.len(),
{
    if words.len() > 0 && words.last() != w {
        lemma_last_index(words.drop_last(), w);
        assert forall|j: int| last_index(words, w) < j < words.len() implies words[j] != w by {
            if j < words.len() - 1 {
                assert(words.drop_last()[j] == words[j]);
            }
        }
    }
}

/// An occurrence of `w` that no other follows is the one `last_index`
/// names.
pub proof fn lemma_last_index_is(words: Seq<Seq<char>>, w: Seq<char>, p: int)
    requires
        0 <= p < words.len(),
        words[p] == w,
        forall|j: int| p < j < words.len() ==> words[j] != w,
    ensures
        last_index(words, w) == p,
{
    lemma_last_index(words, w);
}

/// Every occurrence of a word lies at or before its last one.
pub proof fn lemma_last_index_of_occurrence(words: Seq<Seq<char>>, i: int)
    requires
        0 <= i < words.len(),
    ensures
        i <= last_index(words, words[i]) < words.len(),
        words[last_index(words, words[i])] == words[i],
        last_index(words, words[last_index(words, words[i])]) == last_index(words, words[i]),
{
    lemma_last_index(words, words[i]);
}

/// What `last_positions` holds: exactly the last occurrences below `n`,
/// each once, in ascending order.
pub proof fn lemma_last_positions(words: Seq<Seq<char>>, n: int)
    requires
        0 <= n <= words.len(),
    ensures
        last_positions(words, n).len() <= n,
        forall|k: int|
            0 <= k < last_positions(words, n).len() ==> {
                let p = #[trigger] last_positions(words, n)[k];
                0 <= p < n && last_index(words, words[p]) == p
            },
        forall|k: int, l: int|
            0 <= k < l < last_positions(words, n).len() ==> last_positions(words, n)[k]
                < last_positions(words, n)[l],
        forall|p: int|
            0 <= p < n && last_index(words, #[trigger] words[p]) == p ==> last_positions(
                words,
                n,
            ).contains(p),
    decreases n,
{
    if n > 0 {
        let before = last_positions(words, n - 1);
        let now = last_positions(words, n);
        lemma_last_positions(words, n - 1);
        assert forall|p: int|
            0 <= p < n && last_index(words, #[trigger] words[p]) == p implies now.contains(p) by {
            if p < n - 1 {
                assert(before.contains(p));
                let k = choose|k: int| 0 <= k < before.len() && before[k] == p;
                assert(now[k] == p);
            } else {
                assert(now[now.len() - 1] == p);
            }
        }
    }
}

/// The last positions below `m` open the list of those below `n`.
pub proof fn lemma_last_positions_prefix(words: Seq<Seq<char>>, m: int, n: int)
    requires
        0 <= m <= n <= words.len(),
    ensures
        last_positions(words, m).len() <= last_positions(words, n).len(),
        last_positions(words, n).take(last_positions(words, m).len() as int) == last_positions(
            words,
            m,
        ),
    decreases n - m,
{
    if m < n {
        lemma_last_positions_prefix(words, m, n - 1);
        let a = last_positions(words, m);
        let b = last_positions(words, n - 1);
        let c = last_positions(words, n);
        assert(c.take(a.len() as int) == b.take(a.len() as int));
    } else {
        assert(last_positions(words, n).take(last_positions(words, n).len() as int)
            == last_positions(words, n));
    }
}

/// The word at position `i` stands among the distinct words at its slot,
/// under the position of its last occurrence.
pub proof fn lemma_slot(words: Seq<Seq<char>>, i: int)
    requires
        0 <= i < words.len(),
    ensures
        0 <= slot(words, words[i]) < unique_words(words).len(),
        unique_words(words)[slot(words, words[i])] == last_index(words, words[i]),
{
    let p = last_index(words, words[i]);
    lemma_last_index_of_occurrence(words, i);
    lemma_last_positions_prefix(words, p, p + 1);
    lemma_last_positions_prefix(words, p + 1, words.len() as int);
    let a = last_positions(words, p);
    let b = last_positions(words, p + 1);
    let c = unique_words(words);
    assert(b == a.push(p));
    assert(c.take(b.len() as int)[a.len() as int] == p);
}

/// The word occurrences of `text`, or `None` where it has too many
/// characters.
fn occurrences(text: &str) -> (r: Option<Vec<Vec<char>>>)
    ensures
        match r {
            Some(words) => text@.len() + FIRST_ID <= usize::MAX && texts(words@) == words_of(
                text@,
            ),
            None => text@.len() + FIRST_ID > usize::MAX,
        },
{
    let chars = to_chars(text);
    if chars.len() > usize::MAX - FIRST_ID {
        None
    } else {
        Some(split_chars(chars.as_slice(), Separator::Whitespace))
    }
}

/// For each position, the position of the last occurrence of its word.
fn last_occurrences(words: &Vec<Vec<char>>) -> (last: Vec<usize>)
    ensures
        last.len() == words.len(),
        forall|i: int|
            0 <= i < words.len() ==> #[trigger] last[i] == last_index(
                texts(words@),
                texts(words@)[i],
            ),
{
    let n = words.len();
    let ghost w = texts(words@);
    let mut last: Vec<usize> = Vec::new();
    let mut i: usize = 0;
    while i < n
        invariant
            i <= n,
            n == words.len(),
            w == texts(words@),
            last.len() == i,
            forall|k: int| 0 <= k < i ==> #[trigger] last[k] == last_index(w, w[k]),
        decreases n - i,
    {
        let mut j: usize = n - 1;
        while !same_chars(words[j].as_slice(), words[i].as_slice())
            invariant
                i <= j < n,
                n == words.len(),
                w == texts(words@),
                forall|k: int| j < k < n ==> w[k] != w[i as int],
            decreases j,
        {
            j -= 1;
        }
        proof {
            lemma_last_index_is(w, w[i as int], j as int);
        }
        last.push(j);
        i += 1;
    }
    last
}

/// The positions of the distinct words and, for each position, the number
/// of distinct words whose last occurrence lies before it.
fn distinct_words(words: &Vec<Vec<char>>, last: &Vec<usize>) -> (r: (Vec<usize>, Vec<usize>))
    requires
        last.len() == words.len(),
        forall|i: int|
            0 <= i < words.len() ==> #[trigger] last[i] == last_index(
                texts(words@),
                texts(words@)[i],
            ),
    ensures
        r.0.len() == unique_words(texts(words@)).len(),
        forall|k: int| 0 <= k < r.0.len() ==> #[trigger] r.0[k] == unique_words(texts(words@))[k],
        r.1.len() == words.len(),
        forall|p: int|
            0 <= p < words.len() ==> #[trigger] r.1[p] == last_positions(texts(words@), p).len(),
{
    let n = words.len();
    let ghost w = texts(words@);
    let mut positions: Vec<usize> = Vec::new();
    let mut before: Vec<usize> = Vec::new();
    let mut p: usize = 0;
    while p < n
        invariant
            p <= n,
            n == words.len(),
            n == last.len(),
            w == texts(words@),
            forall|i: int| 0 <= i < n ==> #[trigger] last[i] == last_index(w, w[i]),
            positions.len() == last_positions(w, p as int).len(),
            positions.len() <= p,
            forall|k: int|
                0 <= k < positions.len() ==> #[trigger] positions[k] == last_positions(
                    w,
                    p as int,
                )[k],
            before.len() == p,
            forall|q: int| 0 <= q < p ==> #[trigger] before[q] == last_positions(w, q).len(),
        decreases n - p,
    {
        before.push(positions.len());
        if last[p] == p {
            positions.push(p);
        }
        p += 1;
    }
    (positions, before)
}

/// The word occurrences of a text together with the position at which
/// each word occurs last. It is made once for a text and never changes.
pub struct WordMap {
    words: Vec<Vec<char>>,
    last: Vec<usize>,
    positions: Vec<usize>,
    before: Vec<usize>,
}

impl View for WordMap {
    type V = Seq<Seq<char>>;

    closed spec fn view(&self) -> Seq<Seq<char>> {
        texts(self.words@)
    }
}

impl WordMap {
    #[verifier::type_invariant]
    spec fn wf(&self) -> bool {
        let w = texts(self.words@);
        &&& w.len() + 1 <= usize::MAX
        &&& self.last.len() == w.len()
        &&& forall|i: int| 0 <= i < w.len() ==> #[trigger] self.last[i] == last_index(w, w[i])
        &&& self.positions.len() == unique_words(w).len()
        &&& forall|k: int|
            0 <= k < self.positions.len() ==> #[trigger] self.positions[k] == unique_words(w)[k]
        &&& self.before.len() == w.len()
        &&& forall|p: int|
            0 <= p < w.len() ==> #[trigger] self.before[p] == last_positions(w, p).len()
    }

    /// The words of `text`, or `None` where it has so many characters that
    /// an id might not fit in `usize`.
    pub fn new(text: &str) -> (r: Option<WordMap>)
        ensures
            match r {
                Some(map) => text@.len() + FIRST_ID <= usize::MAX && map@ == words_of(text@),
                None => text@.len() + FIRST_ID > usize::MAX,
            },
    {
        let words = match occurrences(text) {
            Some(words) => words,
            None => { return None; },
        };
        proof {
            lemma_split_nonempty(text@, Separator::Whitespace);
        }
        let last = last_occurrences(&words);
        let (positions, before) = distinct_words(&words, &last);
        Some(WordMap { words, last, positions, before })
    }

    /// The number of word occurrences.
    pub fn len(&self) -> (n: usize)
        ensures
            n == self@.len(),
            n + 1 <= usize::MAX,
    {
        proof {
            use_type_invariant(self);
        }
        self.words.len()
    }

    /// The number of distinct words.
    pub fn distinct(&self) -> (n: usize)
        ensures
            n == unique_words(self@).len(),
            n <= self@.len(),
    {
        proof {
            use_type_invariant(self);
            lemma_last_positions(self@, self@.len() as int);
        }
        self.positions.len()
    }

    /// The position at which `word` occurs last, or `None` where the text
    /// does not hold it.
    pub fn last_occurrence(&self, word: &str) -> (r: Option<usize>)
        ensures
            match r {
                Some(p) => p == last_index(self@, word@),
                None => last_index(self@, word@) == -1,
            },
    {
        proof {
            use_type_invariant(self);
            lemma_last_index(self@, word@);
        }
        let chars = to_chars(word);
        let mut j: usize = self.words.len();
        while j > 0
            invariant
                j <= self.words.len(),
                chars@ == word@,
                forall|k: int| j <= k < self.words.len() ==> self@[k] != word@,
            decreases j,
        {
            j -= 1;
            if same_chars(self.words[j].as_slice(), chars.as_slice()) {
                proof {
                    lemma_last_index_is(self@, word@, j as int);
                }
                return Some(j);
            }
        }
        None
    }

    /// The id under which `word` is known, or `None` where the text does
    /// not hold it.
    pub fn id_of(&self, word: &str) -> (r: Option<usize>)
        ensures
            match r {
                Some(id) => last_index(self@, word@) >= 0 && id == word_id(self@, word@),
                None => last_index(self@, word@) == -1,
            },
    {
        proof {
            use_type_invariant(self);
            lemma_last_index(self@, word@);
        }
        match self.last_occurrence(word) {
            Some(p) => Some(p + FIRST_ID),
            None => None,
        }
    }

    /// The word at position `i`.
    pub(crate) fn word(&self, i: usize) -> (w: &[char])
        requires
            i < self@.len(),
        ensures
            w@ == self@[i as int],
    {
        self.words[i].as_slice()
    }

    /// The id of the word at position `i`.
    pub(crate) fn id_at(&self, i: usize) -> (id: usize)
        requires
            i < self@.len(),
        ensures
            id == word_id(self@, self@[i as int]),
    {
        proof {
            use_type_invariant(self);
            lemma_last_index_of_occurrence(self@, i as int);
        }
        self.last[i] + FIRST_ID
    }

    /// The place among the distinct words of the word at position `i`.
    pub(crate) fn slot_at(&self, i: usize) -> (k: usize)
        requires
            i < self@.len(),
        ensures
            k == slot(self@, self@[i as int]),
            k < unique_words(self@).len(),
    {
        proof {
            use_type_invariant(self);
            lemma_last_index_of_occurrence(self@, i as int);
            lemma_slot(self@, i as int);
        }
        self.before[self.last[i]]
    }

    /// The position at which the `k`-th distinct word occurs last.
    pub(crate) fn position(&self, k: usize) -> (p: usize)
        requires
            k < unique_words(self@).len(),
        ensures
            p == unique_words(self@)[k as int],
            p < self@.len(),
            p + FIRST_ID <= usize::MAX,
    {
        proof {
            use_type_invariant(self);
            lemma_last_positions(self@, self@.len() as int);
        }
        self.positions[k]
    }
}

} // verus!
