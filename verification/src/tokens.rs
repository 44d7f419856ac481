//! Tokenization of chat lines.
//!
//! A command line is split on whitespace into words; after any number of
//! consumed words the verbatim remainder of the line (with leading spaces
//! trimmed) is also available, for free-text tail arguments.  A second
//! tokenizer splits a message into trimmed words — maximal runs of letters
//! and digits — for the moderation filter.

use vstd::prelude::*;
use crate::text::{is_space_char, is_word_char, chars_of, exec_is_word_char, string_from_chars};

verus! {

/// The words of `s` from position `i` on: maximal runs of non-space
/// characters, in order.
pub open spec fn words_from(s: Seq<char>, i: int) -> Seq<Seq<char>>
    decreases s.len() - i,
{
    if i < 0 || i >= s.len() {
        seq![]
    } else if is_space_char(s[i]) {
        words_from(s, i + 1)
    } else {
        let rest = words_from(s, i + 1);
        if i + 1 < s.len() && !is_space_char(s[i + 1]) {
            seq![seq![s[i]] + rest[0]] + rest.drop_first()
        } else {
            seq![seq![s[i]]] + rest
        }
    }
}

/// The words of the whole line.
pub open spec fn words_of(s: Seq<char>) -> Seq<Seq<char>> {
    words_from(s, 0)
}

/// The verbatim remainder of `s` from position `i` after skipping `k` more
/// words, with leading spaces trimmed.
pub open spec fn rest_from(s: Seq<char>, i: int, k: int) -> Seq<char>
    decreases k, s.len() - i,
{
    if i < 0 || i >= s.len() || k < 0 {
        seq![]
    } else if is_space_char(s[i]) {
        rest_from(s, i + 1, k)
    } else if k == 0 {
        s.subrange(i, s.len() as int)
    } else {
        rest_after_word(s, i + 1, k - 1)
    }
}

/// Helper of `rest_from`: skip the remaining characters of the current word,
/// then skip `k` more words.
pub open spec fn rest_after_word(s: Seq<char>, i: int, k: int) -> Seq<char>
    decreases k, s.len() - i,
{
    if i < 0 || i >= s.len() || k < 0 {
        seq![]
    } else if !is_space_char(s[i]) {
        rest_after_word(s, i + 1, k)
    } else {
        rest_from(s, i + 1, k)
    }
}

/// The remainder of the line after its first `k` words.
pub open spec fn rest_of(s: Seq<char>, k: int) -> Seq<char> {
    rest_from(s, 0, k)
}

/// Walking over the tail of a word reaches the position right after it.
proof fn lemma_after_word(s: Seq<char>, i: int, j: int, k: int)
    requires
        0 <= i <= j <= s.len(),
        forall|t: int| i <= t < j ==> !is_space_char(#[trigger] s[t]),
        j == s.len() || is_space_char(s[j]),
        k >= 0,
    ensures
        rest_after_word(s, i, k) == rest_from(s, j, k),
    decreases j - i,
{
    if i < j {
        lemma_after_word(s, i + 1, j, k);
    } else {
        if j < s.len() {
            assert(rest_after_word(s, j, k) == rest_from(s, j + 1, k));
            assert(rest_from(s, j, k) == rest_from(s, j + 1, k));
        }
    }
}

/// A maximal non-space run `[i, j)` is the next word: the word list from `i`
/// starts with it, and the rests from `i` step over it.
proof fn lemma_word_run(s: Seq<char>, i: int, j: int)
    requires
        0 <= i < j <= s.len(),
        forall|t: int| i <= t < j ==> !is_space_char(#[trigger] s[t]),
        j == s.len() || is_space_char(s[j]),
    ensures
        words_from(s, i) == seq![s.subrange(i, j)] + words_from(s, j),
        rest_from(s, i, 0) == s.subrange(i, s.len() as int),
        forall|k: int| k >= 1 ==> rest_from(s, i, k) == rest_from(s, j, #[trigger] (k - 1)),
    decreases j - i,
{
    assert forall|k: int| k >= 1 implies rest_from(s, i, k) == rest_from(s, j, #[trigger] (k - 1)) by {
        lemma_after_word(s, i + 1, j, k - 1);
    }
    if i + 1 == j {
        assert(words_from(s, i) =~= seq![s.subrange(i, j)] + words_from(s, j)) by {
            assert(s.subrange(i, j) =~= seq![s[i]]);
            if j < s.len() {
                assert(is_space_char(s[j]));
            }
        }
    } else {
        lemma_word_run(s, i + 1, j);
        let rest = words_from(s, i + 1);
        assert(rest[0] == s.subrange(i + 1, j));
        assert(seq![s[i]] + s.subrange(i + 1, j) =~= s.subrange(i, j));
        assert(rest.drop_first() =~= words_from(s, j));
        assert(words_from(s, i) =~= seq![s.subrange(i, j)] + words_from(s, j));
    }
}

/// A tokenized command line: its words, and after each number of consumed
/// words the verbatim remainder of the line.
pub struct Line {
    pub words: Vec<String>,
    pub rests: Vec<String>,
}

impl Line {
    /// The sequence of words.
    pub open spec fn words_view(self) -> Seq<Seq<char>> {
        self.words.deep_view()
    }

    /// The remainder after `k` consumed words.
    pub open spec fn rest_view(self, k: int) -> Seq<char> {
        if 0 <= k < self.rests.deep_view().len() {
            self.rests.deep_view()[k]
        } else {
            seq![]
        }
    }

    /// There is one remainder per consumed-word count, and the final one is
    /// empty.
    pub open spec fn wf(self) -> bool {
        &&& self.rests@.len() == self.words@.len() + 1
        &&& self.rest_view(self.words@.len() as int) == Seq::<char>::empty()
    }

    /// The number of words.
    pub fn len(&self) -> (r: usize)
        ensures
            r == self.words_view().len(),
    {
        self.words.len()
    }

    /// The `k`-th word, if there is one.
    pub fn word(&self, k: usize) -> (r: Option<&String>)
        ensures
            match r {
                Some(w) => k < self.words_view().len() && w@ == self.words_view()[k as int],
                None => k >= self.words_view().len(),
            },
    {
        if k < self.words.len() {
            Some(&self.words[k])
        } else {
            None
        }
    }

    /// The verbatim remainder after `k` consumed words.
    pub fn rest(&self, k: usize) -> (r: &String)
        requires
            self.wf(),
            k <= self.words_view().len(),
        ensures
            r@ == self.rest_view(k as int),
    {
        &self.rests[k]
    }
}

/// Split a line into its words and remainders.
pub fn tokenize(text: &str) -> (r: Line)
    ensures
        r.wf(),
        r.words_view() == words_of(text@),
        forall|k: int| #![auto] 0 <= k <= r.words_view().len() ==> r.rest_view(k) == rest_of(text@, k),
{
    let s = chars_of(text);
    let n = s.len();
    let mut words: Vec<String> = Vec::new();
    let mut rests: Vec<String> = Vec::new();
    let mut i: usize = 0;
    while i < n
        invariant
            n == s@.len(),
            s@ == text@,
            i <= n,
            words.deep_view() + words_from(s@, i as int) =~= words_of(text@),
            rests.deep_view().len() == words.deep_view().len(),
            forall|k: int| #![auto]
                0 <= k < rests.deep_view().len() ==> rests.deep_view()[k] == rest_of(text@, k),
            forall|k: int| #![auto]
                k >= words.deep_view().len() ==> rest_from(s@, i as int, k - words.deep_view().len())
                    == rest_of(text@, k),
        decreases n - i,
    {
        if !exec_is_word_start(&s, i) {
            i = i + 1;
        } else {
            // start of a word: find its end
            let start = i;
            let mut j = i;
            let mut w: Vec<char> = Vec::new();
            while j < n && !exec_space_at(&s, j)
                invariant
                    n == s@.len(),
                    start <= j <= n,
                    w@ =~= s@.subrange(start as int, j as int),
                    forall|t: int| start <= t < j ==> !is_space_char(#[trigger] s@[t]),
                decreases n - j,
            {
                w.push(s[j]);
                j = j + 1;
                proof {
                    assert(w@ =~= s@.subrange(start as int, j as int));
                }
            }
            proof {
                lemma_word_run(s@, start as int, j as int);
            }
            // the rest after the words so far starts verbatim at this word
            let mut tail: Vec<char> = Vec::new();
            let mut t = start;
            while t < n
                invariant
                    n == s@.len(),
                    start <= t <= n,
                    tail@ =~= s@.subrange(start as int, t as int),
                decreases n - t,
            {
                tail.push(s[t]);
                t = t + 1;
                proof {
                    assert(tail@ =~= s@.subrange(start as int, t as int));
                }
            }
            proof {
                assert(tail@ =~= s@.subrange(start as int, n as int));
            }
            let ghost m = words.deep_view().len() as int;
            rests.push(string_from_chars(&tail));
            words.push(string_from_chars(&w));
            i = j;
            proof {
                assert(words.deep_view() =~= words.deep_view().subrange(0, m) + seq![s@.subrange(start as int, j as int)]);
                assert(words.deep_view() + words_from(s@, i as int) =~= words_of(text@));
                assert(rests.deep_view()[m] == rest_of(text@, m));
                assert forall|k: int| #![auto] k >= words.deep_view().len() implies rest_from(
                    s@,
                    i as int,
                    k - words.deep_view().len(),
                ) == rest_of(text@, k) by {
                    assert(rest_from(s@, start as int, k - m) == rest_from(s@, j as int, k - m - 1));
                }
            }
        }
    }
    rests.push(String::new());
    proof {
        assert(words_from(s@, i as int) =~= Seq::<Seq<char>>::empty());
        assert(words.deep_view() =~= words_of(text@));
        assert forall|k: int| #![auto] k >= words.deep_view().len() implies rest_of(text@, k)
            == Seq::<char>::empty() by {
            assert(rest_from(s@, i as int, k - words.deep_view().len()) == Seq::<char>::empty());
        }
    }
    let r = Line { words, rests };
    proof {
        assert(r.rests.deep_view().len() == r.words.deep_view().len() + 1);
        assert(r.rest_view(r.words@.len() as int) =~= Seq::<char>::empty());
    }
    r
}

fn exec_is_word_start(s: &Vec<char>, i: usize) -> (r: bool)
    requires
        i < s@.len(),
    ensures
        r == !is_space_char(s@[i as int]),
{
    let c = s[i];
    !(c == ' ' || c == '\t' || c == '\r' || c == '\n')
}

fn exec_space_at(s: &Vec<char>, i: usize) -> (r: bool)
    requires
        i < s@.len(),
    ensures
        r == is_space_char(s@[i as int]),
{
    let c = s[i];
    c == ' ' || c == '\t' || c == '\r' || c == '\n'
}

/// The trimmed words of `s` from position `i` on: maximal runs of letters
/// and digits, in order.
pub open spec fn trimmed_words_from(s: Seq<char>, i: int) -> Seq<Seq<char>>
    decreases s.len() - i,
{
    if i < 0 || i >= s.len() {
        seq![]
    } else if !is_word_char(s[i]) {
        trimmed_words_from(s, i + 1)
    } else {
        let rest = trimmed_words_from(s, i + 1);
        if i + 1 < s.len() && is_word_char(s[i + 1]) {
            seq![seq![s[i]] + rest[0]] + rest.drop_first()
        } else {
            seq![seq![s[i]]] + rest
        }
    }
}

/// The trimmed words of a whole message.
pub open spec fn trimmed_words_of(s: Seq<char>) -> Seq<Seq<char>> {
    trimmed_words_from(s, 0)
}

/// A maximal letter-and-digit run `[i, j)` is the next trimmed word.
proof fn lemma_trimmed_run(s: Seq<char>, i: int, j: int)
    requires
        0 <= i < j <= s.len(),
        forall|t: int| i <= t < j ==> is_word_char(#[trigger] s[t]),
        j == s.len() || !is_word_char(s[j]),
    ensures
        trimmed_words_from(s, i) == seq![s.subrange(i, j)] + trimmed_words_from(s, j),
    decreases j - i,
{
    if i + 1 == j {
        assert(trimmed_words_from(s, i) =~= seq![s.subrange(i, j)] + trimmed_words_from(s, j)) by {
            assert(s.subrange(i, j) =~= seq![s[i]]);
        }
    } else {
        lemma_trimmed_run(s, i + 1, j);
        let rest = trimmed_words_from(s, i + 1);
        assert(rest[0] == s.subrange(i + 1, j));
        assert(seq![s[i]] + s.subrange(i + 1, j) =~= s.subrange(i, j));
        assert(rest.drop_first() =~= trimmed_words_from(s, j));
        assert(trimmed_words_from(s, i) =~= seq![s.subrange(i, j)] + trimmed_words_from(s, j));
    }
}

/// Split a message into its trimmed words.
pub fn trimmed_words(text: &str) -> (r: Vec<String>)
    ensures
        r.deep_view() == trimmed_words_of(text@),
{
    let s = chars_of(text);
    let n = s.len();
    let mut words: Vec<String> = Vec::new();
    let mut i: usize = 0;
    while i < n
        invariant
            n == s@.len(),
            s@ == text@,
            i <= n,
            words.deep_view() + trimmed_words_from(s@, i as int) =~= trimmed_words_of(text@),
        decreases n - i,
    {
        if !exec_is_word_char(s[i]) {
            i = i + 1;
        } else {
            let start = i;
            let mut j = i;
            let mut w: Vec<char> = Vec::new();
            while j < n && exec_is_word_char(s[j])
                invariant
                    n == s@.len(),
                    start <= j <= n,
                    w@ =~= s@.subrange(start as int, j as int),
                    forall|t: int| start <= t < j ==> is_word_char(#[trigger] s@[t]),
                decreases n - j,
            {
                w.push(s[j]);
                j = j + 1;
                proof {
                    assert(w@ =~= s@.subrange(start as int, j as int));
                }
            }
            proof {
                lemma_trimmed_run(s@, start as int, j as int);
            }
            let ghost m = words.deep_view().len() as int;
            words.push(string_from_chars(&w));
            i = j;
            proof {
                assert(words.deep_view() =~= words.deep_view().subrange(0, m) + seq![s@.subrange(start as int, j as int)]);
                assert(words.deep_view() + trimmed_words_from(s@, i as int) =~= trimmed_words_of(text@));
            }
        }
    }
    proof {
        assert(trimmed_words_from(s@, i as int) =~= Seq::<Seq<char>>::empty());
        assert(words.deep_view() =~= trimmed_words_of(text@));
    }
    words
}

} // verus!
