//! Moderation checks: the bad-words filter and the URL whitelist.
//!
//! A message is tested word by word against the filter; the first matching
//! entry — and only it — is reported.  Independently, every URL-like token of
//! a message must have its host on the whitelist.

use vstd::prelude::*;
use crate::table::Table1;
use crate::text::{contains_str, chars_of, seq_has_str, string_from_chars};
use crate::tokens::{tokenize, trimmed_words, trimmed_words_of, words_of};

verus! {

/// The word filter: each bad word with its optional reason template.
pub type WordFilter = Table1<Option<String>>;

/// The reason of a filter entry, as a sequence of characters.
pub open spec fn why_view(w: Option<String>) -> Option<Seq<char>> {
    match w {
        Some(s) => Some(s@),
        None => None,
    }
}

/// A match of the filter against one message.
pub struct WordHit {
    /// The word that matched.
    pub word: String,
    /// The reason stored with it, if any.
    pub why: Option<String>,
}

impl WordHit {
    /// Mathematical form of the hit.
    pub open spec fn hit_view(self) -> (Seq<char>, Option<Seq<char>>) {
        (self.word@, why_view(self.why))
    }
}

/// The first word of `ws` (at or after position `i`) that the filter holds,
/// with its reason.
pub open spec fn first_hit(
    t: WordFilter,
    ws: Seq<Seq<char>>,
    i: int,
) -> Option<(Seq<char>, Option<Seq<char>>)>
    decreases ws.len() - i,
{
    if i < 0 || i >= ws.len() {
        None
    } else {
        match t.spec_get(ws[i]) {
            Some(why) => Some((ws[i], why_view(why))),
            None => first_hit(t, ws, i + 1),
        }
    }
}

/// The filter's verdict on a whole message.
pub open spec fn spec_bad_word(t: WordFilter, message: Seq<char>) -> Option<
    (Seq<char>, Option<Seq<char>>),
> {
    first_hit(t, trimmed_words_of(message), 0)
}

/// Test a message against the filter: at most one entry is returned — the
/// first trimmed word of the message that the filter holds.
pub fn test_bad_words(filter: &WordFilter, message: &str) -> (r: Option<WordHit>)
    ensures
        match r {
            Some(h) => spec_bad_word(*filter, message@) == Some(h.hit_view()),
            None => spec_bad_word(*filter, message@) is None,
        },
{
    let words = trimmed_words(message);
    let ghost ws = trimmed_words_of(message@);
    let n = words.len();
    let mut i: usize = 0;
    while i < n
        invariant
            n == words@.len(),
            words.deep_view() == ws,
            ws == trimmed_words_of(message@),
            i <= n,
            first_hit(*filter, ws, 0) == first_hit(*filter, ws, i as int),
        decreases n - i,
    {
        proof {
            assert(ws.len() == words@.len());
            assert(words.deep_view()[i as int] == words@[i as int]@);
        }
        match filter.get(words[i].as_str()) {
            Some(why) => {
                let w = match why {
                    Some(s) => Some(s.clone()),
                    None => None,
                };
                let hit = WordHit { word: words[i].clone(), why: w };
                proof {
                    assert(first_hit(*filter, ws, i as int) == Some(hit.hit_view()));
                    assert(first_hit(*filter, ws, 0) == Some(hit.hit_view()));
                    assert(spec_bad_word(*filter, message@) == Some(hit.hit_view()));
                }
                return Some(hit);
            }
            None => {
                i = i + 1;
            }
        }
    }
    None
}

/// The scheme prefix `http://`.
pub open spec fn http_prefix() -> Seq<char> {
    seq!['h', 't', 't', 'p', ':', '/', '/']
}

/// The scheme prefix `https://`.
pub open spec fn https_prefix() -> Seq<char> {
    seq!['h', 't', 't', 'p', 's', ':', '/', '/']
}

/// Where the host part of a URL-like token starts: right after its scheme.
/// Tokens with neither scheme are not URL-like.
pub open spec fn scheme_end(w: Seq<char>) -> int {
    if w.len() >= 7 && w.subrange(0, 7) == http_prefix() {
        7
    } else if w.len() >= 8 && w.subrange(0, 8) == https_prefix() {
        8
    } else {
        -1
    }
}

/// Characters that end the host part of a URL.
pub open spec fn is_host_delim(c: char) -> bool {
    c == '/' || c == ':' || c == '?' || c == '#'
}

/// The position of the first host delimiter at or after `i`, or the end.
pub open spec fn host_end(w: Seq<char>, i: int) -> int
    decreases w.len() - i,
{
    if i < 0 || i >= w.len() {
        w.len() as int
    } else if is_host_delim(w[i]) {
        i
    } else {
        host_end(w, i + 1)
    }
}

/// The host of a URL-like token: the characters after the scheme, up to the
/// first `/`, `:`, `?` or `#`.
pub open spec fn url_host(w: Seq<char>) -> Seq<char> {
    w.subrange(scheme_end(w), host_end(w, scheme_end(w)))
}

/// A token counts as a URL when it carries a scheme and a non-empty host.
pub open spec fn is_url_with_host(w: Seq<char>) -> bool {
    scheme_end(w) >= 0 && host_end(w, scheme_end(w)) > scheme_end(w)
}

/// Whether some word of the message is a URL whose host is off the
/// whitelist.
pub open spec fn spec_bad_link(message: Seq<char>, whitelist: Seq<Seq<char>>) -> bool {
    exists|i: int|
        0 <= i < words_of(message).len() && is_url_with_host(#[trigger] words_of(message)[i])
            && !seq_has_str(whitelist, url_host(words_of(message)[i]))
}

/// Where the host of this word starts, if the word is URL-like.
fn exec_scheme_end(w: &Vec<char>) -> (r: Option<usize>)
    ensures
        match r {
            Some(a) => scheme_end(w@) == a as int,
            None => scheme_end(w@) == -1,
        },
{
    if w.len() >= 7 && w[0] == 'h' && w[1] == 't' && w[2] == 't' && w[3] == 'p' && w[4] == ':'
        && w[5] == '/' && w[6] == '/' {
        proof {
            assert(w@.subrange(0, 7) =~= http_prefix());
        }
        Some(7)
    } else if w.len() >= 8 && w[0] == 'h' && w[1] == 't' && w[2] == 't' && w[3] == 'p'
        && w[4] == 's' && w[5] == ':' && w[6] == '/' && w[7] == '/' {
        proof {
            assert(w@.subrange(0, 8) =~= https_prefix());
            if w@.len() >= 7 && w@.subrange(0, 7) == http_prefix() {
                assert(w@.subrange(0, 7)[4] == 's');
                assert(http_prefix()[4] == ':');
            }
        }
        Some(8)
    } else {
        proof {
            if w@.len() >= 7 && w@.subrange(0, 7) == http_prefix() {
                assert(w@[0] == 'h' && w@[1] == 't' && w@[2] == 't' && w@[3] == 'p'
                    && w@[4] == ':' && w@[5] == '/' && w@[6] == '/');
            }
            if w@.len() >= 8 && w@.subrange(0, 8) == https_prefix() {
                assert(w@[0] == 'h' && w@[1] == 't' && w@[2] == 't' && w@[3] == 'p'
                    && w@[4] == 's' && w@[5] == ':' && w@[6] == '/' && w@[7] == '/');
            }
        }
        None
    }
}

fn exec_is_host_delim(c: char) -> (r: bool)
    ensures
        r == is_host_delim(c),
{
    c == '/' || c == ':' || c == '?' || c == '#'
}

/// The host of this word, when the word is URL-like and the host is
/// non-empty.
fn exec_url_host(w: &Vec<char>) -> (r: Option<String>)
    ensures
        match r {
            Some(h) => is_url_with_host(w@) && h@ == url_host(w@),
            None => !is_url_with_host(w@),
        },
{
    let a = match exec_scheme_end(w) {
        Some(a) => a,
        None => {
            return None;
        }
    };
    let n = w.len();
    let mut j = a;
    while j < n && !exec_is_host_delim(w[j])
        invariant
            n == w@.len(),
            a <= j <= n,
            host_end(w@, a as int) == host_end(w@, j as int),
            forall|t: int| a <= t < j ==> !is_host_delim(#[trigger] w@[t]),
        decreases n - j,
    {
        j = j + 1;
    }
    proof {
        assert(host_end(w@, j as int) == j as int);
    }
    if j == a {
        return None;
    }
    let mut host: Vec<char> = Vec::new();
    let mut t = a;
    while t < j
        invariant
            a <= t <= j <= n,
            n == w@.len(),
            host@ =~= w@.subrange(a as int, t as int),
        decreases j - t,
    {
        host.push(w[t]);
        t = t + 1;
        proof {
            assert(host@ =~= w@.subrange(a as int, t as int));
        }
    }
    Some(string_from_chars(&host))
}

/// Check the message's URL-like tokens against the whitelist: true exactly
/// when some URL's host is absent from it.
pub fn has_bad_link(whitelist: &Vec<String>, message: &str) -> (r: bool)
    ensures
        r == spec_bad_link(message@, whitelist.deep_view()),
{
    let line = tokenize(message);
    let n = line.words.len();
    let ghost ws = words_of(message@);
    let mut i: usize = 0;
    while i < n
        invariant
            n == line.words@.len(),
            line.words.deep_view() == ws,
            ws == words_of(message@),
            i <= n,
            forall|j: int|
                0 <= j < i ==> !(is_url_with_host(#[trigger] ws[j]) && !seq_has_str(
                    whitelist.deep_view(),
                    url_host(ws[j]),
                )),
        decreases n - i,
    {
        proof {
            assert(ws.len() == line.words@.len());
            assert(line.words.deep_view()[i as int] == line.words@[i as int]@);
        }
        let w = chars_of(line.words[i].as_str());
        match exec_url_host(&w) {
            Some(host) => {
                if !contains_str(whitelist, host.as_str()) {
                    proof {
                        let iw: int = i as int;
                        assert(0 <= iw < words_of(message@).len());
                        assert(is_url_with_host(words_of(message@)[iw]));
                        assert(!seq_has_str(whitelist.deep_view(), url_host(words_of(message@)[iw])));
                        assert(spec_bad_link(message@, whitelist.deep_view()));
                    }
                    return true;
                }
            }
            None => {}
        }
        i = i + 1;
    }
    false
}

} // verus!
