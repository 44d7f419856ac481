//! Plain-text helpers: character classes, decimal formatting and parsing,
//! and conversions between `&str`, `String` and `Vec<char>`.
//!
//! All engine logic works over sequences of characters; these are the only
//! places where strings are taken apart or put back together.

use vstd::prelude::*;

verus! {

/// Characters that separate words of a chat line.
pub open spec fn is_space_char(c: char) -> bool {
    c == ' ' || c == '\t' || c == '\r' || c == '\n'
}

/// Word characters for the moderation tokenizer: letters and digits.
pub open spec fn is_word_char(c: char) -> bool {
    ||| 'a' <= c && c <= 'z'
    ||| 'A' <= c && c <= 'Z'
    ||| '0' <= c && c <= '9'
}

/// Decimal digits.
pub open spec fn is_digit_char(c: char) -> bool {
    '0' <= c && c <= '9'
}

/// Numeric value of a decimal digit.
pub open spec fn digit_value(c: char) -> nat {
    ((c as int) - ('0' as int)) as nat
}

/// The character for a single decimal digit.
pub open spec fn digit_char(d: nat) -> char {
    if d == 0 {
        '0'
    } else if d == 1 {
        '1'
    } else if d == 2 {
        '2'
    } else if d == 3 {
        '3'
    } else if d == 4 {
        '4'
    } else if d == 5 {
        '5'
    } else if d == 6 {
        '6'
    } else if d == 7 {
        '7'
    } else if d == 8 {
        '8'
    } else {
        '9'
    }
}

/// Decimal rendering of a natural number, most significant digit first.
pub open spec fn dec_of(n: nat) -> Seq<char>
    decreases n,
{
    if n < 10 {
        seq![digit_char(n)]
    } else {
        dec_of(n / 10) + seq![digit_char(n % 10)]
    }
}

/// Value of a sequence of decimal digits, most significant digit first.
pub open spec fn dec_value(s: Seq<char>) -> nat
    decreases s.len(),
{
    if s.len() == 0 {
        0
    } else {
        dec_value(s.drop_last()) * 10 + digit_value(s.last())
    }
}

/// Whether every character of `s` is a decimal digit.
pub open spec fn all_digits(s: Seq<char>) -> bool {
    forall|i: int| 0 <= i < s.len() ==> is_digit_char(#[trigger] s[i])
}

pub fn exec_is_word_char(c: char) -> (r: bool)
    ensures
        r == is_word_char(c),
{
    ('a' <= c && c <= 'z') || ('A' <= c && c <= 'Z') || ('0' <= c && c <= '9')
}

fn exec_digit_char(d: u64) -> (c: char)
    requires
        d < 10,
    ensures
        c == digit_char(d as nat),
{
    if d == 0 {
        '0'
    } else if d == 1 {
        '1'
    } else if d == 2 {
        '2'
    } else if d == 3 {
        '3'
    } else if d == 4 {
        '4'
    } else if d == 5 {
        '5'
    } else if d == 6 {
        '6'
    } else if d == 7 {
        '7'
    } else if d == 8 {
        '8'
    } else {
        '9'
    }
}

/// Relies on std's `FromIterator` impl for `String`: collecting an iterator
/// of characters yields the string of exactly those characters, in order.
#[verifier::external_body]
pub(crate) fn string_from_chars(v: &Vec<char>) -> (r: String)
    ensures
        r@ == v@,
{
    v.iter().collect()
}

/// The characters of a string slice, as a vector.
pub fn chars_of(s: &str) -> (r: Vec<char>)
    ensures
        r@ == s@,
{
    let n = s.unicode_len();
    let mut r: Vec<char> = Vec::new();
    let mut i: usize = 0;
    while i < n
        invariant
            n == s@.len(),
            i <= n,
            r@ == s@.take(i as int),
        decreases n - i,
    {
        r.push(s.get_char(i));
        i = i + 1;
        proof {
            assert(r@ =~= s@.take(i as int));
        }
    }
    proof {
        assert(r@ =~= s@);
    }
    r
}

/// Whether two string slices hold the same characters.
pub fn str_eq(a: &str, b: &str) -> (r: bool)
    ensures
        r == (a@ == b@),
{
    let na = a.unicode_len();
    let nb = b.unicode_len();
    if na != nb {
        proof {
            assert(a@ != b@);
        }
        return false;
    }
    let mut i: usize = 0;
    while i < na
        invariant
            na == a@.len(),
            na == b@.len(),
            i <= na,
            forall|j: int| 0 <= j < i ==> a@[j] == b@[j],
        decreases na - i,
    {
        if a.get_char(i) != b.get_char(i) {
            proof {
                assert(a@[i as int] != b@[i as int]);
            }
            return false;
        }
        i = i + 1;
    }
    proof {
        assert(a@ =~= b@);
    }
    true
}

/// Whether one of the strings of `xs` is `x`.
pub open spec fn seq_has_str(xs: Seq<Seq<char>>, x: Seq<char>) -> bool {
    exists|i: int| 0 <= i < xs.len() && xs[i] == x
}

/// Whether the vector holds a string equal to `x`.
pub fn contains_str(v: &Vec<String>, x: &str) -> (r: bool)
    ensures
        r == seq_has_str(v.deep_view(), x@),
{
    let n = v.len();
    let mut i: usize = 0;
    while i < n
        invariant
            n == v@.len(),
            i <= n,
            forall|j: int| 0 <= j < i ==> v.deep_view()[j] != x@,
        decreases n - i,
    {
        if str_eq(v[i].as_str(), x) {
            proof {
                assert(v.deep_view()[i as int] == x@);
            }
            return true;
        }
        i = i + 1;
    }
    false
}

/// Decimal rendering of `n`, e.g. `407` becomes `"407"`.
pub fn display_u64(n: u64) -> (r: String)
    ensures
        r@ == dec_of(n as nat),
{
    let mut digits: Vec<char> = Vec::new();
    if n < 10 {
        digits.push(exec_digit_char(n));
        proof {
            assert(digits@ =~= dec_of(n as nat));
        }
    } else {
        let mut m: u64 = n;
        while m >= 10
            invariant
                dec_of(n as nat) == dec_of(m as nat) + digits@,
            decreases m,
        {
            let d = exec_digit_char(m % 10);
            let ghost prev = digits@;
            digits.insert(0, d);
            proof {
                assert(digits@ =~= seq![digit_char((m % 10) as nat)] + prev);
                assert(dec_of(m as nat) == dec_of((m / 10) as nat) + seq![digit_char((m % 10) as nat)]);
                assert(dec_of(n as nat) =~= dec_of((m / 10) as nat) + digits@);
            }
            m = m / 10;
        }
        let d = exec_digit_char(m);
        let ghost prev = digits@;
        digits.insert(0, d);
        proof {
            assert(digits@ =~= seq![digit_char(m as nat)] + prev);
            assert(dec_of(m as nat) == seq![digit_char(m as nat)]);
            assert(dec_of(n as nat) =~= digits@);
        }
    }
    string_from_chars(&digits)
}

/// The value of a digit string never shrinks as more digits follow.
proof fn lemma_dec_value_prefix_le(s: Seq<char>, j: int)
    requires
        0 <= j <= s.len(),
    ensures
        dec_value(s.take(j)) <= dec_value(s),
    decreases s.len() - j,
{
    if j < s.len() {
        lemma_dec_value_prefix_le(s, j + 1);
        assert(s.take(j + 1).drop_last() =~= s.take(j));
        assert(dec_value(s.take(j + 1)) == dec_value(s.take(j)) * 10 + digit_value(
            s.take(j + 1).last(),
        ));
    } else {
        assert(s.take(j) =~= s);
    }
}

fn exec_digit_value(c: char) -> (r: Option<u64>)
    ensures
        match r {
            Some(d) => is_digit_char(c) && d == digit_value(c) && d < 10,
            None => !is_digit_char(c),
        },
{
    if '0' <= c && c <= '9' {
        Some((c as u32 - '0' as u32) as u64)
    } else {
        None
    }
}

/// Parse the characters of `w` from position `start` on as a decimal number.
/// Succeeds exactly when there is at least one character, all characters are
/// digits, and the value fits in a `u32`.
pub fn parse_u32_at(w: &Vec<char>, start: usize) -> (r: Option<u32>)
    requires
        start <= w@.len(),
    ensures
        match r {
            Some(v) => {
                &&& w@.len() > start
                &&& all_digits(w@.skip(start as int))
                &&& dec_value(w@.skip(start as int)) == v
            },
            None => !(w@.len() > start && all_digits(w@.skip(start as int)) && dec_value(
                w@.skip(start as int),
            ) <= u32::MAX),
        },
{
    let n = w.len();
    if start >= n {
        return None;
    }
    let ghost s = w@.skip(start as int);
    let mut acc: u64 = 0;
    let mut t: usize = start;
    while t < n
        invariant
            n == w@.len(),
            start <= t <= n,
            s == w@.skip(start as int),
            s.len() == n - start,
            forall|u: int| start <= u < t ==> is_digit_char(#[trigger] w@[u]),
            forall|u: int| 0 <= u < t - start ==> is_digit_char(#[trigger] s[u]),
            acc == dec_value(s.take(t - start)),
            acc <= u32::MAX,
        decreases n - t,
    {
        let d = match exec_digit_value(w[t]) {
            Some(d) => d,
            None => {
                proof {
                    assert(s[t - start] == w@[t as int]);
                    assert(!all_digits(s));
                }
                return None;
            }
        };
        proof {
            assert(s.take(t + 1 - start).drop_last() =~= s.take(t - start));
            assert(s.take(t + 1 - start).last() == w@[t as int]);
        }
        acc = acc * 10 + d;
        t = t + 1;
        if acc > u32::MAX as u64 {
            proof {
                lemma_dec_value_prefix_le(s, t - start);
            }
            return None;
        }
    }
    proof {
        assert(s.take(t - start) =~= s);
    }
    Some(acc as u32)
}

/// Lexicographic order on character sequences, by code point: the order
/// `String` values sort in.
pub open spec fn str_le(a: Seq<char>, b: Seq<char>) -> bool
    decreases a.len(),
{
    if a.len() == 0 {
        true
    } else if b.len() == 0 {
        false
    } else if a[0] == b[0] {
        str_le(a.drop_first(), b.drop_first())
    } else {
        a[0] < b[0]
    }
}

/// Any two strings are ordered one way or the other.
pub proof fn lemma_str_le_total(a: Seq<char>, b: Seq<char>)
    ensures
        str_le(a, b) || str_le(b, a),
    decreases a.len(),
{
    if a.len() > 0 && b.len() > 0 && a[0] == b[0] {
        lemma_str_le_total(a.drop_first(), b.drop_first());
    }
}

/// The order is transitive.
pub proof fn lemma_str_le_trans(a: Seq<char>, b: Seq<char>, c: Seq<char>)
    requires
        str_le(a, b),
        str_le(b, c),
    ensures
        str_le(a, c),
    decreases a.len(),
{
    if a.len() > 0 && b.len() > 0 && c.len() > 0 && a[0] == b[0] && b[0] == c[0] {
        lemma_str_le_trans(a.drop_first(), b.drop_first(), c.drop_first());
    }
}

/// Compare two string slices lexicographically.
pub fn string_le(a: &str, b: &str) -> (r: bool)
    ensures
        r == str_le(a@, b@),
{
    let na = a.unicode_len();
    let nb = b.unicode_len();
    let mut i: usize = 0;
    proof {
        assert(a@.skip(0) =~= a@);
        assert(b@.skip(0) =~= b@);
    }
    while i < na && i < nb
        invariant
            na == a@.len(),
            nb == b@.len(),
            i <= na,
            i <= nb,
            str_le(a@, b@) == str_le(a@.skip(i as int), b@.skip(i as int)),
            str_le(b@, a@) == str_le(b@.skip(i as int), a@.skip(i as int)),
        decreases na - i,
    {
        let ca = a.get_char(i);
        let cb = b.get_char(i);
        if ca != cb {
            proof {
                assert(a@.skip(i as int)[0] == a@[i as int]);
                assert(b@.skip(i as int)[0] == b@[i as int]);
            }
            return ca < cb;
        }
        i = i + 1;
        proof {
            assert(a@.skip(i - 1).drop_first() =~= a@.skip(i as int));
            assert(b@.skip(i - 1).drop_first() =~= b@.skip(i as int));
            assert(a@.skip(i - 1)[0] == a@[i - 1]);
            assert(b@.skip(i - 1)[0] == b@[i - 1]);
        }
    }
    proof {
        if i >= na {
            assert(a@.skip(i as int).len() == 0);
        } else {
            assert(b@.skip(i as int).len() == 0);
            assert(a@.skip(i as int).len() > 0);
        }
    }
    na <= nb
}

/// `x` placed into the sorted sequence `s`, before the first entry it is not
/// greater than.
pub open spec fn sorted_insert(x: Seq<char>, s: Seq<Seq<char>>) -> Seq<Seq<char>>
    decreases s.len(),
{
    if s.len() == 0 {
        seq![x]
    } else if str_le(x, s[0]) {
        seq![x] + s
    } else {
        seq![s[0]] + sorted_insert(x, s.drop_first())
    }
}

/// The strings of `s`, sorted ascending by insertion.
pub open spec fn sort_strs(s: Seq<Seq<char>>) -> Seq<Seq<char>>
    decreases s.len(),
{
    if s.len() == 0 {
        seq![]
    } else {
        sorted_insert(s[0], sort_strs(s.drop_first()))
    }
}

/// Ascending order, with equals allowed.
pub open spec fn strs_sorted(s: Seq<Seq<char>>) -> bool {
    forall|i: int, j: int| 0 <= i < j < s.len() ==> str_le(#[trigger] s[i], #[trigger] s[j])
}

/// Inserting keeps a sorted sequence sorted, adds exactly the new string,
/// and keeps every string that was there.
pub proof fn lemma_sorted_insert_props(x: Seq<char>, s: Seq<Seq<char>>)
    requires
        strs_sorted(s),
    ensures
        strs_sorted(sorted_insert(x, s)),
        sorted_insert(x, s).len() == s.len() + 1,
        seq_has_str(sorted_insert(x, s), x),
        forall|y: Seq<char>|
            #![trigger seq_has_str(sorted_insert(x, s), y)]
            #![trigger seq_has_str(s, y)]
            seq_has_str(sorted_insert(x, s), y) <==> (y == x || seq_has_str(s, y)),
    decreases s.len(),
{
    let r = sorted_insert(x, s);
    if s.len() == 0 {
        assert forall|y: Seq<char>| seq_has_str(r, y) implies (y == x || seq_has_str(s, y)) by {
            let w = choose|w: int| 0 <= w < r.len() && #[trigger] r[w] == y;
        }
        assert(r[0] == x);
    } else if str_le(x, s[0]) {
        assert forall|i: int, j: int| 0 <= i < j < r.len() implies str_le(
            #[trigger] r[i],
            #[trigger] r[j],
        ) by {
            if i == 0 {
                if j == 1 {
                    assert(r[j] == s[0]);
                } else {
                    assert(r[j] == s[j - 1]);
                    assert(str_le(s[0], s[j - 1]));
                    lemma_str_le_trans(x, s[0], s[j - 1]);
                }
            } else {
                assert(r[i] == s[i - 1] && r[j] == s[j - 1]);
            }
        }
        assert forall|y: Seq<char>| seq_has_str(r, y) implies (y == x || seq_has_str(s, y)) by {
            let w = choose|w: int| 0 <= w < r.len() && #[trigger] r[w] == y;
            if w > 0 {
                assert(s[w - 1] == y);
            }
        }
        assert forall|y: Seq<char>| (y == x || seq_has_str(s, y)) implies seq_has_str(r, y) by {
            if y == x {
                assert(r[0] == y);
            } else {
                let w = choose|w: int| 0 <= w < s.len() && #[trigger] s[w] == y;
                assert(r[w + 1] == y);
            }
        }
    } else {
        let tail = s.drop_first();
        assert(strs_sorted(tail)) by {
            assert(forall|i: int, j: int|
                0 <= i < j < tail.len() ==> #[trigger] tail[i] == s[i + 1] && #[trigger] tail[j]
                    == s[j + 1]);
        }
        lemma_sorted_insert_props(x, tail);
        let inner = sorted_insert(x, tail);
        lemma_str_le_total(x, s[0]);
        assert(str_le(s[0], x));
        assert forall|i: int, j: int| 0 <= i < j < r.len() implies str_le(
            #[trigger] r[i],
            #[trigger] r[j],
        ) by {
            if i == 0 {
                assert(r[j] == inner[j - 1]);
                assert(seq_has_str(inner, inner[j - 1])) by {
                    assert(inner[j - 1] == inner[j - 1]);
                }
                if inner[j - 1] == x {
                    assert(str_le(s[0], r[j]));
                } else {
                    assert(seq_has_str(tail, inner[j - 1]));
                    let w = choose|w: int|
                        0 <= w < tail.len() && #[trigger] tail[w] == inner[j - 1];
                    assert(tail[w] == s[w + 1]);
                    assert(str_le(s[0], s[w + 1]));
                }
            } else {
                assert(r[i] == inner[i - 1] && r[j] == inner[j - 1]);
            }
        }
        assert forall|y: Seq<char>| seq_has_str(r, y) implies (y == x || seq_has_str(s, y)) by {
            let w = choose|w: int| 0 <= w < r.len() && #[trigger] r[w] == y;
            if w == 0 {
                assert(s[0] == y);
            } else {
                assert(inner[w - 1] == y);
                assert(seq_has_str(inner, y));
                if y != x {
                    assert(seq_has_str(tail, y));
                    let t = choose|t: int| 0 <= t < tail.len() && #[trigger] tail[t] == y;
                    assert(s[t + 1] == y);
                }
            }
        }
        assert(seq_has_str(inner, x));
        assert forall|y: Seq<char>| (y == x || seq_has_str(s, y)) implies seq_has_str(r, y) by {
            if y == x {
                let w = choose|w: int| 0 <= w < inner.len() && #[trigger] inner[w] == y;
                assert(r[w + 1] == y);
            } else {
                let w = choose|w: int| 0 <= w < s.len() && #[trigger] s[w] == y;
                if w == 0 {
                    assert(r[0] == y);
                } else {
                    assert(tail[w - 1] == y);
                    assert(seq_has_str(tail, y));
                    assert(seq_has_str(inner, y));
                    let t = choose|t: int| 0 <= t < inner.len() && #[trigger] inner[t] == y;
                    assert(r[t + 1] == y);
                }
            }
        }
    }
}

/// The sort yields an ascending sequence of the same length holding exactly
/// the strings of its input.
pub proof fn lemma_sort_strs_props(s: Seq<Seq<char>>)
    ensures
        strs_sorted(sort_strs(s)),
        sort_strs(s).len() == s.len(),
        forall|y: Seq<char>|
            #![trigger seq_has_str(sort_strs(s), y)]
            #![trigger seq_has_str(s, y)]
            seq_has_str(sort_strs(s), y) <==> seq_has_str(s, y),
    decreases s.len(),
{
    if s.len() > 0 {
        let tail = s.drop_first();
        lemma_sort_strs_props(tail);
        lemma_sorted_insert_props(s[0], sort_strs(tail));
        assert forall|y: Seq<char>| seq_has_str(sort_strs(s), y) implies seq_has_str(s, y) by {
            if y != s[0] {
                assert(seq_has_str(sort_strs(tail), y));
                assert(seq_has_str(tail, y));
                let w = choose|w: int| 0 <= w < tail.len() && #[trigger] tail[w] == y;
                assert(s[w + 1] == y);
            } else {
                assert(s[0] == y);
            }
        }
        assert forall|y: Seq<char>| seq_has_str(s, y) implies seq_has_str(sort_strs(s), y) by {
            let w = choose|w: int| 0 <= w < s.len() && #[trigger] s[w] == y;
            if w > 0 {
                assert(tail[w - 1] == y);
                assert(seq_has_str(tail, y));
                assert(seq_has_str(sort_strs(tail), y));
            } else {
                assert(y == s[0]);
                assert(seq_has_str(sorted_insert(s[0], sort_strs(tail)), s[0]));
            }
        }
    }
}

/// Where `x` goes in a sorted sequence: right before position `j`, the first
/// entry `x` is not greater than.
proof fn lemma_sorted_insert_at(x: Seq<char>, s: Seq<Seq<char>>, j: int)
    requires
        0 <= j <= s.len(),
        forall|t: int| 0 <= t < j ==> !str_le(x, #[trigger] s[t]),
        j < s.len() ==> str_le(x, s[j]),
    ensures
        sorted_insert(x, s) == s.take(j) + seq![x] + s.skip(j),
    decreases j,
{
    if j == 0 {
        if s.len() == 0 {
            assert(sorted_insert(x, s) =~= s.take(0) + seq![x] + s.skip(0));
        } else {
            assert(sorted_insert(x, s) =~= s.take(0) + seq![x] + s.skip(0));
        }
    } else {
        let tail = s.drop_first();
        assert(forall|t: int| 0 <= t < j - 1 ==> #[trigger] tail[t] == s[t + 1]);
        lemma_sorted_insert_at(x, tail, j - 1);
        assert(sorted_insert(x, s) == seq![s[0]] + sorted_insert(x, tail));
        assert(seq![s[0]] + (tail.take(j - 1) + seq![x] + tail.skip(j - 1)) =~= s.take(j)
            + seq![x] + s.skip(j));
    }
}

/// Place a string into an ascending vector, keeping it ascending.
fn insert_sorted(out: &mut Vec<String>, x: String)
    ensures
        final(out).deep_view() == sorted_insert(x@, old(out).deep_view()),
{
    let n = out.len();
    let mut j: usize = 0;
    while j < n && !string_le(x.as_str(), out[j].as_str())
        invariant
            n == out@.len(),
            *out == *old(out),
            j <= n,
            forall|t: int| 0 <= t < j ==> !str_le(x@, #[trigger] out.deep_view()[t]),
        decreases n - j,
    {
        proof {
            assert(out.deep_view()[j as int] == out@[j as int]@);
        }
        j = j + 1;
    }
    proof {
        if j < n {
            assert(out.deep_view()[j as int] == out@[j as int]@);
        }
        lemma_sorted_insert_at(x@, out.deep_view(), j as int);
    }
    let ghost prev = out.deep_view();
    let ghost xv = x@;
    out.insert(j, x);
    proof {
        assert(out.deep_view() =~= prev.take(j as int) + seq![xv] + prev.skip(j as int));
    }
}

/// Sort the strings ascending.
pub fn sort_strings(v: &Vec<String>) -> (r: Vec<String>)
    ensures
        r.deep_view() == sort_strs(v.deep_view()),
{
    let mut out: Vec<String> = Vec::new();
    let mut i: usize = v.len();
    proof {
        assert(v.deep_view().skip(i as int) =~= Seq::<Seq<char>>::empty());
        assert(out.deep_view() =~= sort_strs(v.deep_view().skip(i as int)));
    }
    while i > 0
        invariant
            i <= v@.len(),
            out.deep_view() == sort_strs(v.deep_view().skip(i as int)),
        decreases i,
    {
        i = i - 1;
        proof {
            assert(v.deep_view().skip(i as int).drop_first() =~= v.deep_view().skip(i + 1));
            assert(v.deep_view().skip(i as int)[0] == v.deep_view()[i as int]);
            assert(v.deep_view()[i as int] == v@[i as int]@);
        }
        insert_sorted(&mut out, v[i].clone());
    }
    proof {
        assert(v.deep_view().skip(0) =~= v.deep_view());
    }
    out
}

/// The lowercase form of a string, as `str::to_lowercase` computes it: a
/// function of the characters alone.
pub uninterp spec fn lower_of(s: Seq<char>) -> Seq<char>;

/// Relies on `str::to_lowercase`: the result depends on the characters of
/// the input alone.
#[verifier::external_body]
pub(crate) fn lowercase(s: &str) -> (r: String)
    ensures
        r@ == lower_of(s@),
{
    s.to_lowercase()
}

/// Parse the characters of `w` from position `start` on as a decimal number
/// that fits the machine's word.  Succeeds exactly when there is at least
/// one character, all characters are digits, and the value fits in a
/// `usize`.
pub fn parse_usize_at(w: &Vec<char>, start: usize) -> (r: Option<usize>)
    requires
        start <= w@.len(),
    ensures
        match r {
            Some(v) => {
                &&& w@.len() > start
                &&& all_digits(w@.skip(start as int))
                &&& dec_value(w@.skip(start as int)) == v
            },
            None => !(w@.len() > start && all_digits(w@.skip(start as int)) && dec_value(
                w@.skip(start as int),
            ) <= usize::MAX),
        },
{
    let n = w.len();
    if start >= n {
        return None;
    }
    let ghost s = w@.skip(start as int);
    let mut acc: u128 = 0;
    let mut t: usize = start;
    while t < n
        invariant
            n == w@.len(),
            start <= t <= n,
            s == w@.skip(start as int),
            s.len() == n - start,
            forall|u: int| 0 <= u < t - start ==> is_digit_char(#[trigger] s[u]),
            acc == dec_value(s.take(t - start)),
            acc <= usize::MAX,
        decreases n - t,
    {
        let d = match exec_digit_value(w[t]) {
            Some(d) => d,
            None => {
                proof {
                    assert(s[t - start] == w@[t as int]);
                    assert(!all_digits(s));
                }
                return None;
            }
        };
        proof {
            assert(s.take(t + 1 - start).drop_last() =~= s.take(t - start));
            assert(s.take(t + 1 - start).last() == w@[t as int]);
        }
        acc = acc * 10 + d as u128;
        t = t + 1;
        if acc > usize::MAX as u128 {
            proof {
                lemma_dec_value_prefix_le(s, t - start);
            }
            return None;
        }
    }
    proof {
        assert(s.take(t - start) =~= s);
    }
    Some(acc as usize)
}

/// The strings of `ls`, joined by the separator `sep`.
pub open spec fn join_with(ls: Seq<Seq<char>>, sep: Seq<char>) -> Seq<char>
    decreases ls.len(),
{
    if ls.len() == 0 {
        seq![]
    } else if ls.len() == 1 {
        ls[0]
    } else {
        ls[0] + sep + join_with(ls.drop_first(), sep)
    }
}

/// Appending one more string extends the joined form by a separator and it.
proof fn lemma_join_push(ls: Seq<Seq<char>>, sep: Seq<char>, x: Seq<char>)
    ensures
        join_with(ls.push(x), sep) == if ls.len() == 0 {
            x
        } else {
            join_with(ls, sep) + sep + x
        },
    decreases ls.len(),
{
    if ls.len() == 0 {
        assert(ls.push(x).len() == 1);
        assert(join_with(ls.push(x), sep) == ls.push(x)[0]);
        assert(ls.push(x)[0] == x);
    } else {
        lemma_join_push(ls.drop_first(), sep, x);
        assert(ls.push(x).drop_first() =~= ls.drop_first().push(x));
        assert(ls.push(x)[0] == ls[0]);
        if ls.len() == 1 {
            assert(join_with(ls.push(x), sep) =~= ls[0] + sep + x);
            assert(join_with(ls, sep) + sep + x =~= ls[0] + sep + x);
        } else {
            assert(join_with(ls.push(x), sep) =~= ls[0] + sep + (join_with(ls.drop_first(), sep)
                + sep + x));
            assert(join_with(ls, sep) + sep + x =~= ls[0] + sep + (join_with(ls.drop_first(), sep)
                + sep + x));
        }
    }
}

/// Join the strings of `v` with the separator `sep`.
pub fn join_strings(v: &Vec<String>, sep: &str) -> (r: String)
    ensures
        r@ == join_with(v.deep_view(), sep@),
{
    let n = v.len();
    let mut out = String::new();
    let mut i: usize = 0;
    while i < n
        invariant
            n == v@.len(),
            i <= n,
            out@ == join_with(v.deep_view().take(i as int), sep@),
        decreases n - i,
    {
        proof {
            assert(v.deep_view().len() == n);
            assert(v.deep_view().take(i as int).len() == i);
        }
        if i > 0 {
            out.append(sep);
        }
        out.append(v[i].as_str());
        proof {
            assert(v.deep_view()[i as int] == v@[i as int]@);
            assert(v.deep_view().take(i + 1).drop_last() =~= v.deep_view().take(i as int));
            lemma_join_push(v.deep_view().take(i as int), sep@, v.deep_view()[i as int]);
            assert(v.deep_view().take(i + 1) =~= v.deep_view().take(i as int).push(
                v.deep_view()[i as int],
            ));
        }
        i = i + 1;
    }
    proof {
        assert(v.deep_view().take(i as int) =~= v.deep_view());
    }
    out
}

/// Decimal rendering of an integer, with a leading minus sign when negative.
pub open spec fn dec_int_of(v: int) -> Seq<char> {
    if v < 0 {
        seq!['-'] + dec_of((-v) as nat)
    } else {
        dec_of(v as nat)
    }
}

/// Decimal rendering of `n`, e.g. `-7` becomes `"-7"`.
pub fn display_i64(n: i64) -> (r: String)
    ensures
        r@ == dec_int_of(n as int),
{
    if n >= 0 {
        display_u64(n as u64)
    } else {
        let m: u64 = if n == i64::MIN {
            9223372036854775808u64
        } else {
            (-n) as u64
        };
        let mut out = String::new();
        out.append("-");
        let digits = display_u64(m);
        out.append(digits.as_str());
        proof {
            assert(out@ =~= dec_int_of(n as int)) by {
                assert(Seq::<char>::empty() + "-"@ =~= "-"@);
                reveal_strlit("-");
                assert("-"@ =~= seq!['-']);
            }
        }
        out
    }
}

/// Rendering of a duration in seconds as hours, minutes and seconds.
pub open spec fn human_time_of(total: nat) -> Seq<char> {
    dec_of(total / 3600) + "h "@ + dec_of((total % 3600) / 60) + "m "@ + dec_of(total % 60) + "s"@
}

/// Render a duration of `total` seconds, e.g. `3725` becomes `"1h 2m 5s"`.
pub fn human_time(total: u64) -> (r: String)
    ensures
        r@ == human_time_of(total as nat),
{
    let h = total / 3600;
    let m = (total % 3600) / 60;
    let s = total % 60;
    let mut out = display_u64(h);
    out.append("h ");
    let md = display_u64(m);
    out.append(md.as_str());
    out.append("m ");
    let sd = display_u64(s);
    out.append(sd.as_str());
    out.append("s");
    out
}

/// Compact rendering of a duration in seconds, without spaces.
pub open spec fn compact_duration_of(total: nat) -> Seq<char> {
    dec_of(total / 3600) + "h"@ + dec_of((total % 3600) / 60) + "m"@ + dec_of(total % 60) + "s"@
}

/// Render a duration of `total` seconds compactly, e.g. `3725` becomes
/// `"1h2m5s"`.
pub fn compact_duration(total: u64) -> (r: String)
    ensures
        r@ == compact_duration_of(total as nat),
{
    let h = total / 3600;
    let m = (total % 3600) / 60;
    let s = total % 60;
    let mut out = display_u64(h);
    out.append("h");
    let md = display_u64(m);
    out.append(md.as_str());
    out.append("m");
    let sd = display_u64(s);
    out.append(sd.as_str());
    out.append("s");
    out
}

} // verus!
