//! Rendering of stored text templates.
//!
//! Custom commands, counters and bad-word reasons are stored as templates in
//! which the placeholders `{{name}}`, `{{target}}` and — for counters —
//! `{{count}}` are replaced by the values of the current dispatch.

use vstd::prelude::*;
use crate::text::{chars_of, dec_int_of, display_i64, string_from_chars};

verus! {

/// `s` with every occurrence of `pat` replaced by `repl`, scanning left to
/// right without rescanning replacements.
pub open spec fn replace_spec(s: Seq<char>, pat: Seq<char>, repl: Seq<char>) -> Seq<char>
    decreases s.len(),
{
    if s.len() == 0 {
        seq![]
    } else if pat.len() >= 1 && s.len() >= pat.len() && s.subrange(0, pat.len() as int) == pat {
        repl + replace_spec(s.skip(pat.len() as int), pat, repl)
    } else {
        seq![s[0]] + replace_spec(s.drop_first(), pat, repl)
    }
}

/// Whether `pat` occurs in `s` at position `i`.
fn matches_at(s: &Vec<char>, pat: &Vec<char>, i: usize) -> (r: bool)
    requires
        i <= s@.len(),
    ensures
        r == (s@.len() - i >= pat@.len() && s@.subrange(i as int, i + pat@.len()) == pat@),
{
    let m = pat.len();
    if s.len() - i < m {
        proof {
            assert(s@.len() - i < pat@.len());
        }
        return false;
    }
    let mut j: usize = 0;
    while j < m
        invariant
            m == pat@.len(),
            i + m <= s@.len() <= usize::MAX,
            j <= m,
            forall|t: int| 0 <= t < j ==> s@[i + t] == pat@[t],
        decreases m - j,
    {
        if s[i + j] != pat[j] {
            proof {
                assert(s@.subrange(i as int, i + pat@.len())[j as int] == s@[i + j]);
            }
            return false;
        }
        j = j + 1;
    }
    proof {
        assert(s@.subrange(i as int, i + pat@.len()) =~= pat@);
    }
    true
}

/// Replace every occurrence of `pat` in `s` by `repl`.
pub fn replace_all(s: &Vec<char>, pat: &Vec<char>, repl: &Vec<char>) -> (r: Vec<char>)
    requires
        pat@.len() >= 1,
    ensures
        r@ == replace_spec(s@, pat@, repl@),
{
    let n = s.len();
    let mut out: Vec<char> = Vec::new();
    let mut i: usize = 0;
    proof {
        assert(s@.skip(0) =~= s@);
        assert(out@ + replace_spec(s@.skip(0), pat@, repl@) =~= replace_spec(s@, pat@, repl@));
    }
    while i < n
        invariant
            n == s@.len(),
            i <= n,
            pat@.len() >= 1,
            out@ + replace_spec(s@.skip(i as int), pat@, repl@) == replace_spec(s@, pat@, repl@),
        decreases n - i,
    {
        let ghost pre = out@;
        if matches_at(s, pat, i) {
            proof {
                assert(s@.skip(i as int).subrange(0, pat@.len() as int) =~= s@.subrange(
                    i as int,
                    i + pat@.len(),
                ));
                assert(s@.skip(i as int).skip(pat@.len() as int) =~= s@.skip(i + pat@.len()));
            }
            let m = pat.len();
            // copy the replacement
            let k = repl.len();
            let mut t: usize = 0;
            while t < k
                invariant
                    k == repl@.len(),
                    t <= k,
                    out@ =~= pre + repl@.subrange(0, t as int),
                decreases k - t,
            {
                out.push(repl[t]);
                t = t + 1;
                proof {
                    assert(out@ =~= pre + repl@.subrange(0, t as int));
                }
            }
            proof {
                assert(out@ =~= pre + repl@);
                assert(replace_spec(s@.skip(i as int), pat@, repl@) == repl@ + replace_spec(
                    s@.skip(i + pat@.len()),
                    pat@,
                    repl@,
                ));
                assert(out@ + replace_spec(s@.skip(i + pat@.len()), pat@, repl@) =~= replace_spec(
                    s@,
                    pat@,
                    repl@,
                ));
            }
            i = i + m;
        } else {
            out.push(s[i]);
            proof {
                assert(s@.skip(i as int)[0] == s@[i as int]);
                assert(s@.skip(i as int).drop_first() =~= s@.skip(i as int + 1));
                if s@.skip(i as int).len() >= pat@.len() && s@.skip(i as int).subrange(
                    0,
                    pat@.len() as int,
                ) == pat@ {
                    assert(s@.skip(i as int).subrange(0, pat@.len() as int) =~= s@.subrange(
                        i as int,
                        i + pat@.len(),
                    ));
                    assert(false);
                }
                assert(replace_spec(s@.skip(i as int), pat@, repl@) == seq![s@[i as int]]
                    + replace_spec(s@.skip(i as int + 1), pat@, repl@));
                assert(out@ + replace_spec(s@.skip(i as int + 1), pat@, repl@) =~= replace_spec(
                    s@,
                    pat@,
                    repl@,
                ));
            }
            i = i + 1;
        }
    }
    proof {
        assert(s@.skip(i as int) =~= Seq::<char>::empty());
        assert(out@ + replace_spec(s@.skip(i as int), pat@, repl@) =~= out@);
    }
    out
}

/// The `{{name}}` placeholder.
pub open spec fn name_pat() -> Seq<char> {
    seq!['{', '{', 'n', 'a', 'm', 'e', '}', '}']
}

/// The `{{target}}` placeholder.
pub open spec fn target_pat() -> Seq<char> {
    seq!['{', '{', 't', 'a', 'r', 'g', 'e', 't', '}', '}']
}

/// The `{{count}}` placeholder.
pub open spec fn count_pat() -> Seq<char> {
    seq!['{', '{', 'c', 'o', 'u', 'n', 't', '}', '}']
}

fn exec_name_pat() -> (r: Vec<char>)
    ensures
        r@ == name_pat(),
{
    let r = vec!['{', '{', 'n', 'a', 'm', 'e', '}', '}'];
    proof {
        assert(r@ =~= name_pat());
    }
    r
}

fn exec_target_pat() -> (r: Vec<char>)
    ensures
        r@ == target_pat(),
{
    let r = vec!['{', '{', 't', 'a', 'r', 'g', 'e', 't', '}', '}'];
    proof {
        assert(r@ =~= target_pat());
    }
    r
}

fn exec_count_pat() -> (r: Vec<char>)
    ensures
        r@ == count_pat(),
{
    let r = vec!['{', '{', 'c', 'o', 'u', 'n', 't', '}', '}'];
    proof {
        assert(r@ =~= count_pat());
    }
    r
}

/// Rendering context of a plain template: sender name and reply target.
pub struct TemplateVars<'a> {
    pub name: &'a str,
    pub target: &'a str,
}

/// Rendering context of a counter template: sender name, reply target and
/// the current count.
pub struct CounterVars<'a> {
    pub name: &'a str,
    pub target: &'a str,
    pub count: i32,
}

/// A plain template rendered: `{{name}}` then `{{target}}` substituted.
pub open spec fn rendered(t: Seq<char>, name: Seq<char>, target: Seq<char>) -> Seq<char> {
    replace_spec(replace_spec(t, name_pat(), name), target_pat(), target)
}

/// A counter template rendered: `{{name}}`, `{{target}}`, then `{{count}}`
/// substituted.
pub open spec fn rendered_counter(
    t: Seq<char>,
    name: Seq<char>,
    target: Seq<char>,
    count: int,
) -> Seq<char> {
    replace_spec(rendered(t, name, target), count_pat(), dec_int_of(count))
}

/// Render a plain template against its context.
pub fn render(template: &str, vars: &TemplateVars<'_>) -> (r: String)
    ensures
        r@ == rendered(template@, vars.name@, vars.target@),
{
    let t = chars_of(template);
    let name = chars_of(vars.name);
    let target = chars_of(vars.target);
    let step1 = replace_all(&t, &exec_name_pat(), &name);
    let step2 = replace_all(&step1, &exec_target_pat(), &target);
    string_from_chars(&step2)
}

/// Render a counter template against its context.
pub fn render_counter(template: &str, vars: &CounterVars<'_>) -> (r: String)
    ensures
        r@ == rendered_counter(template@, vars.name@, vars.target@, vars.count as int),
{
    let t = chars_of(template);
    let name = chars_of(vars.name);
    let target = chars_of(vars.target);
    let step1 = replace_all(&t, &exec_name_pat(), &name);
    let step2 = replace_all(&step1, &exec_target_pat(), &target);
    let count = display_i64(vars.count as i64);
    let countc = chars_of(count.as_str());
    let step3 = replace_all(&step2, &exec_count_pat(), &countc);
    string_from_chars(&step3)
}

} // verus!
