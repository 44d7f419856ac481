//! The persisted stores the engine works with: custom commands, counters,
//! balances and after-stream reminders, all keyed by channel.

use vstd::prelude::*;
use crate::table::Table2;
use crate::text::{seq_has_str, contains_str};

verus! {

/// Custom text commands: `(channel, name)` to the stored template.
pub type Commands = Table2<String>;

/// One counter: how often it fired, and its reply template.
pub struct CounterDef {
    pub count: i32,
    pub template: String,
}

/// Counters: `(channel, name)` to definition.
pub type Counters = Table2<CounterDef>;

/// Currency balances: `(channel, user)` to amount.
pub type Balances = Table2<i32>;

/// One after-stream reminder.
pub struct AfterStream {
    /// Who left it.
    pub user: String,
    /// The reminder text, verbatim.
    pub text: String,
}

/// A balance that may be absent counts as zero.
pub open spec fn balance_or_zero(b: Option<i32>) -> int {
    match b {
        Some(v) => v as int,
        None => 0,
    }
}

/// Saturating addition within `i32`.
pub open spec fn sat_add_i32(a: int, b: int) -> int {
    if a + b > i32::MAX {
        i32::MAX as int
    } else if a + b < i32::MIN {
        i32::MIN as int
    } else {
        a + b
    }
}

/// Every string of `v` occurs only once.
pub open spec fn distinct_strs(v: Seq<Seq<char>>) -> bool {
    forall|i: int, j: int| 0 <= i < j < v.len() ==> v[i] != v[j]
}

/// The distinct union of three rosters, in first-seen order.
pub fn union_distinct(a: &Vec<String>, b: &Vec<String>, c: &Vec<String>) -> (r: Vec<String>)
    ensures
        distinct_strs(r.deep_view()),
        forall|x: Seq<char>|
            #![trigger seq_has_str(r.deep_view(), x)]
            seq_has_str(r.deep_view(), x) <==> (seq_has_str(a.deep_view(), x) || seq_has_str(
                b.deep_view(),
                x,
            ) || seq_has_str(c.deep_view(), x)),
{
    let mut out: Vec<String> = Vec::new();
    proof {
        assert(out.deep_view().len() == 0);
        assert(forall|x: Seq<char>| !seq_has_str(out.deep_view(), x));
    }
    push_missing(&mut out, a);
    let ghost out_a = out.deep_view();
    push_missing(&mut out, b);
    let ghost out_b = out.deep_view();
    push_missing(&mut out, c);
    proof {
        assert forall|x: Seq<char>|
            seq_has_str(out.deep_view(), x) <==> (seq_has_str(a.deep_view(), x) || seq_has_str(
                b.deep_view(),
                x,
            ) || seq_has_str(c.deep_view(), x)) by {
            assert(seq_has_str(out.deep_view(), x) <==> (seq_has_str(out_b, x) || seq_has_str(
                c.deep_view(),
                x,
            )));
            assert(seq_has_str(out_b, x) <==> (seq_has_str(out_a, x) || seq_has_str(
                b.deep_view(),
                x,
            )));
        }
    }
    out
}

/// Append the strings of `src` that `out` does not hold yet.
fn push_missing(out: &mut Vec<String>, src: &Vec<String>)
    requires
        distinct_strs(old(out).deep_view()),
    ensures
        distinct_strs(final(out).deep_view()),
        forall|x: Seq<char>|
            #![trigger seq_has_str(final(out).deep_view(), x)]
            #![trigger seq_has_str(src.deep_view(), x)]
            #![trigger seq_has_str(old(out).deep_view(), x)]
            seq_has_str(final(out).deep_view(), x) <==> (seq_has_str(old(out).deep_view(), x)
                || seq_has_str(src.deep_view(), x)),
{
    let n = src.len();
    let mut i: usize = 0;
    while i < n
        invariant
            n == src@.len(),
            i <= n,
            distinct_strs(out.deep_view()),
            forall|x: Seq<char>|
                #![trigger seq_has_str(out.deep_view(), x)]
                #![trigger seq_has_str(src.deep_view().take(i as int), x)]
                seq_has_str(out.deep_view(), x) <==> (seq_has_str(old(out).deep_view(), x)
                    || seq_has_str(src.deep_view().take(i as int), x)),
        decreases n - i,
    {
        let ghost pre = out.deep_view();
        let ghost cur = src.deep_view()[i as int];
        proof {
            assert(src.deep_view()[i as int] == src@[i as int]@);
        }
        let absent = !contains_str(out, src[i].as_str());
        if absent {
            out.push(src[i].clone());
        }
        proof {
            let post = out.deep_view();
            if absent {
                assert(post =~= pre.push(cur));
            } else {
                assert(seq_has_str(pre, cur));
            }
            assert forall|x: Seq<char>| #![trigger seq_has_str(post, x)]
                seq_has_str(post, x) <==> (seq_has_str(pre, x) || x == cur) by {
                if seq_has_str(post, x) {
                    let w = choose|w: int| 0 <= w < post.len() && #[trigger] post[w] == x;
                    if w < pre.len() {
                        assert(pre[w] == x);
                        assert(seq_has_str(pre, x));
                    } else {
                        assert(x == cur);
                    }
                }
                if seq_has_str(pre, x) {
                    let w = choose|w: int| 0 <= w < pre.len() && #[trigger] pre[w] == x;
                    assert(post[w] == x);
                    assert(seq_has_str(post, x));
                }
                if x == cur && absent {
                    assert(post[pre.len() as int] == x);
                    assert(seq_has_str(post, x));
                }
            }
            if absent {
                assert forall|i2: int, j2: int|
                    0 <= i2 < j2 < post.len() implies post[i2] != post[j2] by {
                    if j2 == pre.len() as int {
                        if post[i2] == cur {
                            assert(pre[i2] == cur);
                            assert(seq_has_str(pre, cur));
                        }
                    } else {
                        assert(pre[i2] == post[i2] && pre[j2] == post[j2]);
                    }
                }
            }
        }
        i = i + 1;
        proof {
            let post = out.deep_view();
            let tk = src.deep_view().take(i as int);
            let tk0 = src.deep_view().take(i - 1);
            assert forall|x: Seq<char>| #![trigger seq_has_str(tk, x)]
                seq_has_str(tk, x) <==> (seq_has_str(tk0, x) || x == cur) by {
                if seq_has_str(tk, x) {
                    let w = choose|w: int| 0 <= w < tk.len() && #[trigger] tk[w] == x;
                    if w < i - 1 {
                        assert(tk0[w] == x);
                        assert(seq_has_str(tk0, x));
                    } else {
                        assert(x == cur);
                    }
                }
                if seq_has_str(tk0, x) {
                    let w = choose|w: int| 0 <= w < tk0.len() && #[trigger] tk0[w] == x;
                    assert(tk[w] == x);
                    assert(seq_has_str(tk, x));
                }
                if x == cur {
                    assert(tk[i - 1] == x);
                    assert(seq_has_str(tk, x));
                }
            }
            assert forall|x: Seq<char>|
                #![trigger seq_has_str(post, x)]
                #![trigger seq_has_str(tk, x)]
                seq_has_str(post, x) <==> (seq_has_str(old(out).deep_view(), x) || seq_has_str(
                tk,
                x,
            )) by {
                assert(seq_has_str(post, x) <==> (seq_has_str(pre, x) || x == cur));
                assert(seq_has_str(tk, x) <==> (seq_has_str(tk0, x) || x == cur));
                assert(seq_has_str(pre, x) <==> (seq_has_str(old(out).deep_view(), x)
                    || seq_has_str(tk0, x)));
            }
        }
    }
    proof {
        assert(src.deep_view().take(i as int) =~= src.deep_view());
    }
}

/// Atomically add `reward` to the balance of every listed user in `channel`,
/// creating absent records at zero first.  Saturates at the representable
/// bounds; no other record changes.
pub fn balances_increment(
    balances: &mut Balances,
    channel: &str,
    users: &Vec<String>,
    reward: i32,
)
    requires
        old(balances).wf(),
        distinct_strs(users.deep_view()),
    ensures
        final(balances).wf(),
        forall|x: Seq<char>|
            seq_has_str(users.deep_view(), x) ==> final(balances).spec_get(channel@, x) == Some(
                sat_add_i32(balance_or_zero(old(balances).spec_get(channel@, x)), reward as int) as i32,
            ),
        forall|c: Seq<char>, n: Seq<char>|
            (c != channel@ || !seq_has_str(users.deep_view(), n)) ==> final(balances).spec_get(c, n)
                == old(balances).spec_get(c, n),
{
    let m = users.len();
    let mut i: usize = 0;
    while i < m
        invariant
            m == users@.len(),
            i <= m,
            balances.wf(),
            distinct_strs(users.deep_view()),
            forall|j: int| #![auto]
                0 <= j < i ==> balances.spec_get(channel@, users.deep_view()[j]) == Some(
                    sat_add_i32(
                        balance_or_zero(old(balances).spec_get(channel@, users.deep_view()[j])),
                        reward as int,
                    ) as i32,
                ),
            forall|c: Seq<char>, n: Seq<char>|
                (c != channel@ || !seq_has_str(users.deep_view().take(i as int), n)) ==> balances.spec_get(
                    c,
                    n,
                ) == old(balances).spec_get(c, n),
        decreases m - i,
    {
        proof {
            assert(users.deep_view()[i as int] == users@[i as int]@);
            assert(!seq_has_str(users.deep_view().take(i as int), users.deep_view()[i as int]))
                by {
                if seq_has_str(users.deep_view().take(i as int), users.deep_view()[i as int]) {
                    let w = choose|w: int|
                        0 <= w < i && #[trigger] users.deep_view().take(i as int)[w]
                            == users.deep_view()[i as int];
                    assert(users.deep_view()[w] == users.deep_view()[i as int]);
                }
            }
        }
        let cur: i32 = match balances.get(channel, users[i].as_str()) {
            Some(v) => *v,
            None => 0,
        };
        let wide: i64 = cur as i64 + reward as i64;
        let newv: i32 = if wide > i32::MAX as i64 {
            i32::MAX
        } else if wide < i32::MIN as i64 {
            i32::MIN
        } else {
            wide as i32
        };
        let ch = copy_str(channel);
        balances.set(ch, users[i].clone(), newv);
        i = i + 1;
        proof {
            assert forall|c: Seq<char>, n: Seq<char>|
                (c != channel@ || !seq_has_str(users.deep_view().take(i as int), n)) implies
                balances.spec_get(c, n) == old(balances).spec_get(c, n) by {
                if c == channel@ && n == users.deep_view()[i - 1] {
                    assert(users.deep_view().take(i as int)[i - 1] == n);
                    assert(seq_has_str(users.deep_view().take(i as int), n));
                } else {
                    if c == channel@ && seq_has_str(users.deep_view().take(i - 1), n) {
                        let w = choose|w: int|
                            0 <= w < i - 1 && #[trigger] users.deep_view().take(i - 1)[w] == n;
                        assert(users.deep_view().take(i as int)[w] == n);
                        assert(seq_has_str(users.deep_view().take(i as int), n));
                    }
                }
            }
            assert forall|j: int| #![auto] 0 <= j < i implies balances.spec_get(
                channel@,
                users.deep_view()[j],
            ) == Some(
                sat_add_i32(
                    balance_or_zero(old(balances).spec_get(channel@, users.deep_view()[j])),
                    reward as int,
                ) as i32,
            ) by {
                if j < i - 1 {
                    assert(users.deep_view()[j] != users.deep_view()[i - 1]);
                }
            }
        }
    }
    proof {
        assert(users.deep_view().take(i as int) =~= users.deep_view());
        assert forall|x: Seq<char>| seq_has_str(users.deep_view(), x) implies balances.spec_get(
            channel@,
            x,
        ) == Some(
            sat_add_i32(balance_or_zero(old(balances).spec_get(channel@, x)), reward as int) as i32,
        ) by {
            let w = choose|w: int|
                0 <= w < users.deep_view().len() && #[trigger] users.deep_view()[w] == x;
            assert(balances.spec_get(channel@, users.deep_view()[w]) == Some(
                sat_add_i32(
                    balance_or_zero(old(balances).spec_get(channel@, users.deep_view()[w])),
                    reward as int,
                ) as i32,
            ));
        }
    }
}

fn copy_str(s: &str) -> (r: String)
    ensures
        r@ == s@,
{
    let mut out = String::new();
    out.append(s);
    out
}

/// A sender with no balance record holds exactly zero.
pub proof fn lemma_balance_default_zero(b: Balances, channel: Seq<char>, user: Seq<char>)
    requires
        b.spec_get(channel, user) is None,
    ensures
        balance_or_zero(b.spec_get(channel, user)) == 0,
{
}

/// Counter increments are monotonic and never lose an update: below the
/// representable bound, two increments raise the count by exactly two, and
/// an increment never shrinks the count.
pub proof fn lemma_counter_increment_accumulates(count: int)
    requires
        i32::MIN <= count,
        count + 2 <= i32::MAX,
    ensures
        sat_add_i32(count, 1) == count + 1,
        sat_add_i32(sat_add_i32(count, 1), 1) == count + 2,
        sat_add_i32(count, 1) >= count,
{
}

} // verus!
