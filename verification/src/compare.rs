//! Baseline comparison: counting how many trips a recorded baseline run had
//! finished by a given simulated time, and rendering the signed difference
//! between the live count and that baseline count.

use vstd::prelude::*;

verus! {

/// The character for a single decimal digit.
pub open spec fn digit_char(d: nat) -> char {
    if d == 0 {
        '0'
    } else if d == 1 {
        '1'
    } else if d == 2 {
        '2'
    } else if d == 3 {
        '3'
    } else if d == 4 {
        '4'
    } else if d == 5 {
        '5'
    } else if d == 6 {
        '6'
    } else if d == 7 {
        '7'
    } else if d == 8 {
        '8'
    } else {
        '9'
    }
}

/// The decimal digits of `n`, most significant first, with no leading
/// zeroes (zero itself is the single digit '0').
pub open spec fn decimal_digits(n: nat) -> Seq<char>
    decreases n,
{
    if n < 10 {
        seq![digit_char(n)]
    } else {
        decimal_digits(n / 10).push(digit_char(n % 10))
    }
}

/// The digits of `m`, padded on the left with zeroes to width three.
pub open spec fn padded_three(m: nat) -> Seq<char> {
    seq![digit_char((m / 100) % 10), digit_char((m / 10) % 10), digit_char(m % 10)]
}

/// The decimal rendering of `n` with a comma between each group of three
/// digits, the way the screen prints large counts.
pub open spec fn pretty_digits(n: nat) -> Seq<char>
    decreases n,
{
    if n < 1000 {
        decimal_digits(n)
    } else {
        pretty_digits(n / 1000) + seq![','] + padded_three(n % 1000)
    }
}

/// The signed delta the screen shows: "+0" when the live count equals the
/// baseline count, "+N" when live is ahead by N, "-N" when behind by N.
pub open spec fn delta_chars(live: nat, baseline: nat) -> Seq<char> {
    if live >= baseline {
        seq!['+'] + pretty_digits((live - baseline) as nat)
    } else {
        seq!['-'] + pretty_digits((baseline - live) as nat)
    }
}

fn digit_str(d: usize) -> (r: &'static str)
    requires
        d < 10,
    ensures
        r@ == seq![digit_char(d as nat)],
{
    proof {
        reveal_strlit("0");
        reveal_strlit("1");
        reveal_strlit("2");
        reveal_strlit("3");
        reveal_strlit("4");
        reveal_strlit("5");
        reveal_strlit("6");
        reveal_strlit("7");
        reveal_strlit("8");
        reveal_strlit("9");
    }
    if d == 0 {
        "0"
    } else if d == 1 {
        "1"
    } else if d == 2 {
        "2"
    } else if d == 3 {
        "3"
    } else if d == 4 {
        "4"
    } else if d == 5 {
        "5"
    } else if d == 6 {
        "6"
    } else if d == 7 {
        "7"
    } else if d == 8 {
        "8"
    } else {
        "9"
    }
}

fn push_decimal(n: usize, out: &mut String)
    ensures
        final(out)@ == old(out)@ + decimal_digits(n as nat),
    decreases n,
{
    if n < 10 {
        out.append(digit_str(n));
    } else {
        push_decimal(n / 10, out);
        out.append(digit_str(n % 10));
        proof {
            assert(final(out)@ =~= old(out)@ + decimal_digits(n as nat));
        }
    }
}

fn push_padded_three(m: usize, out: &mut String)
    requires
        m < 1000,
    ensures
        final(out)@ == old(out)@ + padded_three(m as nat),
{
    out.append(digit_str((m / 100) % 10));
    out.append(digit_str((m / 10) % 10));
    out.append(digit_str(m % 10));
    proof {
        assert(final(out)@ =~= old(out)@ + padded_three(m as nat));
    }
}

fn push_pretty(n: usize, out: &mut String)
    ensures
        final(out)@ == old(out)@ + pretty_digits(n as nat),
    decreases n,
{
    if n < 1000 {
        push_decimal(n, out);
    } else {
        proof {
            reveal_strlit(",");
        }
        push_pretty(n / 1000, out);
        out.append(",");
        push_padded_three(n % 1000, out);
        proof {
            assert(final(out)@ =~= old(out)@ + pretty_digits(n as nat));
        }
    }
}

/// Renders `n` in decimal with comma-separated thousands groups.
pub fn prettyprint_usize(n: usize) -> (r: String)
    ensures
        r@ == pretty_digits(n as nat),
{
    let mut out = String::new();
    push_pretty(n, &mut out);
    proof {
        assert(out@ =~= pretty_digits(n as nat));
    }
    out
}

/// Renders the signed difference between a live finished-trip count and the
/// baseline's count at the same time.
pub fn compare_count(after: usize, before: usize) -> (r: String)
    ensures
        r@ == delta_chars(after as nat, before as nat),
{
    proof {
        reveal_strlit("+");
        reveal_strlit("-");
    }
    let mut out = String::new();
    if after >= before {
        out.append("+");
        push_pretty(after - before, &mut out);
    } else {
        out.append("-");
        push_pretty(before - after, &mut out);
    }
    proof {
        assert(out@ =~= delta_chars(after as nat, before as nat));
    }
    out
}

/// `s` holds event times in nondecreasing order.
pub open spec fn time_ordered(s: Seq<u64>) -> bool {
    forall|i: int, j: int| 0 <= i <= j < s.len() ==> s[i] <= s[j]
}

/// How many events of `s` happened at or before time `t`.
pub open spec fn count_at_or_before(s: Seq<u64>, t: u64) -> nat
    decreases s.len(),
{
    if s.len() == 0 {
        0
    } else {
        count_at_or_before(s.drop_last(), t) + (if s.last() <= t {
            1nat
        } else {
            0nat
        })
    }
}

proof fn lemma_count_prefix(s: Seq<u64>, t: u64, k: int)
    requires
        time_ordered(s),
        0 <= k <= s.len(),
        forall|i: int| 0 <= i < k ==> s[i] <= t,
        k < s.len() ==> s[k] > t,
    ensures
        count_at_or_before(s, t) == k,
    decreases s.len(),
{
    if s.len() > 0 {
        let d = s.drop_last();
        assert(time_ordered(d)) by {
            assert(forall|i: int, j: int| 0 <= i <= j < d.len() ==> d[i] == s[i] && d[j] == s[j]);
        }
        if k == s.len() {
            assert(s.last() == s[s.len() - 1]);
            lemma_count_prefix(d, t, k - 1);
        } else {
            assert(s[s.len() - 1] >= s[k]);
            lemma_count_prefix(d, t, k);
        }
    }
}

/// Counts the baseline's finished trips at or before `t` by a forward scan
/// that stops at the first later event.
pub fn finished_before(trace: &Vec<u64>, t: u64) -> (r: usize)
    requires
        time_ordered(trace@),
    ensures
        r <= trace@.len(),
        r == count_at_or_before(trace@, t),
        forall|i: int| 0 <= i < trace@.len() ==> (trace@[i] <= t <==> i < r),
{
    let mut cnt: usize = 0;
    while cnt < trace.len() && trace[cnt] <= t
        invariant
            cnt <= trace@.len(),
            forall|i: int| 0 <= i < cnt ==> trace@[i] <= t,
        decreases trace@.len() - cnt,
    {
        cnt += 1;
    }
    proof {
        lemma_count_prefix(trace@, t, cnt as int);
        assert forall|i: int| 0 <= i < trace@.len() implies (trace@[i] <= t <==> i < cnt) by {
            if cnt <= i {
                assert(trace@[i] >= trace@[cnt as int]);
            }
        }
    }
    cnt
}

/// Compares the live finished-trip count at time `t` against a time-ordered
/// baseline trace, rendering the signed delta.
pub fn compare_to_baseline(trace: &Vec<u64>, t: u64, live: usize) -> (r: String)
    requires
        time_ordered(trace@),
    ensures
        r@ == delta_chars(live as nat, count_at_or_before(trace@, t)),
{
    let baseline = finished_before(trace, t);
    compare_count(live, baseline)
}

} // verus!
