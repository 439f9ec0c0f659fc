//! Character-level helpers shared by the reply grammar and the derivations:
//! turning text into characters, reading decimal numbers, and splitting on a
//! separator.
use vstd::prelude::*;

verus! {

/// The characters of `s`, in order.
pub fn chars_of(s: &str) -> (r: Vec<char>)
    ensures
        r@ == s@,
{
    let mut r: Vec<char> = Vec::new();
    let n = s.unicode_len();
    let mut i: usize = 0;
    while i < n
        invariant
            n == s@.len(),
            i <= n,
            r@ == s@.subrange(0, i as int),
        decreases n - i,
    {
        let c = s.get_char(i);
        r.push(c);
        i = i + 1;
        assert(r@ =~= s@.subrange(0, i as int));
    }
    assert(r@ =~= s@);
    r
}

pub open spec fn is_digit(c: char) -> bool {
    '0' <= c && c <= '9'
}

pub open spec fn digit_value(c: char) -> int {
    (c as int) - ('0' as int)
}

pub open spec fn all_digits(s: Seq<char>) -> bool {
    forall|i: int| 0 <= i < s.len() ==> is_digit(#[trigger] s[i])
}

/// The number that a string of decimal digits denotes.
pub open spec fn dec_value(s: Seq<char>) -> int
    decreases s.len(),
{
    if s.len() == 0 {
        0
    } else {
        10 * dec_value(s.drop_last()) + digit_value(s.last())
    }
}

/// A non-empty run of decimal digits whose value is at most `limit`.
pub open spec fn decimal_within(s: Seq<char>, limit: int) -> bool {
    s.len() > 0 && all_digits(s) && dec_value(s) <= limit
}

pub proof fn lemma_dec_value_nonneg(s: Seq<char>)
    requires
        all_digits(s),
    ensures
        dec_value(s) >= 0,
    decreases s.len(),
{
    if s.len() > 0 {
        assert(all_digits(s.drop_last()));
        lemma_dec_value_nonneg(s.drop_last());
        assert(is_digit(s[s.len() - 1]));
    }
}

/// Appending digits never makes the value smaller.
pub proof fn lemma_dec_value_grows(s: Seq<char>, k: int)
    requires
        all_digits(s),
        0 <= k <= s.len(),
    ensures
        dec_value(s.subrange(0, k)) <= dec_value(s),
    decreases s.len() - k,
{
    if k < s.len() {
        let p = s.subrange(0, k + 1);
        assert(p.drop_last() =~= s.subrange(0, k));
        assert(all_digits(s.subrange(0, k)));
        lemma_dec_value_nonneg(s.subrange(0, k));
        assert(is_digit(p.last()));
        lemma_dec_value_grows(s, k + 1);
    } else {
        assert(s.subrange(0, k) =~= s);
    }
}

/// Reads the digits `t[from..to]` as a number no larger than `limit`;
/// `None` when the range is empty, holds another character, or exceeds `limit`.
pub fn parse_decimal(t: &Vec<char>, from: usize, to: usize, limit: u64) -> (r: Option<u64>)
    requires
        from <= to <= t@.len(),
    ensures
        r is Some <==> decimal_within(t@.subrange(from as int, to as int), limit as int),
        r is Some ==> r->0 == dec_value(t@.subrange(from as int, to as int)),
{
    let ghost s = t@.subrange(from as int, to as int);
    if from == to {
        return None;
    }
    let mut v: u64 = 0;
    let mut i: usize = from;
    while i < to
        invariant
            from <= i <= to <= t@.len(),
            s == t@.subrange(from as int, to as int),
            all_digits(t@.subrange(from as int, i as int)),
            v == dec_value(t@.subrange(from as int, i as int)),
            v <= limit,
        decreases to - i,
    {
        let c = t[i];
        let ghost p = t@.subrange(from as int, i as int + 1);
        assert(p.drop_last() =~= t@.subrange(from as int, i as int));
        if !('0' <= c && c <= '9') {
            assert(!is_digit(s[i - from]));
            return None;
        }
        let d = (c as u32 - '0' as u32) as u64;
        assert(all_digits(p));
        if d > limit || v > (limit - d) / 10 {
            proof {
                assert(dec_value(p) == 10 * v + d);
                assert(dec_value(p) > limit) by (nonlinear_arith)
                    requires d > limit || v > (limit - d) / 10, v >= 0, d >= 0,
                        dec_value(p) == 10 * v + d;
                if all_digits(s) {
                    assert(p =~= s.subrange(0, i - from + 1));
                    lemma_dec_value_grows(s, i - from + 1);
                }
            }
            return None;
        }
        proof {
            assert(10 * v + d <= limit) by (nonlinear_arith)
                requires v <= (limit - d) / 10, d <= limit, v >= 0, d >= 0;
        }
        v = v * 10 + d;
        i = i + 1;
    }
    assert(t@.subrange(from as int, i as int) =~= s);
    Some(v)
}

/// Splits `s` at every `sep`: one piece more than there are separators.
pub open spec fn split_on(s: Seq<char>, sep: char) -> Seq<Seq<char>>
    decreases s.len(),
{
    if s.len() == 0 {
        seq![Seq::empty()]
    } else {
        let init = split_on(s.drop_last(), sep);
        if s.last() == sep {
            init.push(Seq::empty())
        } else {
            init.update(init.len() - 1, init.last().push(s.last()))
        }
    }
}

pub proof fn lemma_split_nonempty(s: Seq<char>, sep: char)
    ensures
        split_on(s, sep).len() >= 1,
    decreases s.len(),
{
    if s.len() > 0 {
        lemma_split_nonempty(s.drop_last(), sep);
    }
}

/// The boundaries of the pieces of `t[from..to]` split at `sep`.
pub fn split_spans(t: &Vec<char>, from: usize, to: usize, sep: char) -> (r: Vec<(usize, usize)>)
    requires
        from <= to <= t@.len(),
    ensures
        r@.len() == split_on(t@.subrange(from as int, to as int), sep).len(),
        forall|k: int|
            0 <= k < r@.len() ==> {
                &&& from <= (#[trigger] r@[k]).0 <= r@[k].1 <= to
                &&& t@.subrange(r@[k].0 as int, r@[k].1 as int) == split_on(
                    t@.subrange(from as int, to as int),
                    sep,
                )[k]
            },
{
    let mut r: Vec<(usize, usize)> = Vec::new();
    let mut start: usize = from;
    let mut i: usize = from;
    assert(t@.subrange(from as int, from as int) =~= Seq::<char>::empty());
    while i < to
        invariant
            from <= start <= i <= to <= t@.len(),
            r@.len() + 1 == split_on(t@.subrange(from as int, i as int), sep).len(),
            forall|k: int|
                0 <= k < r@.len() ==> {
                    &&& from <= (#[trigger] r@[k]).0 <= r@[k].1 <= i
                    &&& t@.subrange(r@[k].0 as int, r@[k].1 as int) == split_on(
                        t@.subrange(from as int, i as int),
                        sep,
                    )[k]
                },
            t@.subrange(start as int, i as int) == split_on(
                t@.subrange(from as int, i as int),
                sep,
            ).last(),
        decreases to - i,
    {
        let ghost pre = t@.subrange(from as int, i as int);
        let ghost next = t@.subrange(from as int, i as int + 1);
        assert(next.drop_last() =~= pre);
        proof {
            lemma_split_nonempty(pre, sep);
        }
        if t[i] == sep {
            r.push((start, i));
            start = i + 1;
            assert(t@.subrange(start as int, i as int + 1) =~= Seq::<char>::empty());
        } else {
            assert(t@.subrange(start as int, i as int + 1) =~= t@.subrange(
                start as int,
                i as int,
            ).push(t@[i as int]));
        }
        i = i + 1;
    }
    r.push((start, to));
    r
}

} // verus!
