//! Decimal text for integers: the digits a number is written with, and the
//! number a run of digits stands for.

use vstd::prelude::*;

verus! {

/// The byte `-`.
pub const MINUS: u8 = 45;

/// Whether `b` is one of the bytes `0` to `9`.
pub open spec fn is_digit(b: u8) -> bool {
    48 <= b <= 57
}

/// The digits of `n`, most significant first, without leading zeros.
pub open spec fn digits(n: nat) -> Seq<u8>
    decreases n,
{
    if n < 10 {
        seq![(48 + n) as u8]
    } else {
        digits(n / 10).push((48 + n % 10) as u8)
    }
}

/// The decimal text of `v`: a minus sign for a negative number, then its digits.
pub open spec fn decimal(v: int) -> Seq<u8> {
    if v < 0 {
        seq![45u8] + digits((-v) as nat)
    } else {
        digits(v as nat)
    }
}

/// The number that a sequence of digits stands for, leading zeros allowed.
pub open spec fn value_of(s: Seq<u8>) -> nat
    decreases s.len(),
{
    if s.len() == 0 {
        0
    } else {
        value_of(s.drop_last()) * 10 + (s.last() - 48) as nat
    }
}

/// How many digits stand in `w` from position `from` on, without a gap.
pub open spec fn digit_run(w: Seq<u8>, from: int) -> nat
    decreases w.len() - from,
{
    if 0 <= from < w.len() && is_digit(w[from]) {
        1 + digit_run(w, from + 1)
    } else {
        0
    }
}

/// The integer read at position `from` of `w` and the position after it: an
/// optional minus sign and the longest run of digits that follows. `None`
/// where no digit stands there or the number does not fit in an `i32`.
pub open spec fn parsed(w: Seq<u8>, from: int) -> Option<(int, int)> {
    let negative = 0 <= from < w.len() && w[from] == 45;
    let first = if negative {
        from + 1
    } else {
        from
    };
    let run = digit_run(w, first);
    let magnitude = value_of(w.subrange(first, first + run));
    let v = if negative {
        -magnitude
    } else {
        magnitude as int
    };
    if run == 0 || v < i32::MIN || v > i32::MAX {
        None
    } else {
        Some((v, first + run))
    }
}

/// `s` padded on the left with the byte `0` to at least `width` bytes.
pub open spec fn zero_padded(s: Seq<u8>, width: nat) -> Seq<u8> {
    if s.len() >= width {
        s
    } else {
        Seq::new((width - s.len()) as nat, |i: int| 48u8) + s
    }
}

pub proof fn lemma_digits_shape(n: nat)
    ensures
        digits(n).len() >= 1,
        forall|i: int| 0 <= i < digits(n).len() ==> is_digit(#[trigger] digits(n)[i]),
    decreases n,
{
    if n >= 10 {
        lemma_digits_shape(n / 10);
    }
}

pub proof fn lemma_value_of_digits(n: nat)
    ensures
        value_of(digits(n)) == n,
    decreases n,
{
    if n < 10 {
        let s = digits(n);
        assert(s.drop_last().len() == 0);
        assert(value_of(s.drop_last()) == 0);
    } else {
        lemma_value_of_digits(n / 10);
        let s = digits(n);
        assert(s.drop_last() =~= digits(n / 10));
    }
}

/// A prefix of a digit sequence stands for no larger a number than the whole.
pub proof fn lemma_value_of_prefix(s: Seq<u8>, k: int)
    requires
        0 <= k <= s.len(),
        forall|i: int| 0 <= i < s.len() ==> is_digit(#[trigger] s[i]),
    ensures
        value_of(s.subrange(0, k)) <= value_of(s),
    decreases s.len(),
{
    if k == s.len() {
        assert(s.subrange(0, k) =~= s);
    } else {
        lemma_value_of_prefix(s.drop_last(), k);
        assert(s.drop_last().subrange(0, k) =~= s.subrange(0, k));
    }
}

/// Where `len` digits stand at `from` and no digit follows them, the run is `len` long.
pub proof fn lemma_digit_run_exact(w: Seq<u8>, from: int, len: nat)
    requires
        0 <= from,
        from + len <= w.len(),
        forall|i: int| from <= i < from + len ==> is_digit(#[trigger] w[i]),
        from + len == w.len() || !is_digit(w[from + len]),
    ensures
        digit_run(w, from) == len,
    decreases len,
{
    if len > 0 {
        lemma_digit_run_exact(w, from + 1, (len - 1) as nat);
    }
}

/// The decimal text of an `i32` reads back as that number, wherever it stands,
/// provided that no digit follows it.
pub proof fn lemma_parsed_decimal(pre: Seq<u8>, v: int, rest: Seq<u8>)
    requires
        i32::MIN <= v <= i32::MAX,
        rest.len() == 0 || !is_digit(rest[0]),
    ensures
        parsed(pre + decimal(v) + rest, pre.len() as int) == Some(
            (v, (pre.len() + decimal(v).len()) as int),
        ),
{
    let w = pre + decimal(v) + rest;
    let from = pre.len() as int;
    let n: nat = if v < 0 {
        (-v) as nat
    } else {
        v as nat
    };
    lemma_digits_shape(n);
    lemma_value_of_digits(n);
    let first = if v < 0 {
        from + 1
    } else {
        from
    };
    assert(w[from] == decimal(v)[0]);
    assert(forall|i: int| first <= i < first + digits(n).len() ==> w[i] == digits(n)[i - first]);
    assert(first + digits(n).len() < w.len() ==> w[first + digits(n).len()] == rest[0]);
    lemma_digit_run_exact(w, first, digits(n).len());
    assert(w.subrange(first, first + digits(n).len()) =~= digits(n));
}

/// The decimal text of an `i32` holds digits and at most a leading minus sign.
pub proof fn lemma_decimal_shape(v: int)
    ensures
        decimal(v).len() >= 1,
        forall|i: int|
            0 <= i < decimal(v).len() ==> is_digit(#[trigger] decimal(v)[i]) || (i == 0
                && decimal(v)[i] == 45),
{
    let n: nat = if v < 0 {
        (-v) as nat
    } else {
        v as nat
    };
    lemma_digits_shape(n);
}

/// Appends the decimal text of `v` to `out`.
pub fn push_decimal(out: &mut Vec<u8>, v: i32)
    ensures
        final(out)@ == old(out)@ + decimal(v as int),
{
    let negative: bool = v < 0;
    let wide: i64 = v as i64;
    let magnitude: u64 = if negative {
        (0 - wide) as u64
    } else {
        wide as u64
    };
    let mut rest: u64 = magnitude;
    let mut low: Vec<u8> = Vec::new();
    while rest >= 10
        invariant
            digits(magnitude as nat) == digits(rest as nat) + low@.reverse(),
        decreases rest,
    {
        let d: u8 = (rest % 10) as u8;
        proof {
            let pushed = low@.push((48 + d) as u8);
            assert(pushed.reverse() =~= seq![(48 + d) as u8] + low@.reverse());
            assert(digits(rest as nat) == digits((rest / 10) as nat).push((48 + d) as u8));
            assert(digits((rest / 10) as nat).push((48 + d) as u8) + low@.reverse() =~= digits(
                (rest / 10) as nat,
            ) + pushed.reverse());
        }
        low.push(48 + d);
        rest = rest / 10;
    }
    if negative {
        out.push(MINUS);
    }
    out.push(48 + (rest as u8));
    let ghost head = out@;
    assert(head =~= old(out)@ + (if negative {
        seq![45u8]
    } else {
        Seq::<u8>::empty()
    }) + digits(rest as nat));
    let mut i: usize = low.len();
    while i > 0
        invariant
            i <= low.len(),
            out@ == head + low@.reverse().subrange(0, low.len() - i),
        decreases i,
    {
        i = i - 1;
        out.push(low[i]);
        assert(out@ =~= head + low@.reverse().subrange(0, low.len() - i));
    }
    assert(low@.reverse().subrange(0, low.len() as int) =~= low@.reverse());
    assert(out@ =~= old(out)@ + decimal(v as int));
}

/// Reads the integer at position `from` of `w`: see [`parsed`].
pub fn parse_decimal(w: &[u8], from: usize) -> (r: Option<(i32, usize)>)
    ensures
        match r {
            Some((v, end)) => parsed(w@, from as int) == Some((v as int, end as int)),
            None => parsed(w@, from as int) is None,
        },
{
    if from >= w.len() {
        return None;
    }
    let negative: bool = w[from] == MINUS;
    let first: usize = if negative {
        from + 1
    } else {
        from
    };
    let limit: u64 = if negative {
        2147483648
    } else {
        2147483647
    };
    let mut end: usize = first;
    let mut acc: u64 = 0;
    assert(w@.subrange(first as int, end as int).len() == 0);
    while end < w.len() && w[end] >= 48 && w[end] <= 57
        invariant
            first <= end <= w.len(),
            forall|i: int| first <= i < end ==> is_digit(#[trigger] w@[i]),
            acc == value_of(w@.subrange(first as int, end as int)),
            acc <= limit,
            from < w.len(),
            negative == (w@[from as int] == 45),
            first == if negative { from + 1 } else { from as int },
            limit == if negative { 2147483648u64 } else { 2147483647u64 },
        decreases w.len() - end,
    {
        let d: u64 = (w[end] - 48) as u64;
        let ghost before = w@.subrange(first as int, end as int);
        let ghost after = w@.subrange(first as int, end + 1);
        assert(after.drop_last() =~= before);
        assert(value_of(after) == acc * 10 + d);
        if acc * 10 + d > limit {
            proof {
                lemma_digit_run_covers(w@, first as int, (end + 1 - first) as nat);
                lemma_digit_run_digits(w@, first as int);
                let run = digit_run(w@, first as int);
                let whole = w@.subrange(first as int, first + run);
                assert forall|i: int| 0 <= i < whole.len() implies is_digit(
                    #[trigger] whole[i],
                ) by {
                    assert(whole[i] == w@[first + i]);
                }
                lemma_value_of_prefix(whole, end + 1 - first);
                assert(whole.subrange(0, end + 1 - first) =~= after);
            }
            return None;
        }
        acc = acc * 10 + d;
        end = end + 1;
    }
    proof {
        lemma_digit_run_exact(w@, first as int, (end - first) as nat);
    }
    if end == first {
        return None;
    }
    let v: i64 = if negative {
        0 - (acc as i64)
    } else {
        acc as i64
    };
    Some((v as i32, end))
}

/// A run of digits is at least as long as any stretch of digits at its start.
pub proof fn lemma_digit_run_covers(w: Seq<u8>, from: int, len: nat)
    requires
        0 <= from,
        from + len <= w.len(),
        forall|i: int| from <= i < from + len ==> is_digit(#[trigger] w[i]),
    ensures
        digit_run(w, from) >= len,
    decreases len,
{
    if len > 0 {
        lemma_digit_run_covers(w, from + 1, (len - 1) as nat);
    }
}

/// Every byte of a run of digits is a digit, and the run ends inside `w`.
pub proof fn lemma_digit_run_digits(w: Seq<u8>, from: int)
    requires
        0 <= from,
    ensures
        from + digit_run(w, from) <= w.len() || digit_run(w, from) == 0,
        forall|i: int| from <= i < from + digit_run(w, from) ==> is_digit(#[trigger] w[i]),
    decreases w.len() - from,
{
    if from < w.len() && is_digit(w[from]) {
        lemma_digit_run_digits(w, from + 1);
    }
}

} // verus!
