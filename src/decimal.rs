//! Reading decimal text as a fixed-point number in thousandths.
use vstd::prelude::*;
use vstd::string::StrSliceExecFns;

verus! {

/// `c` is one of the ten decimal digits.
pub open spec fn is_digit(c: char) -> bool {
    '0' <= c && c <= '9'
}

/// Every character is a decimal digit.
pub open spec fn all_digits(s: Seq<char>) -> bool {
    forall|i: int| 0 <= i < s.len() ==> is_digit(#[trigger] s[i])
}

/// The number that a string of digits spells.
pub open spec fn digits_value(s: Seq<char>) -> int
    decreases s.len(),
{
    if s.len() == 0 {
        0
    } else {
        digits_value(s.drop_last()) * 10 + (s.last() as int - '0' as int)
    }
}

/// A fraction's digits as thousandths: the first three digits, padded with
/// zeros; further digits are dropped.
pub open spec fn fraction_thousandths(f: Seq<char>) -> int {
    if f.len() >= 3 {
        digits_value(f.take(3))
    } else if f.len() == 2 {
        digits_value(f) * 10
    } else if f.len() == 1 {
        digits_value(f) * 100
    } else {
        0
    }
}

/// `b` is digits, a point at `p`, and digits, with at least one digit on each side.
pub open spec fn point_at(b: Seq<char>, p: int) -> bool {
    &&& 1 <= p
    &&& p + 1 < b.len()
    &&& b[p] == '.'
    &&& all_digits(b.take(p))
    &&& all_digits(b.skip(p + 1))
}

/// The unsigned value of `b` in thousandths: whole digits, or digits, a point and digits.
pub open spec fn magnitude(b: Seq<char>) -> Option<int> {
    if b.len() >= 1 && all_digits(b) {
        Some(digits_value(b) * 1000)
    } else if exists|p: int| point_at(b, p) {
        let p = choose|p: int| point_at(b, p);
        Some(digits_value(b.take(p)) * 1000 + fraction_thousandths(b.skip(p + 1)))
    } else {
        None
    }
}

/// The value of `s` in thousandths: an optional minus sign and an unsigned
/// decimal, whose magnitude is at most `i64::MAX`; `None` for any other text.
pub open spec fn decimal_value(s: Seq<char>) -> Option<int> {
    let neg = s.len() > 0 && s[0] == '-';
    let b = if neg { s.drop_first() } else { s };
    match magnitude(b) {
        Some(m) => if m <= i64::MAX {
            Some(if neg { -m } else { m })
        } else {
            None
        },
        None => None,
    }
}

proof fn lemma_digits_value_nonnegative(s: Seq<char>, i: int)
    requires
        all_digits(s),
        0 <= i <= s.len(),
    ensures
        0 <= digits_value(s.take(i)),
    decreases i,
{
    if i > 0 {
        lemma_digits_value_nonnegative(s, i - 1);
        assert(s.take(i).drop_last() =~= s.take(i - 1));
        assert(is_digit(s[i - 1]));
    }
}

proof fn lemma_digits_value_grows(s: Seq<char>, i: int, j: int)
    requires
        all_digits(s),
        0 <= i <= j <= s.len(),
    ensures
        0 <= digits_value(s.take(i)) <= digits_value(s.take(j)),
    decreases j - i,
{
    if i < j {
        lemma_digits_value_grows(s, i, j - 1);
        assert(s.take(j).drop_last() =~= s.take(j - 1));
        assert(is_digit(s[j - 1]));
    } else {
        lemma_digits_value_nonnegative(s, i);
    }
}

proof fn lemma_point_unique(b: Seq<char>, p: int, q: int)
    requires
        point_at(b, p),
        point_at(b, q),
    ensures
        p == q,
{
    if p < q {
        assert(b.take(q)[p] == b[p]);
    } else if q < p {
        assert(b.take(p)[q] == b[q]);
    }
}

proof fn lemma_whole_too_large(b: Seq<char>, k: int)
    requires
        0 < k <= b.len(),
        all_digits(b.take(k)),
        digits_value(b.take(k)) > i64::MAX,
    ensures
        magnitude(b) is None || magnitude(b)->Some_0 > i64::MAX,
{
    if b.len() >= 1 && all_digits(b) {
        assert(b.take(b.len() as int) =~= b);
        lemma_digits_value_grows(b, k, b.len() as int);
    } else if exists|p: int| point_at(b, p) {
        let p = choose|p: int| point_at(b, p);
        if p < k {
            assert(b.take(k)[p] == b[p]);
        }
        let t = b.take(p);
        assert(t.take(k) =~= b.take(k));
        lemma_digits_value_grows(t, k, p);
        assert(t.take(p) =~= t);
        lemma_fraction_nonnegative(b.skip(p + 1));
    }
}

proof fn lemma_fraction_nonnegative(f: Seq<char>)
    requires
        all_digits(f),
    ensures
        0 <= fraction_thousandths(f) <= 999,
{
    if f.len() >= 3 {
        digits_bounded(f.take(3));
    } else {
        digits_bounded(f);
    }
}

proof fn digits_bounded(f: Seq<char>)
    requires
        all_digits(f),
        f.len() <= 3,
    ensures
        0 <= digits_value(f) < (if f.len() == 0 { 1int } else if f.len() == 1 { 10int } else if f.len() == 2 { 100int } else { 1000int }),
    decreases f.len(),
{
    if f.len() > 0 {
        assert(all_digits(f.drop_last())) by {
            assert forall|i: int| 0 <= i < f.drop_last().len() implies is_digit(#[trigger] f.drop_last()[i]) by {
                assert(f.drop_last()[i] == f[i]);
            }
        }
        digits_bounded(f.drop_last());
        assert(is_digit(f[f.len() - 1]));
    }
}

proof fn lemma_no_point(b: Seq<char>, k: int)
    requires
        0 <= k < b.len(),
        all_digits(b.take(k)),
        !is_digit(b[k]),
        k == 0 || b[k] != '.' || k + 1 == b.len() || !all_digits(b.skip(k + 1)),
    ensures
        magnitude(b) is None,
{
    assert(!all_digits(b));
    if exists|p: int| point_at(b, p) {
        let p = choose|p: int| point_at(b, p);
        if p < k {
            assert(b.take(k)[p] == b[p]);
        } else if p > k {
            assert(b.take(p)[k] == b[k]);
        }
    }
}

proof fn lemma_point_value(b: Seq<char>, k: int)
    requires
        point_at(b, k),
    ensures
        magnitude(b) == Some(digits_value(b.take(k)) * 1000 + fraction_thousandths(b.skip(k + 1))),
{
    assert(!all_digits(b)) by {
        assert(!is_digit(b[k]));
    }
    let p = choose|p: int| point_at(b, p);
    lemma_point_unique(b, p, k);
}

/// Reads `s` as a decimal number in thousandths.
pub fn parse_thousandths(s: &str) -> (r: Option<i64>)
    ensures
        match r {
            Some(v) => decimal_value(s@) == Some(v as int),
            None => decimal_value(s@) is None,
        },
{
    let n = s.unicode_len();
    let neg = n > 0 && s.get_char(0) == '-';
    let start: usize = if neg { 1 } else { 0 };
    let ghost b = if neg { s@.drop_first() } else { s@ };
    assert(b =~= s@.skip(start as int));
    assert(b.take(0) =~= Seq::<char>::empty());
    let mut whole: u64 = 0;
    let mut i: usize = start;
    let mut stop: bool = false;
    while i < n && !stop
        invariant
            start <= i <= n,
            n == s@.len(),
            b == s@.skip(start as int),
            all_digits(b.take(i - start)),
            whole == digits_value(b.take(i - start)),
            whole <= i64::MAX,
            stop ==> i < n && !is_digit(b[i - start]),
            b == (if neg { s@.drop_first() } else { s@ }),
            start == (if neg { 1int } else { 0int }),
            neg == (n > 0 && s@[0] == '-'),
        decreases n - i + (if stop { 0int } else { 1int }),
    {
        let c = s.get_char(i);
        assert(c == b[i - start]);
        if !('0' <= c && c <= '9') {
            stop = true;
        } else {
            assert(b.take(i + 1 - start).drop_last() =~= b.take(i - start));
            assert(b.take(i + 1 - start).last() == c);
            assert(all_digits(b.take(i + 1 - start))) by {
                assert forall|j: int| 0 <= j < i + 1 - start implies is_digit(#[trigger] b.take(i + 1 - start)[j]) by {
                    if j < i - start {
                        assert(b.take(i + 1 - start)[j] == b.take(i - start)[j]);
                    }
                }
            }
            let d: u128 = (c as u32 - '0' as u32) as u128;
            let next: u128 = whole as u128 * 10 + d;
            if next > i64::MAX as u128 {
                proof {
                    lemma_whole_too_large(b, i + 1 - start);
                }
                return None;
            }
            whole = next as u64;
            i = i + 1;
        }
    }
    let k: usize = i - start;
    if k == 0 {
        proof {
            if exists|p: int| point_at(b, p) {
                let p = choose|p: int| point_at(b, p);
                assert(b.take(p)[0] == b[0]);
            }
        }
        return None;
    }
    if i == n {
        proof {
            assert(b.take(k as int) =~= b);
        }
        if whole > i64::MAX as u64 / 1000 {
            return None;
        }
        let m: i64 = (whole * 1000) as i64;
        return if neg { Some(-m) } else { Some(m) };
    }
    let c = s.get_char(i);
    assert(c == b[k as int]);
    if c != '.' {
        proof {
            lemma_no_point(b, k as int);
        }
        return None;
    }
    let ghost f = b.skip(k + 1);
    let first: usize = i + 1;
    let mut j: usize = first;
    let mut frac: u64 = 0;
    assert(f.take(0) =~= Seq::<char>::empty());
    while j < n
        invariant
            first == i + 1,
            first <= j <= n,
            n == s@.len(),
            i - start == k,
            b == s@.skip(start as int),
            f == b.skip(k + 1),
            1 <= k < b.len(),
            b[k as int] == '.',
            all_digits(b.take(k as int)),
            whole == digits_value(b.take(k as int)),
            whole <= i64::MAX,
            b == (if neg { s@.drop_first() } else { s@ }),
            start == (if neg { 1int } else { 0int }),
            neg == (n > 0 && s@[0] == '-'),
            all_digits(f.take(j - first)),
            frac == digits_value(f.take(if j - first < 3 { j - first } else { 3 })),
            frac < 1000,
        decreases n - j,
    {
        let c = s.get_char(j);
        assert(c == f[j - first]);
        if !('0' <= c && c <= '9') {
            proof {
                assert(!all_digits(f)) by {
                    assert(!is_digit(f[j - first]));
                }
                lemma_no_point(b, k as int);
            }
            return None;
        }
        let cnt: usize = j - first;
        assert(all_digits(f.take(cnt + 1))) by {
            assert forall|q: int| 0 <= q < cnt + 1 implies is_digit(#[trigger] f.take(cnt + 1)[q]) by {
                if q < cnt {
                    assert(f.take(cnt + 1)[q] == f.take(cnt as int)[q]);
                }
            }
        }
        if cnt < 3 {
            assert(f.take(cnt + 1).drop_last() =~= f.take(cnt as int));
            assert(f.take(cnt + 1).last() == c);
            proof {
                digits_bounded(f.take(cnt + 1));
            }
            frac = frac * 10 + (c as u32 - '0' as u32) as u64;
        }
        j = j + 1;
    }
    if j == first {
        proof {
            lemma_no_point(b, k as int);
        }
        return None;
    }
    let cnt: usize = j - first;
    let scaled: u64 = if cnt >= 3 { frac } else if cnt == 2 { frac * 10 } else { frac * 100 };
    proof {
        assert(f.take(cnt as int) =~= f);
        assert(point_at(b, k as int));
        lemma_point_value(b, k as int);
        assert(scaled == fraction_thousandths(f));
    }
    if whole > (i64::MAX as u64 - scaled) / 1000 {
        return None;
    }
    let m: i64 = (whole * 1000 + scaled) as i64;
    if neg { Some(-m) } else { Some(m) }
}

} // verus!
