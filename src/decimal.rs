use vstd::prelude::*;

verus! {

/// The ASCII code of `0`.
pub const ZERO: u8 = 48;

/// The ASCII code of `+`.
pub const PLUS: u8 = 43;

pub open spec fn is_digit(b: u8) -> bool {
    ZERO <= b && b <= 57
}

pub open spec fn all_digits(s: Seq<u8>) -> bool {
    forall|i: int| 0 <= i < s.len() ==> is_digit(#[trigger] s[i])
}

/// The number that a string of decimal digits denotes.
pub open spec fn digits_value(s: Seq<u8>) -> nat
    decreases s.len(),
{
    if s.len() == 0 {
        0
    } else {
        digits_value(s.drop_last()) * 10 + (s.last() - ZERO) as nat
    }
}

/// The digits of a numeral, with one leading `+` taken off.
pub open spec fn unsigned_digits(s: Seq<u8>) -> Seq<u8> {
    if s.len() > 0 && s[0] == PLUS {
        s.drop_first()
    } else {
        s
    }
}

/// The `u64` that a numeral denotes: an optional `+`, then at least one digit,
/// with a value that fits.
pub open spec fn numeral(s: Seq<u8>) -> Option<u64> {
    let d = unsigned_digits(s);
    if d.len() > 0 && all_digits(d) && digits_value(d) <= u64::MAX {
        Some(digits_value(d) as u64)
    } else {
        None
    }
}

/// The shortest decimal representation of `n`.
pub open spec fn decimal(n: nat) -> Seq<u8>
    decreases n,
{
    if n < 10 {
        seq![(n + ZERO) as u8]
    } else {
        decimal(n / 10).push((n % 10 + ZERO) as u8)
    }
}

pub proof fn lemma_prefix_value(d: Seq<u8>, m: int)
    requires
        0 <= m <= d.len(),
        all_digits(d),
    ensures
        digits_value(d.take(m)) <= digits_value(d),
    decreases d.len(),
{
    if m < d.len() {
        let p = d.drop_last();
        assert(p.take(m) =~= d.take(m));
        lemma_prefix_value(p, m);
    } else {
        assert(d.take(m) =~= d);
    }
}

pub proof fn lemma_decimal(n: nat)
    ensures
        decimal(n).len() > 0,
        all_digits(decimal(n)),
        digits_value(decimal(n)) == n,
        is_digit(decimal(n)[0]),
    decreases n,
{
    if n >= 10 {
        lemma_decimal(n / 10);
        let d = decimal(n);
        assert(d.drop_last() =~= decimal(n / 10));
        assert(d[0] == decimal(n / 10)[0]);
        assert(d.last() - ZERO == n % 10);
        assert(digits_value(d) == digits_value(decimal(n / 10)) * 10 + n % 10);
    } else {
        assert(decimal(n).drop_last() =~= Seq::<u8>::empty());
        assert(digits_value(Seq::<u8>::empty()) == 0);
        assert(decimal(n).last() - ZERO == n);
    }
}

/// A decimal representation reads back as the number it was made from.
pub proof fn lemma_numeral_decimal(n: u64)
    ensures
        numeral(decimal(n as nat)) == Some(n),
{
    lemma_decimal(n as nat);
}

/// Appends the decimal representation of `n` to `out`.
pub fn push_decimal(out: &mut Vec<u8>, n: u64)
    ensures
        final(out)@ == old(out)@ + decimal(n as nat),
    decreases n,
{
    if n >= 10 {
        push_decimal(out, n / 10);
    }
    out.push((n % 10) as u8 + ZERO);
    assert(final(out)@ =~= old(out)@ + decimal(n as nat));
}

/// Reads the numeral that `s` holds between `lo` and `hi`.
pub fn parse_numeral(s: &[u8], lo: usize, hi: usize) -> (r: Option<u64>)
    requires
        lo <= hi <= s@.len(),
    ensures
        r == numeral(s@.subrange(lo as int, hi as int)),
{
    let ghost f = s@.subrange(lo as int, hi as int);
    let mut start: usize = lo;
    if start < hi && s[start] == PLUS {
        start = start + 1;
    }
    let ghost d = s@.subrange(start as int, hi as int);
    assert(d =~= unsigned_digits(f));
    if start == hi {
        return None;
    }
    let mut value: u64 = 0;
    let mut k: usize = start;
    while k < hi
        invariant
            start <= k <= hi <= s@.len(),
            d == s@.subrange(start as int, hi as int),
            d == unsigned_digits(f),
            f == s@.subrange(lo as int, hi as int),
            all_digits(s@.subrange(start as int, k as int)),
            value as nat == digits_value(s@.subrange(start as int, k as int)),
        decreases hi - k,
    {
        let b = s[k];
        if b < ZERO || b > 57 {
            let ghost idx: int = k - start;
            assert(d[idx] == b);
            assert(!is_digit(d[idx]));
            return None;
        }
        let digit: u64 = (b - ZERO) as u64;
        let ghost next = s@.subrange(start as int, k + 1);
        assert(next.drop_last() =~= s@.subrange(start as int, k as int));
        assert(all_digits(next));
        assert(next.last() == b);
        assert(digits_value(next) == value * 10 + digit);
        if value > (u64::MAX - digit) / 10 {
            assert(value * 10 + digit > u64::MAX) by (nonlinear_arith)
                requires
                    value > (u64::MAX - digit) / 10,
                    digit <= 9,
            ;
            proof {
                if all_digits(d) {
                    assert(d.take(k + 1 - start) =~= next);
                    lemma_prefix_value(d, k + 1 - start);
                }
            }
            return None;
        }
        assert(value * 10 + digit <= u64::MAX) by (nonlinear_arith)
            requires
                value <= (u64::MAX - digit) / 10,
                digit <= 9,
        ;
        value = value * 10 + digit;
        k = k + 1;
    }
    assert(s@.subrange(start as int, k as int) =~= d);
    Some(value)
}

} // verus!
