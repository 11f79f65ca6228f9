use vstd::prelude::*;
use vstd::string::StringSliceAdditionalSpecFns;
use crate::decimal::{
    all_digits, decimal, is_digit, lemma_decimal, lemma_numeral_decimal, numeral, parse_numeral,
    push_decimal,
};

verus! {

/// The ASCII code of `-`, between the first and the last byte of a range.
pub const DASH: u8 = 45;

/// The ASCII code of `/`, before the total length.
pub const SLASH: u8 = 47;

/// The byte range that a server declares for a partial response, from the
/// header text `bytes <start>-<end>/<total>`.
#[derive(Clone, Copy, Debug, PartialEq, Eq, Structural)]
pub struct ContentRange {
    pub start: u64,
    pub end: u64,
    pub total: u64,
}

/// Why a `Content-Range` header text was refused.
#[derive(Clone, Copy, Debug, PartialEq, Eq, Structural)]
pub enum RangeError {
    /// The text does not begin with `bytes `.
    MissingPrefix,
    /// The text after the prefix is not three numerals joined by `-` and `/`.
    BadFields,
    /// The numbers break `start <= end < total`.
    Unordered,
}

pub open spec fn range_unit() -> Seq<u8> {
    seq![98u8, 121u8, 116u8, 101u8, 115u8, 32u8]
}

/// The index of the first `c` in `s`, or -1 where there is none.
pub open spec fn first_index(s: Seq<u8>, c: u8) -> int
    decreases s.len(),
{
    if s.len() == 0 {
        -1
    } else if s[0] == c {
        0
    } else {
        let i = first_index(s.drop_first(), c);
        if i < 0 {
            -1
        } else {
            i + 1
        }
    }
}

/// What a `Content-Range` header text declares, or why it is refused.
pub open spec fn parse_spec(s: Seq<u8>) -> Result<ContentRange, RangeError> {
    if !(s.len() >= 6 && s.take(6) == range_unit()) {
        Err(RangeError::MissingPrefix)
    } else {
        let body = s.skip(6);
        let i = first_index(body, DASH);
        let rest = body.skip(i + 1);
        let j = first_index(rest, SLASH);
        if i < 0 || j < 0 {
            Err(RangeError::BadFields)
        } else {
            match (numeral(body.take(i)), numeral(rest.take(j)), numeral(rest.skip(j + 1))) {
                (Some(a), Some(b), Some(c)) => {
                    if a <= b && b < c {
                        Ok(ContentRange { start: a, end: b, total: c })
                    } else {
                        Err(RangeError::Unordered)
                    }
                },
                _ => Err(RangeError::BadFields),
            }
        }
    }
}

/// The header text that declares `start`, `end` and `total`.
pub open spec fn range_text(start: u64, end: u64, total: u64) -> Seq<u8> {
    range_unit() + decimal(start as nat) + seq![DASH] + decimal(end as nat) + seq![SLASH]
        + decimal(total as nat)
}

pub proof fn lemma_first_index(s: Seq<u8>, c: u8, i: int)
    requires
        0 <= i < s.len(),
        s[i] == c,
        forall|j: int| 0 <= j < i ==> s[j] != c,
    ensures
        first_index(s, c) == i,
    decreases i,
{
    if i > 0 {
        lemma_first_index(s.drop_first(), c, i - 1);
    }
}

pub proof fn lemma_no_index(s: Seq<u8>, c: u8)
    requires
        forall|j: int| 0 <= j < s.len() ==> s[j] != c,
    ensures
        first_index(s, c) == -1,
    decreases s.len(),
{
    if s.len() > 0 {
        lemma_no_index(s.drop_first(), c);
    }
}

proof fn lemma_first_after_digits(x: Seq<u8>, c: u8, y: Seq<u8>)
    requires
        all_digits(x),
        !is_digit(c),
    ensures
        first_index(x + seq![c] + y, c) == x.len(),
{
    let s = x + seq![c] + y;
    assert(s[x.len() as int] == c);
    assert forall|j: int| 0 <= j < x.len() implies s[j] != c by {
        assert(s[j] == x[j]);
    }
    lemma_first_index(s, c, x.len() as int);
}

/// Index of the first `c` in `s` at or after `from`.
fn find_byte(s: &[u8], from: usize, c: u8) -> (r: Option<usize>)
    requires
        from <= s@.len(),
    ensures
        match r {
            Some(k) => from <= k < s@.len() && first_index(s@.subrange(from as int, s@.len() as int), c)
                == k - from,
            None => first_index(s@.subrange(from as int, s@.len() as int), c) == -1,
        },
{
    let ghost t = s@.subrange(from as int, s@.len() as int);
    let mut k: usize = from;
    while k < s.len()
        invariant
            from <= k <= s@.len(),
            t == s@.subrange(from as int, s@.len() as int),
            forall|j: int| 0 <= j < k - from ==> t[j] != c,
        decreases s@.len() - k,
    {
        if s[k] == c {
            proof {
                lemma_first_index(t, c, k - from);
            }
            return Some(k);
        }
        k = k + 1;
    }
    proof {
        lemma_no_index(t, c);
    }
    None
}

impl ContentRange {
    /// Reads a `Content-Range` header text of the form `bytes <start>-<end>/<total>`.
    /// Each number is an optional `+` and decimal digits that fit in `u64`, and
    /// the three must satisfy `start <= end < total`.
    pub fn parse(s: &[u8]) -> (r: Result<ContentRange, RangeError>)
        ensures
            r == parse_spec(s@),
    {
        let n = s.len();
        if n < 6 || s[0] != 98 || s[1] != 121 || s[2] != 116 || s[3] != 101 || s[4] != 115 || s[5]
            != 32 {
            proof {
                if n >= 6 {
                    assert(s@.take(6)[0] == s[0]);
                    assert(s@.take(6)[1] == s[1]);
                    assert(s@.take(6)[2] == s[2]);
                    assert(s@.take(6)[3] == s[3]);
                    assert(s@.take(6)[4] == s[4]);
                    assert(s@.take(6)[5] == s[5]);
                }
            }
            return Err(RangeError::MissingPrefix);
        }
        assert(s@.take(6) =~= range_unit());
        let ghost body = s@.skip(6);
        assert(body =~= s@.subrange(6, n as int));
        let dash = find_byte(s, 6, DASH);
        let i = match dash {
            None => return Err(RangeError::BadFields),
            Some(i) => i,
        };
        let ghost rest = body.skip(i - 6 + 1);
        assert(rest =~= s@.subrange(i + 1, n as int));
        let slash = find_byte(s, i + 1, SLASH);
        let j = match slash {
            None => return Err(RangeError::BadFields),
            Some(j) => j,
        };
        assert(body.take(i - 6) =~= s@.subrange(6, i as int));
        assert(rest.take(j - (i + 1)) =~= s@.subrange(i + 1, j as int));
        assert(rest.skip(j - (i + 1) + 1) =~= s@.subrange(j + 1, n as int));
        let a = parse_numeral(s, 6, i);
        let b = parse_numeral(s, i + 1, j);
        let c = parse_numeral(s, j + 1, n);
        match (a, b, c) {
            (Some(a), Some(b), Some(c)) => {
                if a <= b && b < c {
                    Ok(ContentRange { start: a, end: b, total: c })
                } else {
                    Err(RangeError::Unordered)
                }
            },
            _ => Err(RangeError::BadFields),
        }
    }

    /// Reads a `Content-Range` header given as text; see [`ContentRange::parse`].
    pub fn from_str(s: &str) -> (r: Result<ContentRange, RangeError>)
        ensures
            r == parse_spec(s.spec_bytes()),
    {
        ContentRange::parse(s.as_bytes())
    }

    /// The header text that declares this range.
    pub fn to_bytes(&self) -> (r: Vec<u8>)
        ensures
            r@ == range_text(self.start, self.end, self.total),
    {
        let mut out: Vec<u8> = vec![98u8, 121u8, 116u8, 101u8, 115u8, 32u8];
        assert(out@ =~= range_unit());
        push_decimal(&mut out, self.start);
        out.push(DASH);
        push_decimal(&mut out, self.end);
        out.push(SLASH);
        push_decimal(&mut out, self.total);
        assert(out@ =~= range_text(self.start, self.end, self.total));
        out
    }
}

/// The header text that declares `start`, `end` and `total` reads back as
/// those three numbers where `start <= end < total`, and is refused as
/// unordered otherwise.
pub proof fn lemma_parse_range_text(start: u64, end: u64, total: u64)
    ensures
        parse_spec(range_text(start, end, total)) == (if start <= end && end < total {
            Ok::<ContentRange, RangeError>(ContentRange { start, end, total })
        } else {
            Err::<ContentRange, RangeError>(RangeError::Unordered)
        }),
{
    let da = decimal(start as nat);
    let db = decimal(end as nat);
    let dc = decimal(total as nat);
    lemma_decimal(start as nat);
    lemma_decimal(end as nat);
    lemma_decimal(total as nat);
    lemma_numeral_decimal(start);
    lemma_numeral_decimal(end);
    lemma_numeral_decimal(total);
    let s = range_text(start, end, total);
    assert(s.take(6) =~= range_unit());
    let body = s.skip(6);
    let tail = db + seq![SLASH] + dc;
    assert(body =~= da + seq![DASH] + tail);
    lemma_first_after_digits(da, DASH, tail);
    let i = first_index(body, DASH);
    assert(body.take(i) =~= da);
    let rest = body.skip(i + 1);
    assert(rest =~= db + seq![SLASH] + dc);
    lemma_first_after_digits(db, SLASH, dc);
    let j = first_index(rest, SLASH);
    assert(rest.take(j) =~= db);
    assert(rest.skip(j + 1) =~= dc);
}

} // verus!
