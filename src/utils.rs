//! Field decoders: trim a column, tell blank from malformed from a value.
use vstd::prelude::*;
use crate::error::{ErrorModel, IntErrorKind, TRFError, field_view, result_view};
use crate::text::{chars_of, is_blank, trim, trimmed};

verus! {

pub open spec fn is_digit(c: char) -> bool {
    0x30 <= (c as u32) <= 0x39
}

pub open spec fn digit_value(c: char) -> nat {
    ((c as u32) - 0x30) as nat
}

pub open spec fn all_digits(s: Seq<char>) -> bool {
    forall|i: int| 0 <= i < s.len() ==> is_digit(#[trigger] s[i])
}

/// The value of a string of decimal digits, most significant first.
pub open spec fn digits_value(s: Seq<char>) -> nat
    decreases s.len(),
{
    if s.len() == 0 {
        0
    } else {
        digits_value(s.drop_last()) * 10 + digit_value(s.last())
    }
}

/// The digits of an unsigned integer text: one leading `+` is allowed.
pub open spec fn unsigned_digits(s: Seq<char>) -> Seq<char> {
    if s.len() > 0 && s[0] == '+' {
        s.drop_first()
    } else {
        s
    }
}

/// Where the run of digits that starts at `i` ends.
pub open spec fn digit_run(d: Seq<char>, i: int) -> int
    decreases d.len() - i,
{
    if 0 <= i < d.len() && is_digit(d[i]) {
        digit_run(d, i + 1)
    } else {
        i
    }
}

/// An unsigned integer no larger than `max`, read from `s` as it stands,
/// left to right: the leading digits are read first, so that too large a
/// value is reported before a character that is not a digit.
pub open spec fn uint_of(s: Seq<char>, max: u64) -> Result<u64, ErrorModel> {
    let d = unsigned_digits(s);
    let j = digit_run(d, 0);
    if s.len() == 0 {
        Err(ErrorModel::IntParse(IntErrorKind::Empty))
    } else if d.len() == 0 {
        Err(ErrorModel::IntParse(IntErrorKind::InvalidDigit))
    } else if digits_value(d.subrange(0, j)) > max {
        Err(ErrorModel::IntParse(IntErrorKind::PosOverflow))
    } else if j < d.len() {
        Err(ErrorModel::IntParse(IntErrorKind::InvalidDigit))
    } else {
        Ok(digits_value(d) as u64)
    }
}

/// An optional integer column: blank, or an unsigned integer no larger than `max`.
pub open spec fn number_field(s: Seq<char>, max: u64) -> Result<Option<u64>, ErrorModel> {
    if is_blank(s) {
        Ok(None)
    } else {
        match uint_of(trim(s), max) {
            Ok(v) => Ok(Some(v)),
            Err(e) => Err(e),
        }
    }
}

pub proof fn lemma_digit_run_bounds(d: Seq<char>, i: int)
    requires
        0 <= i <= d.len(),
    ensures
        i <= digit_run(d, i) <= d.len(),
    decreases d.len() - i,
{
    if i < d.len() && is_digit(d[i]) {
        lemma_digit_run_bounds(d, i + 1);
    }
}

proof fn lemma_digit_run_digits(d: Seq<char>, i: int)
    requires
        0 <= i <= d.len(),
    ensures
        forall|k: int| i <= k < digit_run(d, i) ==> is_digit(#[trigger] d[k]),
        digit_run(d, i) < d.len() ==> !is_digit(d[digit_run(d, i)]),
    decreases d.len() - i,
{
    if i < d.len() && is_digit(d[i]) {
        lemma_digit_run_digits(d, i + 1);
    }
}

/// What [`uint_of`] gives: a value only for digits that fit, and for
/// digits alone, the value or an overflow.
pub proof fn lemma_uint_of(s: Seq<char>, max: u64)
    ensures
        uint_of(s, max) is Ok ==> s.len() > 0 && unsigned_digits(s).len() > 0 && all_digits(
            unsigned_digits(s),
        ) && digits_value(unsigned_digits(s)) <= max && uint_of(s, max)->Ok_0 == digits_value(
            unsigned_digits(s),
        ),
        s.len() > 0 && unsigned_digits(s).len() > 0 && all_digits(unsigned_digits(s)) ==> uint_of(
            s,
            max,
        ) == if digits_value(unsigned_digits(s)) > max {
            Err::<u64, ErrorModel>(ErrorModel::IntParse(IntErrorKind::PosOverflow))
        } else {
            Ok::<u64, ErrorModel>(digits_value(unsigned_digits(s)) as u64)
        },
{
    let d = unsigned_digits(s);
    lemma_digit_run_bounds(d, 0);
    lemma_digit_run_digits(d, 0);
    let j = digit_run(d, 0);
    if j == d.len() {
        assert(d.subrange(0, j) =~= d);
    }
    if all_digits(d) && j < d.len() {
        assert(is_digit(d[j]));
    }
}

proof fn lemma_digits_value_prefix(s: Seq<char>, j: int)
    requires
        0 <= j <= s.len(),
    ensures
        digits_value(s.subrange(0, j)) <= digits_value(s),
    decreases s.len(),
{
    if j < s.len() {
        lemma_digits_value_prefix(s.drop_last(), j);
        assert(s.drop_last().subrange(0, j) =~= s.subrange(0, j));
    } else {
        assert(s.subrange(0, j) =~= s);
    }
}

fn digit_of(c: char) -> (r: u64)
    requires
        is_digit(c),
    ensures
        r == digit_value(c),
{
    (c as u32 - 0x30) as u64
}

/// Reads an unsigned integer no larger than `max` from `s` as it stands
/// (no trimming).
pub fn parse_uint(s: &str, max: u64) -> (r: Result<u64, TRFError>)
    ensures
        result_view(r) == uint_of(s@, max),
{
    let cs = chars_of(s);
    let n = cs.len();
    if n == 0 {
        return Err(TRFError::ParseIntError(IntErrorKind::Empty));
    }
    let start: usize = if cs[0] == '+' { 1 } else { 0 };
    let ghost d = unsigned_digits(s@);
    assert(d =~= cs@.subrange(start as int, n as int));
    if start == n {
        return Err(TRFError::ParseIntError(IntErrorKind::InvalidDigit));
    }
    let mut acc: u64 = 0;
    let mut i: usize = start;
    while i < n
        invariant
            start <= i <= n == cs@.len(),
            cs@ == s@,
            d == unsigned_digits(s@),
            d == cs@.subrange(start as int, n as int),
            forall|k: int| 0 <= k < i - start ==> is_digit(#[trigger] d[k]),
            digit_run(d, 0) == digit_run(d, i - start),
            acc <= max,
            acc == digits_value(d.subrange(0, i - start)),
        decreases n - i,
    {
        let u = cs[i] as u32;
        assert(d[i - start] == cs@[i as int]);
        if !(0x30 <= u && u <= 0x39) {
            assert(!is_digit(d[i - start]));
            return Err(TRFError::ParseIntError(IntErrorKind::InvalidDigit));
        }
        let ghost p = d.subrange(0, i - start + 1);
        assert(p.drop_last() =~= d.subrange(0, i - start));
        assert(p.last() == cs@[i as int]);
        let v = digit_of(cs[i]);
        let next: u128 = acc as u128 * 10 + v as u128;
        if next > max as u128 {
            proof {
                let j = digit_run(d, 0);
                assert(digits_value(p) == acc * 10 + v);
                lemma_digit_run_bounds(d, i - start + 1);
                lemma_digits_value_prefix(d.subrange(0, j), i - start + 1);
                assert(d.subrange(0, j).subrange(0, i - start + 1) =~= p);
            }
            return Err(TRFError::ParseIntError(IntErrorKind::PosOverflow));
        }
        acc = next as u64;
        i = i + 1;
    }
    assert(d.subrange(0, n - start) =~= d);
    Ok(acc)
}

/// Decodes an optional integer column no larger than `max`: blank gives
/// `Ok(None)`, a malformed or too large value an error.
pub fn parse_number(value: &str, max: u64) -> (r: Result<Option<u64>, TRFError>)
    ensures
        field_view(r) == number_field(value@, max),
{
    let t = trimmed(value);
    if t.unicode_len() == 0 {
        return Ok(None);
    }
    match parse_uint(t, max) {
        Ok(v) => Ok(Some(v)),
        Err(e) => Err(e),
    }
}

} // verus!

verus! {

/// A value that a column decodes to, with the model of its decoder.
pub trait FieldValue: Sized + View {
    /// What decoding the text `s` (already trimmed) gives.
    spec fn decoded(s: Seq<char>) -> Result<Self::V, ErrorModel>;

    /// Decodes the text `s`, which the caller has trimmed.
    fn decode(s: &str) -> (r: Result<Self, TRFError>)
        ensures
            result_view(r) == Self::decoded(s@),
    ;
}

/// An optional column decoded by `T`: blank, or what `T` makes of the trimmed text.
pub open spec fn into_field<T: FieldValue>(s: Seq<char>) -> Result<Option<T::V>, ErrorModel> {
    if is_blank(s) {
        Ok(None)
    } else {
        match T::decoded(trim(s)) {
            Ok(v) => Ok(Some(v)),
            Err(e) => Err(e),
        }
    }
}

/// Decodes an optional column with `T`'s decoder: blank gives `Ok(None)`.
pub fn parse_into<T: FieldValue>(value: &str) -> (r: Result<Option<T>, TRFError>)
    ensures
        field_view(r) == into_field::<T>(value@),
{
    let t = trimmed(value);
    if t.unicode_len() == 0 {
        return Ok(None);
    }
    match T::decode(t) {
        Ok(v) => Ok(Some(v)),
        Err(e) => Err(e),
    }
}

} // verus!

verus! {

pub open spec fn ten_pow(n: nat) -> nat
    decreases n,
{
    if n == 0 {
        1
    } else {
        10 * ten_pow((n - 1) as nat)
    }
}

/// `n` digits hold a value below `10^n`.
pub proof fn lemma_digits_value_bound(s: Seq<char>)
    requires
        all_digits(s),
    ensures
        digits_value(s) < ten_pow(s.len()),
    decreases s.len(),
{
    if s.len() > 0 {
        assert(all_digits(s.drop_last()));
        lemma_digits_value_bound(s.drop_last());
        assert(is_digit(s[s.len() - 1]));
    }
}

} // verus!
