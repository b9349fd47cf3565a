//! Reading an amount from decimal text, as the bar store writes prices and
//! volumes: an optional sign, digits, and optionally a point and more
//! digits, with a digit on at least one side of the point. Digits beyond
//! the eighth decimal place are dropped.

use crate::amount::{narrow, narrow_raw, Amount, SCALE};
use crate::broker::pow10;
use vstd::prelude::*;
use vstd::string::StringSliceAdditionalSpecFns;

verus! {

pub const MINUS: u8 = 45;

pub const PLUS: u8 = 43;

pub const POINT: u8 = 46;

pub const ZERO: u8 = 48;

pub const NINE: u8 = 57;

/// Decimal places that an amount carries.
pub const PLACES: usize = 8;

/// Greatest whole part whose raw value can still be carried.
pub const WHOLE_LIMIT: u64 = 92_233_720_368;

pub open spec fn is_digit(b: u8) -> bool {
    ZERO <= b <= NINE
}

/// The value of a digit; zero for any other byte.
pub open spec fn digit_of(b: u8) -> nat {
    if is_digit(b) {
        (b - ZERO) as nat
    } else {
        0
    }
}

pub open spec fn all_digits(s: Seq<u8>) -> bool {
    forall|i: int| 0 <= i < s.len() ==> is_digit(#[trigger] s[i])
}

/// The number that a string of digits writes.
pub open spec fn digits_value(s: Seq<u8>) -> nat
    decreases s.len(),
{
    if s.len() == 0 {
        0
    } else {
        digits_value(s.drop_last()) * 10 + digit_of(s.last())
    }
}

/// The hundred-millionths that the digits after the point write: the first
/// eight count, and a shorter fraction is read as if followed by zeros.
pub open spec fn fraction_raw(s: Seq<u8>) -> nat {
    if s.len() >= PLACES {
        digits_value(s.take(PLACES as int))
    } else {
        digits_value(s) * pow10((PLACES - s.len()) as nat)
    }
}

/// Whether an unsigned number has its point at index `d`, with nothing but
/// digits on both sides and a digit on at least one.
pub open spec fn splits_at(body: Seq<u8>, d: int) -> bool {
    &&& 0 <= d < body.len()
    &&& body.len() >= 2
    &&& body[d] == POINT
    &&& all_digits(body.take(d))
    &&& all_digits(body.skip(d + 1))
}

/// The raw value that an unsigned decimal number writes, absent for text
/// that is not one.
pub open spec fn unsigned_raw(body: Seq<u8>) -> Option<nat> {
    if body.len() >= 1 && all_digits(body) {
        Some(digits_value(body) * (SCALE as nat))
    } else if exists|d: int| splits_at(body, d) {
        let d = choose|d: int| splits_at(body, d);
        Some(digits_value(body.take(d)) * (SCALE as nat) + fraction_raw(body.skip(d + 1)))
    } else {
        None
    }
}

/// The raw value that decimal text writes, absent for text that is not a
/// decimal number or whose value cannot be carried.
pub open spec fn decimal_raw(text: Seq<u8>) -> Option<int> {
    let signed = text.len() > 0 && (text[0] == MINUS || text[0] == PLUS);
    let body = if signed {
        text.skip(1)
    } else {
        text
    };
    match unsigned_raw(body) {
        Some(m) => if text[0] == MINUS {
            narrow(-(m as int))
        } else {
            narrow(m as int)
        },
        None => None,
    }
}

/// Reading one more digit multiplies what was read by ten and adds the
/// digit.
pub proof fn lemma_digits_extend(s: Seq<u8>, k: int)
    requires
        0 <= k < s.len(),
    ensures
        digits_value(s.take(k + 1)) == digits_value(s.take(k)) * 10 + digit_of(s[k]),
{
    assert(s.take(k + 1).drop_last() =~= s.take(k));
}

/// Only one index can split a number at its point.
pub proof fn lemma_split_is_unique(body: Seq<u8>, d: int, e: int)
    requires
        splits_at(body, d),
        splits_at(body, e),
    ensures
        d == e,
{
    if d < e {
        assert(body.take(e)[d] == body[d]);
    }
    if e < d {
        assert(body.take(d)[e] == body[e]);
    }
}

/// How far an unsigned number has been read.
struct Scan {
    /// The digits read so far as a number, valid while it is in range.
    value: u64,
    /// Whether the digits read so far write a number beyond the limit.
    beyond: bool,
    /// The index of the first byte that was not read.
    next: usize,
}

/// Reads the digits of the whole part from `from` on.
fn scan_whole(bytes: &[u8], from: usize) -> (r: Scan)
    requires
        from <= bytes.len(),
    ensures
        from <= r.next <= bytes.len(),
        all_digits(bytes@.subrange(from as int, r.next as int)),
        r.next < bytes.len() ==> !is_digit(bytes[r.next as int]),
        r.beyond ==> digits_value(bytes@.subrange(from as int, r.next as int)) > WHOLE_LIMIT,
        !r.beyond ==> r.value == digits_value(bytes@.subrange(from as int, r.next as int))
            && r.value <= WHOLE_LIMIT,
{
    let ghost body = bytes@.skip(from as int);
    let mut value: u64 = 0;
    let mut beyond = false;
    let mut i: usize = from;
    assert(body.take(0) =~= bytes@.subrange(from as int, from as int));
    while i < bytes.len() && bytes[i] >= ZERO && bytes[i] <= NINE
        invariant
            from <= i <= bytes.len(),
            body == bytes@.skip(from as int),
            all_digits(bytes@.subrange(from as int, i as int)),
            beyond ==> digits_value(body.take(i - from)) > WHOLE_LIMIT,
            !beyond ==> value == digits_value(body.take(i - from)) && value <= WHOLE_LIMIT,
        decreases bytes.len() - i,
    {
        proof {
            lemma_digits_extend(body, i - from);
            assert(body[i - from] == bytes[i as int]);
        }
        if !beyond {
            let wider: u64 = value * 10 + (bytes[i] - ZERO) as u64;
            if wider > WHOLE_LIMIT {
                beyond = true;
            } else {
                value = wider;
            }
        }
        i += 1;
        assert(all_digits(bytes@.subrange(from as int, i as int))) by {
            assert forall|k: int| 0 <= k < i - from implies is_digit(
                #[trigger] bytes@.subrange(from as int, i as int)[k],
            ) by {
                if k < i - from - 1 {
                    assert(bytes@.subrange(from as int, i - 1)[k] == bytes[from + k]);
                }
            }
        }
    }
    assert(body.take(i - from) =~= bytes@.subrange(from as int, i as int));
    Scan { value, beyond, next: i }
}

/// What was read of a fraction.
struct Fraction {
    /// The first eight digits as hundred-millionths.
    raw: u64,
    /// The index of the first byte that was not read.
    next: usize,
}

/// Reads the digits of the fraction from `from` on.
fn scan_fraction(bytes: &[u8], from: usize) -> (r: Fraction)
    requires
        from <= bytes.len(),
    ensures
        from <= r.next <= bytes.len(),
        all_digits(bytes@.subrange(from as int, r.next as int)),
        r.next < bytes.len() ==> !is_digit(bytes[r.next as int]),
        r.raw == fraction_raw(bytes@.subrange(from as int, r.next as int)),
        r.raw < SCALE,
{
    let ghost body = bytes@.skip(from as int);
    let mut raw: u64 = 0;
    let mut taken: usize = 0;
    let mut i: usize = from;
    assert(body.take(0) =~= Seq::<u8>::empty());
    assert(pow10(0) == 1 && pow10(PLACES as nat) == 100_000_000) by {
        reveal_with_fuel(pow10, 9);
    }
    while i < bytes.len() && bytes[i] >= ZERO && bytes[i] <= NINE
        invariant
            from <= i <= bytes.len(),
            body == bytes@.skip(from as int),
            all_digits(bytes@.subrange(from as int, i as int)),
            taken <= PLACES,
            taken == if i - from < PLACES {
                i - from
            } else {
                PLACES as int
            },
            raw == digits_value(body.take(taken as int)),
            raw < pow10(taken as nat),
            pow10(taken as nat) <= pow10(PLACES as nat) == 100_000_000,
        decreases bytes.len() - i,
    {
        if taken < PLACES {
            proof {
                lemma_digits_extend(body, taken as int);
                assert(body[taken as int] == bytes[i as int]);
                reveal_with_fuel(pow10, 2);
                assert(pow10((taken + 1) as nat) == 10 * pow10(taken as nat));
                lemma_pow10_grows((taken + 1) as nat, PLACES as nat);
            }
            raw = raw * 10 + (bytes[i] - ZERO) as u64;
            taken += 1;
        }
        i += 1;
        assert(all_digits(bytes@.subrange(from as int, i as int))) by {
            assert forall|k: int| 0 <= k < i - from implies is_digit(
                #[trigger] bytes@.subrange(from as int, i as int)[k],
            ) by {
                if k < i - from - 1 {
                    assert(bytes@.subrange(from as int, i - 1)[k] == bytes[from + k]);
                }
            }
        }
    }
    let ghost read = bytes@.subrange(from as int, i as int);
    assert(read.take(taken as int) =~= body.take(taken as int));
    let ghost digits = raw;
    let mut padded: usize = taken;
    assert(digits * pow10(0) == digits) by (nonlinear_arith)
        requires
            pow10(0) == 1,
    ;
    while padded < PLACES
        invariant
            taken <= padded <= PLACES,
            raw == digits * pow10((padded - taken) as nat),
            raw < pow10(padded as nat),
            pow10(PLACES as nat) == 100_000_000,
        decreases PLACES - padded,
    {
        proof {
            reveal_with_fuel(pow10, 2);
            assert(pow10((padded + 1 - taken) as nat) == 10 * pow10((padded - taken) as nat));
            assert(pow10((padded + 1) as nat) == 10 * pow10(padded as nat));
            lemma_pow10_grows((padded + 1) as nat, PLACES as nat);
            assert(digits * (10 * pow10((padded - taken) as nat)) == 10 * (digits * pow10(
                (padded - taken) as nat,
            ))) by (nonlinear_arith);
        }
        raw = raw * 10;
        padded += 1;
    }
    proof {
        if read.len() < PLACES {
            assert(read.take(taken as int) =~= read);
        }
    }
    Fraction { raw, next: i }
}

/// Powers of ten grow with the exponent.
pub proof fn lemma_pow10_grows(a: nat, b: nat)
    requires
        a <= b,
    ensures
        1 <= pow10(a) <= pow10(b),
    decreases b,
{
    if a == 0 && b == 0 {
    } else if a == b {
        lemma_pow10_grows((a - 1) as nat, (b - 1) as nat);
    } else {
        lemma_pow10_grows(a, (b - 1) as nat);
    }
}

/// Reads an unsigned decimal number that starts at `from`.
fn read_unsigned(bytes: &[u8], from: usize) -> (r: Option<u128>)
    requires
        from <= bytes.len(),
    ensures
        match unsigned_raw(bytes@.skip(from as int)) {
            Some(m) => if m <= i64::MAX + 1 {
                r == Some(m as u128)
            } else {
                r is None || (r matches Some(v) && v == m)
            },
            None => r is None,
        },
{
    let ghost body = bytes@.skip(from as int);
    let whole = scan_whole(bytes, from);
    let ghost whole_digits = bytes@.subrange(from as int, whole.next as int);
    assert(whole_digits =~= body.take(whole.next - from));
    if whole.next == bytes.len() {
        assert(body.take(whole.next - from) =~= body);
        if whole.next == from {
            assert(body.len() == 0);
            assert(forall|d: int| !splits_at(body, d));
            return None;
        }
        if whole.beyond {
            assert(digits_value(body) * (SCALE as nat) > i64::MAX + 1) by (nonlinear_arith)
                requires
                    digits_value(body) > WHOLE_LIMIT,
            ;
            return None;
        }
        assert(whole.value * (SCALE as u128) <= WHOLE_LIMIT * SCALE) by (nonlinear_arith)
            requires
                whole.value <= WHOLE_LIMIT,
        ;
        return Some(whole.value as u128 * SCALE as u128);
    }
    let at = whole.next;
    let ghost d = at - from;
    assert(body[d] == bytes[at as int]);
    assert(!all_digits(body));
    if bytes[at] != POINT {
        assert forall|e: int| !splits_at(body, e) by {
            if splits_at(body, e) {
                if e > d {
                    assert(body.take(e)[d] == body[d]);
                } else if e < d {
                    assert(whole_digits[e] == body[e]);
                }
            }
        }
        return None;
    }
    let fraction = scan_fraction(bytes, at + 1);
    let ghost fraction_digits = bytes@.subrange(at + 1, fraction.next as int);
    if fraction.next < bytes.len() {
        assert forall|e: int| !splits_at(body, e) by {
            if splits_at(body, e) {
                if e > d {
                    assert(body.take(e)[d] == body[d]);
                } else if e < d {
                    assert(whole_digits[e] == body[e]);
                } else {
                    assert(body.skip(d + 1)[fraction.next - at - 1] == bytes[
                        fraction.next as int
                    ]);
                }
            }
        }
        return None;
    }
    assert(fraction_digits =~= body.skip(d + 1));
    if bytes.len() - from < 2 {
        assert(forall|e: int| !splits_at(body, e));
        return None;
    }
    proof {
        assert(splits_at(body, d));
        lemma_split_is_unique(body, d, choose|e: int| splits_at(body, e));
    }
    if whole.beyond {
        assert(digits_value(body.take(d)) * (SCALE as nat) > i64::MAX + 1) by (nonlinear_arith)
            requires
                digits_value(body.take(d)) > WHOLE_LIMIT,
        ;
        return None;
    }
    assert(whole.value * (SCALE as u128) <= WHOLE_LIMIT * SCALE) by (nonlinear_arith)
        requires
            whole.value <= WHOLE_LIMIT,
    ;
    Some(whole.value as u128 * SCALE as u128 + fraction.raw as u128)
}

/// Reads an amount from the bytes of decimal text.
pub fn parse_decimal_bytes(bytes: &[u8]) -> (r: Option<Amount>)
    ensures
        r.deep_view() == decimal_raw(bytes@),
{
    let negative = bytes.len() > 0 && bytes[0] == MINUS;
    let signed = bytes.len() > 0 && (bytes[0] == MINUS || bytes[0] == PLUS);
    let from: usize = if signed {
        1
    } else {
        0
    };
    assert(bytes@.skip(0) =~= bytes@);
    match read_unsigned(bytes, from) {
        None => None,
        Some(m) => {
            if m > 0x8000_0000_0000_0000 {
                None
            } else if negative {
                narrow_raw(-(m as i128))
            } else {
                narrow_raw(m as i128)
            }
        },
    }
}

/// Reads an amount from decimal text.
pub fn parse_decimal(text: &str) -> (r: Option<Amount>)
    ensures
        r.deep_view() == decimal_raw(text.spec_bytes()),
{
    parse_decimal_bytes(text.as_bytes())
}

} // verus!
