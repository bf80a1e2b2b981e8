//! Amounts as decimal text: an optional sign, digits, and up to four
//! places after the point.

use vstd::prelude::*;
use crate::amount::{representable, units_of, Amount, UNITS_PER_WHOLE};

verus! {

/// The byte of the digit `0`; the other digits follow it in order.
pub const DIGIT_ZERO: u8 = 48;

/// The byte of the digit `9`.
pub const DIGIT_NINE: u8 = 57;

/// The byte of the decimal point, `.`.
pub const POINT: u8 = 46;

/// The byte of the sign `-`.
pub const MINUS: u8 = 45;

/// The byte of the sign `+`.
pub const PLUS: u8 = 43;

/// Whether `byte` is one of the ten digits.
pub open spec fn is_digit(byte: u8) -> bool {
    DIGIT_ZERO <= byte <= DIGIT_NINE
}

/// The number that the digits of `digits` write, the last digit counting
/// ones. Nothing is zero.
pub open spec fn number(digits: Seq<u8>) -> int
    decreases digits.len(),
{
    if digits.len() == 0 {
        0
    } else {
        10 * number(digits.drop_last()) + (digits.last() - DIGIT_ZERO)
    }
}

/// Whether `text` holds digits and nothing else. Holds of no text at all.
pub open spec fn all_digits(text: Seq<u8>) -> bool {
    forall|i: int| 0 <= i < text.len() ==> is_digit(#[trigger] text[i])
}

/// Whether `text` holds the digit `0` and nothing else.
pub open spec fn all_zeros(text: Seq<u8>) -> bool {
    forall|i: int| 0 <= i < text.len() ==> #[trigger] text[i] == DIGIT_ZERO
}

/// Where the first point of `text` stands, or the length of `text` where it
/// has none.
pub open spec fn point_of(text: Seq<u8>) -> int
    decreases text.len(),
{
    if text.len() == 0 || text[0] == POINT {
        0
    } else {
        1 + point_of(text.drop_first())
    }
}

/// How many units the digits after the point are worth: the first counts
/// thousands of units, the fourth units.
pub open spec fn fraction_units(places: Seq<u8>) -> int {
    if places.len() == 0 {
        0
    } else if places.len() == 1 {
        1000 * number(places)
    } else if places.len() == 2 {
        100 * number(places)
    } else if places.len() == 3 {
        10 * number(places)
    } else {
        number(places.take(4))
    }
}

/// The units that the digits after the point write. Places after the
/// fourth must be zeros: an amount has no smaller part.
pub open spec fn places_units(places: Seq<u8>) -> Option<int> {
    if all_digits(places) && (places.len() > 4 ==> all_zeros(places.skip(4))) {
        Some(fraction_units(places))
    } else {
        None
    }
}

/// The units that an unsigned decimal writes: digits, then perhaps a point
/// and more digits, with a digit on at least one side.
pub open spec fn magnitude(body: Seq<u8>) -> Option<int> {
    let point = point_of(body);
    let whole = body.take(point);
    let places = if point < body.len() {
        body.skip(point + 1)
    } else {
        Seq::empty()
    };
    if all_digits(whole) && places_units(places).is_some() && whole.len() + places.len() > 0 {
        Some(number(whole) * UNITS_PER_WHOLE + places_units(places).unwrap())
    } else {
        None
    }
}

/// The units that `text` writes as a decimal with an optional sign, where
/// it is one and an amount can hold it.
pub open spec fn parsed(text: Seq<u8>) -> Option<int> {
    let signed = text.len() > 0 && (text[0] == MINUS || text[0] == PLUS);
    let body = if signed {
        text.skip(1)
    } else {
        text
    };
    match magnitude(body) {
        Some(units) => {
            let value = if signed && text[0] == MINUS {
                -units
            } else {
                units
            };
            if representable(value) {
                Some(value)
            } else {
                None
            }
        },
        None => None,
    }
}

/// The byte of the digit that writes `value`, which is less than ten.
pub open spec fn digit_byte(value: int) -> u8 {
    (DIGIT_ZERO + value) as u8
}

/// The digits that write `value`, without a leading zero but for zero
/// itself.
pub open spec fn digits_of(value: nat) -> Seq<u8>
    decreases value,
{
    if value < 10 {
        seq![digit_byte(value as int)]
    } else {
        digits_of(value / 10).push(digit_byte(value as int % 10))
    }
}

/// The places after the point that write `units`, fewer than a whole:
/// four of them, without the zeros at their end, but one at least.
pub open spec fn places_of(units: nat) -> Seq<u8> {
    let all = seq![
        digit_byte(units as int / 1000),
        digit_byte(units as int / 100 % 10),
        digit_byte(units as int / 10 % 10),
        digit_byte(units as int % 10),
    ];
    if units % 1000 == 0 {
        all.take(1)
    } else if units % 100 == 0 {
        all.take(2)
    } else if units % 10 == 0 {
        all.take(3)
    } else {
        all
    }
}

/// The decimal that writes an amount of `units`: a minus sign where it is
/// less than nothing, the whole part, a point, and the places after it.
pub open spec fn rendered(units: int) -> Seq<u8> {
    let size = if units < 0 {
        -units
    } else {
        units
    };
    let sign = if units < 0 {
        seq![MINUS]
    } else {
        Seq::empty()
    };
    sign + digits_of((size / UNITS_PER_WHOLE as int) as nat) + seq![POINT] + places_of(
        (size % UNITS_PER_WHOLE as int) as nat,
    )
}

/// The point of `text` stands at `at` where no point stands before `at`
/// and one stands there, or the text ends there.
proof fn lemma_point_of(text: Seq<u8>, at: int)
    requires
        0 <= at <= text.len(),
        forall|i: int| 0 <= i < at ==> text[i] != POINT,
        at < text.len() ==> text[at] == POINT,
    ensures
        point_of(text) == at,
    decreases text.len(),
{
    if at > 0 {
        lemma_point_of(text.drop_first(), at - 1);
    }
}

/// One more digit at the end counts ten times what stood before, and
/// itself.
proof fn lemma_number_next(digits: Seq<u8>, length: int)
    requires
        0 <= length < digits.len(),
    ensures
        number(digits.take(length + 1)) == 10 * number(digits.take(length)) + (digits[length]
            - DIGIT_ZERO),
{
    assert(digits.take(length + 1).drop_last() =~= digits.take(length));
}

/// The digits of a number write no less than a part of them from the
/// start.
proof fn lemma_number_grows(digits: Seq<u8>, length: int)
    requires
        0 <= length <= digits.len(),
        all_digits(digits),
    ensures
        0 <= number(digits.take(length)) <= number(digits),
    decreases digits.len() - length,
{
    if length == digits.len() {
        assert(digits.take(length) =~= digits);
        lemma_number_positive(digits);
    } else {
        lemma_number_grows(digits, length + 1);
        lemma_number_next(digits, length);
        lemma_number_positive(digits.take(length));
    }
}

/// Digits write no less than nothing.
proof fn lemma_number_positive(digits: Seq<u8>)
    requires
        all_digits(digits),
    ensures
        0 <= number(digits),
    decreases digits.len(),
{
    if digits.len() > 0 {
        lemma_number_positive(digits.drop_last());
    }
}

/// Where the point of `text` stands, no point stands before it.
proof fn lemma_point_is_first(text: Seq<u8>)
    ensures
        0 <= point_of(text) <= text.len(),
        forall|i: int| 0 <= i < point_of(text) ==> text[i] != POINT,
        point_of(text) < text.len() ==> text[point_of(text)] == POINT,
    decreases text.len(),
{
    if !(text.len() == 0 || text[0] == POINT) {
        let rest = text.drop_first();
        lemma_point_is_first(rest);
        assert forall|i: int| 0 <= i < point_of(text) implies text[i] != POINT by {
            if i > 0 {
                assert(text[i] == rest[i - 1]);
            }
        }
    }
}

/// Places after the point are worth no less than nothing.
proof fn lemma_fraction_units_bounds(places: Seq<u8>)
    requires
        all_digits(places),
    ensures
        0 <= fraction_units(places),
{
    lemma_number_positive(places);
    if places.len() >= 4 {
        lemma_number_grows(places, 4);
    }
}

/// The most that the digits before the point can write in an amount: the
/// whole part of the largest amount.
pub const WHOLE_LIMIT: u64 = 922_337_203_685_477;

/// Digits before the point that write more than the limit write more than
/// an amount can hold, whatever follows them.
proof fn lemma_whole_too_large(body: Seq<u8>, length: int)
    requires
        0 <= length <= body.len(),
        all_digits(body.take(length)),
        number(body.take(length)) > WHOLE_LIMIT,
    ensures
        magnitude(body) matches Some(units) ==> units > i64::MAX,
{
    lemma_point_is_first(body);
    let point = point_of(body);
    let whole = body.take(point);
    if magnitude(body).is_some() {
        if point < length {
            assert(body.take(length)[point] == POINT);
            assert(is_digit(body.take(length)[point]));
        }
        assert(whole.take(length) =~= body.take(length));
        lemma_number_grows(whole, length);
        let places = if point < body.len() {
            body.skip(point + 1)
        } else {
            Seq::empty()
        };
        lemma_fraction_units_bounds(places);
    }
}

/// A byte that is neither a digit nor the point, after digits alone, makes
/// the text no decimal.
proof fn lemma_stray_byte(body: Seq<u8>, at: int)
    requires
        0 <= at < body.len(),
        all_digits(body.take(at)),
        !is_digit(body[at]),
        body[at] != POINT,
    ensures
        magnitude(body).is_none(),
{
    lemma_point_is_first(body);
    let point = point_of(body);
    if point < at {
        assert(body.take(at)[point] == POINT);
        assert(is_digit(body.take(at)[point]));
    }
    assert(body.take(point)[at] == body[at]);
}

/// The digits that write a number are digits, and write that number.
pub proof fn lemma_digits_of(value: nat)
    ensures
        digits_of(value).len() >= 1,
        all_digits(digits_of(value)),
        number(digits_of(value)) == value,
    decreases value,
{
    if value < 10 {
        assert(digits_of(value).drop_last() =~= Seq::<u8>::empty());
        assert(number(digits_of(value).drop_last()) == 0);
    } else {
        lemma_digits_of(value / 10);
        assert(digits_of(value).drop_last() =~= digits_of(value / 10));
    }
}

/// The places that write a part of a whole are digits, four at most, and
/// are worth that part.
pub proof fn lemma_places_of(units: nat)
    requires
        units < 10_000,
    ensures
        1 <= places_of(units).len() <= 4,
        places_units(places_of(units)) == Some(units as int),
{
    let places = places_of(units);
    let one = places.take(1);
    assert(one.drop_last() =~= Seq::<u8>::empty());
    assert(number(one.drop_last()) == 0);
    assert(number(one) == units / 1000);
    if places.len() >= 2 {
        lemma_number_next(places, 1);
        if places.len() >= 3 {
            lemma_number_next(places, 2);
            if places.len() >= 4 {
                lemma_number_next(places, 3);
            }
        }
    }
    assert(places.take(places.len() as int) =~= places);
}

/// What is rendered reads back as the same amount.
pub proof fn lemma_rendered_reads_back(units: int)
    requires
        representable(units),
    ensures
        parsed(rendered(units)) == Some(units),
{
    let size = if units < 0 {
        -units
    } else {
        units
    };
    let whole = digits_of((size / 10_000) as nat);
    let places = places_of((size % 10_000) as nat);
    let body = whole + seq![POINT] + places;
    let text = rendered(units);
    lemma_digits_of((size / 10_000) as nat);
    lemma_places_of((size % 10_000) as nat);
    if units < 0 {
        assert(text[0] == MINUS);
        assert(text.skip(1) =~= body);
    } else {
        assert(text =~= body);
        assert(text[0] == whole[0]);
        assert(is_digit(whole[0]));
    }
    assert forall|i: int| 0 <= i < whole.len() implies body[i] != POINT by {
        assert(body[i] == whole[i]);
        assert(is_digit(whole[i]));
    }
    assert(body[whole.len() as int] == POINT);
    lemma_point_of(body, whole.len() as int);
    assert(body.take(whole.len() as int) =~= whole);
    assert(body.skip(whole.len() as int + 1) =~= places);
}

fn is_digit_byte(byte: u8) -> (result: bool)
    ensures
        result == is_digit(byte),
{
    DIGIT_ZERO <= byte && byte <= DIGIT_NINE
}

/// One more digit after digits leaves digits.
proof fn lemma_digits_next(text: Seq<u8>, length: int)
    requires
        0 <= length < text.len(),
        all_digits(text.take(length)),
        is_digit(text[length]),
    ensures
        all_digits(text.take(length + 1)),
{
    assert forall|i: int| 0 <= i < length + 1 implies is_digit(
        #[trigger] text.take(length + 1)[i],
    ) by {
        if i < length {
            assert(text.take(length)[i] == text[i]);
        }
    }
}

/// Reads the digits of `text` from `start` on, up to the first byte that is
/// none. `Ok` has how many there are and the number they write. `Err` has
/// how many of them already write more than the limit.
fn read_whole(text: &[u8], start: usize) -> (result: Result<(usize, u64), usize>)
    requires
        start <= text@.len(),
    ensures
        match result {
            Ok((count, whole)) => {
                &&& start + count <= text@.len()
                &&& all_digits(text@.skip(start as int).take(count as int))
                &&& start + count < text@.len() ==> !is_digit(text@[start + count])
                &&& whole == number(text@.skip(start as int).take(count as int))
                &&& whole <= WHOLE_LIMIT
            },
            Err(count) => {
                &&& count <= text@.len() - start
                &&& all_digits(text@.skip(start as int).take(count as int))
                &&& number(text@.skip(start as int).take(count as int)) > WHOLE_LIMIT
            },
        },
{
    let length: usize = text.len();
    let ghost body: Seq<u8> = text@.skip(start as int);
    let mut at: usize = start;
    let mut whole: u64 = 0;
    while at < length && is_digit_byte(text[at])
        invariant
            start <= at <= length,
            length == text@.len(),
            body == text@.skip(start as int),
            all_digits(body.take(at - start)),
            whole == number(body.take(at - start)),
            whole <= WHOLE_LIMIT,
        decreases length - at,
    {
        let next: u64 = whole * 10 + (text[at] - DIGIT_ZERO) as u64;
        proof {
            lemma_number_next(body, at - start);
            lemma_digits_next(body, at - start);
        }
        if next > WHOLE_LIMIT {
            return Err(at - start + 1);
        }
        whole = next;
        at += 1;
    }
    Ok((at - start, whole))
}

/// Reads all of `text` from `first` on as the places after the point.
fn read_places(text: &[u8], first: usize) -> (result: Option<u64>)
    requires
        first <= text@.len(),
    ensures
        match result {
            Some(units) => places_units(text@.skip(first as int)) == Some(units as int) && units
                <= 9999,
            None => places_units(text@.skip(first as int)).is_none(),
        },
{
    let length: usize = text.len();
    let ghost places: Seq<u8> = text@.skip(first as int);
    let mut at: usize = first;
    let mut fraction: u64 = 0;
    while at < length
        invariant
            first <= at <= length,
            length == text@.len(),
            places == text@.skip(first as int),
            all_digits(places.take(at - first)),
            at - first <= 4 ==> fraction == number(places.take(at - first)),
            at - first > 4 ==> fraction == number(places.take(4)) && all_zeros(
                places.subrange(4, at - first),
            ),
            at - first == 0 ==> fraction == 0,
            at - first == 1 ==> fraction <= 9,
            at - first == 2 ==> fraction <= 99,
            at - first == 3 ==> fraction <= 999,
            fraction <= 9999,
        decreases length - at,
    {
        let byte: u8 = text[at];
        assert(byte == places[at - first]);
        if !is_digit_byte(byte) {
            return None;
        }
        if at - first < 4 {
            proof {
                lemma_number_next(places, at - first);
            }
            fraction = fraction * 10 + (byte - DIGIT_ZERO) as u64;
        } else if byte != DIGIT_ZERO {
            assert(places.skip(4)[at - first - 4] == byte);
            return None;
        }
        proof {
            lemma_digits_next(places, at - first);
            if at - first >= 4 {
                assert forall|i: int| 0 <= i < at - first + 1 - 4 implies (#[trigger] places.subrange(
                    4,
                    at - first + 1,
                )[i]) == DIGIT_ZERO by {
                    if i < at - first - 4 {
                        assert(places.subrange(4, at - first)[i] == places[4 + i]);
                    }
                }
            }
        }
        at += 1;
    }
    let count: usize = length - first;
    proof {
        assert(places.take(count as int) =~= places);
        if count > 4 {
            assert(places.subrange(4, count as int) =~= places.skip(4));
        }
    }
    let units: u64 = if count == 1 {
        fraction * 1000
    } else if count == 2 {
        fraction * 100
    } else if count == 3 {
        fraction * 10
    } else {
        fraction
    };
    Some(units)
}

/// Reads an unsigned decimal that stands in `text` from `start` on.
fn read_magnitude(text: &[u8], start: usize) -> (result: Option<u64>)
    requires
        start <= text@.len(),
    ensures
        match result {
            Some(units) => magnitude(text@.skip(start as int)) == Some(units as int) && units
                <= i64::MAX,
            None => magnitude(text@.skip(start as int)) matches Some(units) ==> units > i64::MAX,
        },
{
    let length: usize = text.len();
    let ghost body: Seq<u8> = text@.skip(start as int);
    let (whole_digits, whole) = match read_whole(text, start) {
        Ok(read) => read,
        Err(count) => {
            proof {
                lemma_whole_too_large(body, count as int);
            }
            return None;
        },
    };
    let at: usize = start + whole_digits;
    proof {
        assert forall|i: int| 0 <= i < whole_digits implies body[i] != POINT by {
            assert(is_digit(body.take(whole_digits as int)[i]));
        }
    }
    let (places_count, places_units): (usize, u64) = if at < length {
        if text[at] != POINT {
            proof {
                lemma_stray_byte(body, whole_digits as int);
            }
            return None;
        }
        proof {
            lemma_point_of(body, whole_digits as int);
            assert(body.skip(whole_digits + 1) =~= text@.skip(at + 1));
        }
        match read_places(text, at + 1) {
            Some(units) => (length - at - 1, units),
            None => {
                return None;
            },
        }
    } else {
        proof {
            lemma_point_of(body, whole_digits as int);
            assert(body.take(whole_digits as int) =~= body);
        }
        (0, 0)
    };
    if whole_digits + places_count == 0 {
        return None;
    }
    let units: u64 = whole * 10_000 + places_units;
    if units > i64::MAX as u64 {
        None
    } else {
        Some(units)
    }
}

/// Appends the digits that write `value`.
fn push_digits(out: &mut Vec<u8>, value: u64)
    ensures
        final(out)@ == old(out)@ + digits_of(value as nat),
    decreases value,
{
    if value >= 10 {
        push_digits(out, value / 10);
    }
    out.push(DIGIT_ZERO + (value % 10) as u8);
    proof {
        assert(final(out)@ =~= old(out)@ + digits_of(value as nat));
    }
}

/// Appends the places after the point that write `units`.
fn push_places(out: &mut Vec<u8>, units: u64)
    requires
        units < 10_000,
    ensures
        final(out)@ == old(out)@ + places_of(units as nat),
{
    out.push(DIGIT_ZERO + (units / 1000) as u8);
    if units % 1000 != 0 {
        out.push(DIGIT_ZERO + (units / 100 % 10) as u8);
        if units % 100 != 0 {
            out.push(DIGIT_ZERO + (units / 10 % 10) as u8);
            if units % 10 != 0 {
                out.push(DIGIT_ZERO + (units % 10) as u8);
            }
        }
    }
    proof {
        assert(final(out)@ =~= old(out)@ + places_of(units as nat));
    }
}

impl Amount {
    /// Writes the amount as a decimal: a minus sign where it is less than
    /// nothing, the whole part, a point, and up to four places, of which
    /// the zeros at the end are left out but for the first place.
    pub fn render(self) -> (result: Vec<u8>)
        ensures
            result@ == rendered(self@),
    {
        let units: i64 = self.units();
        let mut out: Vec<u8> = Vec::new();
        let size: u64 = if units < 0 {
            out.push(MINUS);
            (-units) as u64
        } else {
            units as u64
        };
        push_digits(&mut out, size / 10_000);
        out.push(POINT);
        push_places(&mut out, size % 10_000);
        proof {
            assert(out@ =~= rendered(self@));
        }
        out
    }

    /// Reads a decimal: an optional sign, digits, and perhaps a point and
    /// more digits, of which those after the fourth place must be zeros.
    /// `None` where `text` is no such decimal, or writes more than an
    /// amount can hold.
    pub fn parse(text: &[u8]) -> (result: Option<Amount>)
        ensures
            units_of(result) == parsed(text@),
    {
        let signed: bool = text.len() > 0 && (text[0] == MINUS || text[0] == PLUS);
        let start: usize = if signed {
            1
        } else {
            0
        };
        proof {
            assert(text@.skip(0) =~= text@);
        }
        match read_magnitude(text, start) {
            Some(units) => {
                let value: i64 = if signed && text[0] == MINUS {
                    -(units as i64)
                } else {
                    units as i64
                };
                Amount::from_units(value)
            },
            None => None,
        }
    }
}

} // verus!
