//! Decimal numbers in PostgreSQL's binary form.
use crate::text::{
    all_digits, characters, digits_value, is_digit, only_digits, repeated, slice_text, split,
    split_on, texts,
};
use vstd::arithmetic::power::pow;
use vstd::prelude::*;

verus! {

/// Why a text is not written as a number.
#[derive(Debug, Clone, Copy, PartialEq, Eq, Structural)]
pub enum NumericError {
    /// It is not in decimal notation without an exponent.
    NotDecimal,
    /// It has more digits than the form can hold.
    OutOfRange,
}

/// A number by its sign and the digits before and after the point.
pub struct DecimalParts {
    pub negative: bool,
    pub integer: Seq<char>,
    pub fraction: Seq<char>,
}

/// The parts of a number in decimal notation: an optional sign, at least one digit, and digits
/// after a point, at most 32767 of them.
pub open spec fn decimal_parts(text: Seq<char>) -> Option<DecimalParts> {
    let signed = text.len() > 0 && (text[0] == '-' || text[0] == '+');
    let unsigned = if signed {
        text.subrange(1, text.len() as int)
    } else {
        text
    };
    let parts = split_on(unsigned, '.');
    let integer = parts[0];
    let fraction = if parts.len() > 1 {
        parts[1]
    } else {
        Seq::empty()
    };
    if parts.len() > 2 || integer.len() == 0 || !all_digits(integer) || !all_digits(fraction)
        || fraction.len() > 32767 {
        None
    } else {
        Some(
            DecimalParts { negative: signed && text[0] == '-', integer, fraction },
        )
    }
}

/// How many zeros complete a run of digits to groups of four.
pub open spec fn padding(length: nat) -> nat {
    ((4 - length % 4) % 4) as nat
}

/// All digits of a number, with zeros in front and behind that complete the groups of four on
/// both sides of the point.
pub open spec fn padded_digits(integer: Seq<char>, fraction: Seq<char>) -> Seq<char> {
    repeated('0', padding(integer.len())) + integer + fraction + repeated(
        '0',
        padding(fraction.len()),
    )
}

/// The values of the groups of four digits.
pub open spec fn groups_of_four(digits: Seq<char>) -> Seq<nat>
    decreases digits.len(),
{
    if digits.len() < 4 {
        Seq::empty()
    } else {
        groups_of_four(digits.subrange(0, digits.len() - 4)).push(
            digits_value(digits.subrange(digits.len() - 4, digits.len() as int)),
        )
    }
}

/// How many groups in front are zero.
pub open spec fn leading_zeros(groups: Seq<nat>) -> nat
    decreases groups.len(),
{
    if groups.len() == 0 || groups[0] != 0 {
        0
    } else {
        1 + leading_zeros(groups.subrange(1, groups.len() as int))
    }
}

/// Groups without the zeros at the end.
pub open spec fn without_trailing(groups: Seq<nat>) -> Seq<nat>
    decreases groups.len(),
{
    if groups.len() > 0 && groups.last() == 0 {
        without_trailing(groups.drop_last())
    } else {
        groups
    }
}

/// A number in PostgreSQL's form: its digits to the base 10000, the power of the first one, the
/// sign and the number of decimal digits after the point.
pub struct NumericModel {
    pub digits: Seq<nat>,
    pub weight: int,
    pub negative: bool,
    pub scale: nat,
}

/// The form of a number.
pub open spec fn numeric_model(parts: DecimalParts) -> NumericModel {
    let groups = groups_of_four(padded_digits(parts.integer, parts.fraction));
    let skipped = leading_zeros(groups);
    let digits = without_trailing(groups.subrange(skipped as int, groups.len() as int));
    let integer_groups = (padding(parts.integer.len()) + parts.integer.len()) / 4;
    NumericModel {
        digits,
        weight: if digits.len() == 0 {
            0
        } else {
            integer_groups - 1 - skipped
        },
        negative: parts.negative && digits.len() > 0,
        scale: parts.fraction.len(),
    }
}

/// Whether the form has room for a number: the counts of its groups fit in 16 bits with a sign.
pub open spec fn fits_form(parts: DecimalParts) -> bool {
    let groups = groups_of_four(padded_digits(parts.integer, parts.fraction));
    let skipped = leading_zeros(groups);
    &&& (padding(parts.integer.len()) + parts.integer.len()) / 4 <= 32767
    &&& skipped < groups.len() ==> skipped <= 32767
    &&& numeric_model(parts).digits.len() <= 32767
}

/// Two bytes, the higher one first, of a number that may be negative.
pub open spec fn two_bytes(number: int) -> Seq<u8> {
    let unsigned = if number < 0 {
        number + 65536
    } else {
        number
    };
    seq![(unsigned / 256) as u8].push((unsigned % 256) as u8)
}

/// The bytes of some digits.
pub open spec fn digit_bytes(digits: Seq<nat>) -> Seq<u8>
    decreases digits.len(),
{
    if digits.len() == 0 {
        Seq::empty()
    } else {
        digit_bytes(digits.drop_last()) + two_bytes(digits.last() as int)
    }
}

/// The bytes of a number's form.
pub open spec fn numeric_bytes(number: NumericModel) -> Seq<u8> {
    two_bytes(number.digits.len() as int) + two_bytes(number.weight) + two_bytes(
        if number.negative {
            0x4000
        } else {
            0
        },
    ) + two_bytes(number.scale as int) + digit_bytes(number.digits)
}

/// What writing a number gives.
pub open spec fn numeric_result(text: Seq<char>) -> Result<Seq<u8>, NumericError> {
    match decimal_parts(text) {
        None => Err(NumericError::NotDecimal),
        Some(parts) => if fits_form(parts) {
            Ok(numeric_bytes(numeric_model(parts)))
        } else {
            Err(NumericError::OutOfRange)
        },
    }
}

/// What some groups are.
pub open spec fn group_values(groups: Seq<u16>) -> Seq<nat> {
    Seq::new(groups.len(), |i: int| groups[i] as nat)
}

/// Appends two bytes of a number that may be negative.
fn push_two(out: &mut Vec<u8>, number: i32)
    requires
        -32768 <= number < 65536,
    ensures
        final(out)@ == old(out)@ + two_bytes(number as int),
{
    let unsigned: i32 = if number < 0 {
        number + 65536
    } else {
        number
    };
    out.push((unsigned / 256) as u8);
    out.push((unsigned % 256) as u8);
    assert(out@ =~= old(out)@ + two_bytes(number as int));
}

/// Groups digits by four.
fn group_by_four(digits: &Vec<char>) -> (result: Vec<u16>)
    requires
        all_digits(digits@),
        digits@.len() % 4 == 0,
    ensures
        group_values(result@) == groups_of_four(digits@),
        forall|i: int| 0 <= i < result@.len() ==> #[trigger] result@[i] < 10000,
        result@.len() * 4 == digits@.len(),
{
    let mut result: Vec<u16> = Vec::new();
    let mut i: usize = 0;
    assert(digits@.subrange(0, 0) =~= Seq::<char>::empty());
    assert(group_values(result@) =~= Seq::<nat>::empty());
    while i < digits.len()
        invariant
            i <= digits@.len(),
            i % 4 == 0,
            digits@.len() % 4 == 0,
            all_digits(digits@),
            result@.len() * 4 == i,
            group_values(result@) == groups_of_four(digits@.subrange(0, i as int)),
            forall|j: int| 0 <= j < result@.len() ==> #[trigger] result@[j] < 10000,
        decreases digits@.len() - i,
    {
        let ghost four = digits@.subrange(i as int, i + 4);
        let length: usize = digits.len();
        let mut value: u16 = 0;
        let mut k: usize = 0;
        assert(four.subrange(0, 0) =~= Seq::<char>::empty());
        while k < 4
            invariant
                k <= 4,
                i + 4 <= length,
                length == digits@.len(),
                all_digits(digits@),
                four == digits@.subrange(i as int, i + 4),
                value == digits_value(four.subrange(0, k as int)),
                k == 0 ==> value == 0,
                k == 1 ==> value < 10,
                k == 2 ==> value < 100,
                k == 3 ==> value < 1000,
                k == 4 ==> value < 10000,
            decreases 4 - k,
        {
            let c: char = digits[i + k];
            assert(is_digit(digits@[i + k]));
            let ghost next = four.subrange(0, k + 1);
            assert(next.drop_last() =~= four.subrange(0, k as int));
            assert(next.last() == c);
            let digit: u16 = (c as u32 - '0' as u32) as u16;
            value = value * 10 + digit;
            k = k + 1;
        }
        assert(four.subrange(0, 4) =~= four);
        let ghost shown = result@;
        let ghost longer = digits@.subrange(0, i + 4);
        assert(longer.subrange(0, longer.len() - 4) =~= digits@.subrange(0, i as int));
        assert(longer.subrange(longer.len() - 4, longer.len() as int) =~= four);
        result.push(value);
        assert(group_values(result@) =~= group_values(shown).push(value as nat));
        i = i + 4;
    }
    assert(digits@.subrange(0, i as int) =~= digits@);
    result
}

/// Appends zeros.
fn push_zeros(out: &mut Vec<char>, count: usize)
    ensures
        final(out)@ == old(out)@ + repeated('0', count as nat),
{
    let ghost before = out@;
    let mut i: usize = 0;
    assert(before + repeated('0', 0) =~= before);
    while i < count
        invariant
            i <= count,
            before == old(out)@,
            out@ == before + repeated('0', i as nat),
        decreases count - i,
    {
        let ghost shown = out@;
        out.push('0');
        i = i + 1;
        assert(out@ =~= before + repeated('0', i as nat));
    }
}

/// Appends characters.
fn push_all(out: &mut Vec<char>, chars: &Vec<char>)
    ensures
        final(out)@ == old(out)@ + chars@,
{
    let ghost before = out@;
    let mut i: usize = 0;
    assert(before + chars@.subrange(0, 0) =~= before);
    while i < chars.len()
        invariant
            i <= chars@.len(),
            before == old(out)@,
            out@ == before + chars@.subrange(0, i as int),
        decreases chars@.len() - i,
    {
        out.push(chars[i]);
        i = i + 1;
        assert(out@ =~= before + chars@.subrange(0, i as int));
    }
    assert(chars@.subrange(0, i as int) =~= chars@);
}

/// How many groups in front are zero.
fn count_leading(groups: &Vec<u16>) -> (result: usize)
    ensures
        result == leading_zeros(group_values(groups@)),
        result <= groups@.len(),
{
    let ghost all = group_values(groups@);
    let mut i: usize = 0;
    assert(all.subrange(0, all.len() as int) =~= all);
    while i < groups.len() && groups[i] == 0
        invariant
            i <= groups@.len(),
            all == group_values(groups@),
            leading_zeros(all) == i + leading_zeros(all.subrange(i as int, all.len() as int)),
        decreases groups@.len() - i,
    {
        let ghost rest = all.subrange(i as int, all.len() as int);
        assert(rest[0] == groups@[i as int]);
        assert(rest.subrange(1, rest.len() as int) =~= all.subrange(i + 1, all.len() as int));
        i = i + 1;
    }
    proof {
        let rest = all.subrange(i as int, all.len() as int);
        if rest.len() > 0 {
            assert(rest[0] == groups@[i as int]);
        }
    }
    i
}

/// Where the groups from `start` on end, without the zeros at the end.
fn find_end(groups: &Vec<u16>, start: usize) -> (result: usize)
    requires
        start <= groups@.len(),
    ensures
        start <= result <= groups@.len(),
        without_trailing(group_values(groups@).subrange(start as int, groups@.len() as int))
            == group_values(groups@).subrange(start as int, result as int),
{
    let ghost all = group_values(groups@);
    let mut end: usize = groups.len();
    while end > start && groups[end - 1] == 0
        invariant
            start <= end <= groups@.len(),
            all == group_values(groups@),
            without_trailing(all.subrange(start as int, groups@.len() as int))
                == without_trailing(all.subrange(start as int, end as int)),
        decreases end - start,
    {
        let ghost shown = all.subrange(start as int, end as int);
        assert(shown.last() == groups@[end - 1]);
        assert(shown.drop_last() =~= all.subrange(start as int, end - 1));
        end = end - 1;
    }
    proof {
        let shown = all.subrange(start as int, end as int);
        if shown.len() > 0 {
            assert(shown.last() == groups@[end - 1]);
        }
    }
    end
}

/// The groups of padded digits.
proof fn lemma_padded_digits(integer: Seq<char>, fraction: Seq<char>)
    requires
        all_digits(integer),
        all_digits(fraction),
    ensures
        all_digits(padded_digits(integer, fraction)),
        padded_digits(integer, fraction).len() % 4 == 0,
        padded_digits(integer, fraction).len() == padding(integer.len()) + integer.len()
            + fraction.len() + padding(fraction.len()),
        (padding(integer.len()) + integer.len()) % 4 == 0,
        (padding(fraction.len()) + fraction.len()) % 4 == 0,
        padding(integer.len()) < 4,
        padding(fraction.len()) < 4,
{
    let digits = padded_digits(integer, fraction);
    let a = padding(integer.len()) as int;
    let b = a + integer.len();
    let c = b + fraction.len();
    assert forall|i: int| 0 <= i < digits.len() implies is_digit(#[trigger] digits[i]) by {
        if i < a {
            assert(digits[i] == '0');
        } else if i < b {
            assert(digits[i] == integer[i - a]);
        } else if i < c {
            assert(digits[i] == fraction[i - b]);
        } else {
            assert(digits[i] == '0');
        }
    }
}

/// The parts of a number in decimal notation.
fn read_parts(text: &str) -> (result: Option<(bool, Vec<char>, Vec<char>)>)
    ensures
        match (result, decimal_parts(text@)) {
            (Some((negative, integer, fraction)), Some(wanted)) => {
                &&& negative == wanted.negative
                &&& integer@ == wanted.integer
                &&& fraction@ == wanted.fraction
                &&& all_digits(integer@)
                &&& all_digits(fraction@)
                &&& integer@.len() > 0
                &&& fraction@.len() <= 32767
            },
            (None, None) => true,
            _ => false,
        },
{
    let chars = characters(text);
    let signed = chars.len() > 0 && (chars[0] == '-' || chars[0] == '+');
    let negative = signed && chars[0] == '-';
    let unsigned = if signed {
        slice_text(&chars, 1, chars.len())
    } else {
        text.to_owned()
    };
    let parts = split(unsigned.as_str(), '.');
    assert(forall|i: int| 0 <= i < parts@.len() ==> #[trigger] texts(parts@)[i] == parts@[i]@);
    assert(texts(parts@).len() == parts@.len());
    if parts.len() > 2 {
        return None;
    }
    let integer = characters(parts[0].as_str());
    let fraction = if parts.len() > 1 {
        characters(parts[1].as_str())
    } else {
        Vec::new()
    };
    assert(parts@.len() <= 1 ==> fraction@ =~= Seq::<char>::empty());
    if integer.len() == 0 || !only_digits(&integer) || !only_digits(&fraction) || fraction.len()
        > 32767 {
        return None;
    }
    Some((negative, integer, fraction))
}

/// The groups of a number's padded digits.
fn build_groups(integer: &Vec<char>, fraction: &Vec<char>) -> (result: Vec<u16>)
    requires
        all_digits(integer@),
        all_digits(fraction@),
    ensures
        group_values(result@) == groups_of_four(padded_digits(integer@, fraction@)),
        forall|i: int| 0 <= i < result@.len() ==> #[trigger] result@[i] < 10000,
{
    let integer_padding: usize = (4 - integer.len() % 4) % 4;
    let fraction_padding: usize = (4 - fraction.len() % 4) % 4;
    proof {
        lemma_padded_digits(integer@, fraction@);
    }
    let mut digits: Vec<char> = Vec::new();
    push_zeros(&mut digits, integer_padding);
    push_all(&mut digits, integer);
    push_all(&mut digits, fraction);
    push_zeros(&mut digits, fraction_padding);
    assert(digits@ =~= padded_digits(integer@, fraction@));
    group_by_four(&digits)
}

/// Writes the bytes of a number's form, whose digits stand in `groups` from `start` to `end`.
fn write_form(
    groups: &Vec<u16>,
    start: usize,
    end: usize,
    weight: i32,
    negative: bool,
    scale: usize,
) -> (result: Vec<u8>)
    requires
        start <= end <= groups@.len(),
        end - start <= 32767,
        -32768 <= weight <= 32767,
        scale <= 32767,
        forall|i: int| 0 <= i < groups@.len() ==> #[trigger] groups@[i] < 10000,
    ensures
        result@ == numeric_bytes(
            NumericModel {
                digits: group_values(groups@).subrange(start as int, end as int),
                weight: weight as int,
                negative,
                scale: scale as nat,
            },
        ),
{
    let ghost digit_values = group_values(groups@);
    let mut out: Vec<u8> = Vec::new();
    push_two(&mut out, (end - start) as i32);
    push_two(&mut out, weight);
    push_two(
        &mut out,
        if negative {
            0x4000
        } else {
            0
        },
    );
    push_two(&mut out, scale as i32);
    let ghost header = out@;
    assert(header =~= two_bytes(end - start) + two_bytes(weight as int) + two_bytes(
        if negative {
            0x4000
        } else {
            0
        },
    ) + two_bytes(scale as int));
    let mut i: usize = start;
    assert(digit_values.subrange(start as int, start as int) =~= Seq::<nat>::empty());
    assert(header + Seq::<u8>::empty() =~= header);
    while i < end
        invariant
            start <= i <= end <= groups@.len(),
            digit_values == group_values(groups@),
            forall|j: int| 0 <= j < groups@.len() ==> #[trigger] groups@[j] < 10000,
            out@ == header + digit_bytes(digit_values.subrange(start as int, i as int)),
        decreases end - i,
    {
        let ghost shown = digit_values.subrange(start as int, i as int);
        let ghost next = digit_values.subrange(start as int, i + 1);
        assert(next.drop_last() =~= shown);
        assert(next.last() == groups@[i as int]);
        push_two(&mut out, groups[i] as i32);
        assert(out@ =~= header + (digit_bytes(shown) + two_bytes(next.last() as int)));
        i = i + 1;
    }
    out
}

/// Writes a decimal number in PostgreSQL's binary form.
pub fn encode_pg_numeric(text: &str) -> (result: Result<Vec<u8>, NumericError>)
    ensures
        match (result, numeric_result(text@)) {
            (Ok(bytes), Ok(wanted)) => bytes@ == wanted,
            (Err(error), Err(wanted)) => error == wanted,
            _ => false,
        },
{
    let (negative, integer, fraction) = match read_parts(text) {
        None => {
            return Err(NumericError::NotDecimal);
        },
        Some(parts) => parts,
    };
    let ghost parts = decimal_parts(text@)->0;
    let integer_groups: usize = if integer.len() % 4 == 0 {
        integer.len() / 4
    } else {
        integer.len() / 4 + 1
    };
    assert(integer_groups == (padding(parts.integer.len()) + parts.integer.len()) / 4);
    if integer_groups > 32767 {
        return Err(NumericError::OutOfRange);
    }
    let groups = build_groups(&integer, &fraction);
    let skipped: usize = count_leading(&groups);
    if skipped < groups.len() && skipped > 32767 {
        return Err(NumericError::OutOfRange);
    }
    let end: usize = find_end(&groups, skipped);
    let count: usize = end - skipped;
    let ghost wanted = numeric_model(parts);
    assert(wanted.digits == group_values(groups@).subrange(skipped as int, end as int));
    if count > 32767 {
        return Err(NumericError::OutOfRange);
    }
    let weight: i32 = if count == 0 {
        0
    } else {
        integer_groups as i32 - 1 - skipped as i32
    };
    Ok(write_form(&groups, skipped, end, weight, negative && count > 0, fraction.len()))
}

/// The number that digits to the base 10000 denote.
pub open spec fn group_number(groups: Seq<nat>) -> nat
    decreases groups.len(),
{
    if groups.len() == 0 {
        0
    } else {
        group_number(groups.drop_last()) * 10000 + groups.last()
    }
}

/// Digits followed by others denote the first number shifted by the length of the others, plus
/// the number of the others.
proof fn lemma_digits_concat(left: Seq<char>, right: Seq<char>)
    ensures
        digits_value(left + right) == digits_value(left) * pow(10, right.len()) + digits_value(
            right,
        ),
    decreases right.len(),
{
    if right.len() == 0 {
        assert(left + right =~= left);
        vstd::arithmetic::power::lemma_pow0(10);
    } else {
        let shorter = right.drop_last();
        lemma_digits_concat(left, shorter);
        assert((left + right).drop_last() =~= left + shorter);
        assert((left + right).last() == right.last());
        reveal(pow);
        let a = digits_value(left) as int;
        let p = pow(10, shorter.len());
        let b = digits_value(shorter) as int;
        assert(pow(10, right.len()) == 10 * p);
        assert((a * p + b) * 10 == a * (10 * p) + b * 10) by (nonlinear_arith);
    }
}

/// Zeros denote nothing.
proof fn lemma_zeros(count: nat)
    ensures
        digits_value(repeated('0', count)) == 0,
    decreases count,
{
    if count > 0 {
        assert(repeated('0', count).drop_last() =~= repeated('0', (count - 1) as nat));
        lemma_zeros((count - 1) as nat);
    }
}

/// Groups of four digits denote the number that the digits denote.
proof fn lemma_groups_of_four(digits: Seq<char>)
    requires
        digits.len() % 4 == 0,
    ensures
        group_number(groups_of_four(digits)) == digits_value(digits),
        groups_of_four(digits).len() * 4 == digits.len(),
    decreases digits.len(),
{
    if digits.len() >= 4 {
        let before = digits.subrange(0, digits.len() - 4);
        let four = digits.subrange(digits.len() - 4, digits.len() as int);
        lemma_groups_of_four(before);
        lemma_digits_concat(before, four);
        assert(before + four =~= digits);
        assert(pow(10, 4) == 10000) by {
            reveal_with_fuel(pow, 5);
        }
        assert(groups_of_four(digits).drop_last() =~= groups_of_four(before));
    } else {
        assert(digits =~= Seq::<char>::empty());
    }
}

/// Leading zeros do not change the number.
proof fn lemma_leading_zeros(groups: Seq<nat>)
    ensures
        leading_zeros(groups) <= groups.len(),
        group_number(groups.subrange(leading_zeros(groups) as int, groups.len() as int))
            == group_number(groups),
    decreases groups.len(),
{
    if groups.len() > 0 && groups[0] == 0 {
        let rest = groups.subrange(1, groups.len() as int);
        lemma_leading_zeros(rest);
        lemma_first_zero(groups);
        assert(rest.subrange(leading_zeros(rest) as int, rest.len() as int) =~= groups.subrange(
            leading_zeros(groups) as int,
            groups.len() as int,
        ));
    } else {
        assert(groups.subrange(0, groups.len() as int) =~= groups);
    }
}

/// A zero in front does not change the number.
proof fn lemma_first_zero(groups: Seq<nat>)
    requires
        groups.len() > 0,
        groups[0] == 0,
    ensures
        group_number(groups) == group_number(groups.subrange(1, groups.len() as int)),
    decreases groups.len(),
{
    let rest = groups.subrange(1, groups.len() as int);
    if groups.len() == 1 {
        assert(groups.drop_last() =~= Seq::<nat>::empty());
        assert(rest =~= Seq::<nat>::empty());
        assert(group_number(groups.drop_last()) == 0);
    } else {
        lemma_first_zero(groups.drop_last());
        assert(rest.drop_last() =~= groups.drop_last().subrange(1, groups.len() - 1));
        assert(rest.last() == groups.last());
    }
}

/// Each zero at the end stands for a factor of 10000.
proof fn lemma_trailing_zeros(groups: Seq<nat>)
    ensures
        without_trailing(groups).len() <= groups.len(),
        group_number(without_trailing(groups)) * pow(
            10000,
            (groups.len() - without_trailing(groups).len()) as nat,
        ) == group_number(groups),
    decreases groups.len(),
{
    vstd::arithmetic::power::lemma_pow0(10000);
    if groups.len() > 0 && groups.last() == 0 {
        let shorter = groups.drop_last();
        lemma_trailing_zeros(shorter);
        let kept = without_trailing(groups).len();
        let removed = (shorter.len() - kept) as nat;
        reveal(pow);
        let value = group_number(without_trailing(shorter)) as int;
        let p = pow(10000, removed);
        assert(pow(10000, (removed + 1) as nat) == 10000 * p);
        assert(value * (10000 * p) == (value * p) * 10000) by (nonlinear_arith);
    }
}

/// No digit is lost: the digits to the base 10000, shifted by the groups of zeros that were left
/// out at the end, denote the number's decimal digits, shifted by the zeros that complete its
/// last group; and the weight puts the first digit where the point requires it.
pub proof fn lemma_numeric_is_lossless(parts: DecimalParts)
    requires
        all_digits(parts.integer),
        all_digits(parts.fraction),
        parts.integer.len() > 0,
    ensures
        ({
            let number = numeric_model(parts);
            let fraction_groups = (padding(parts.fraction.len()) + parts.fraction.len()) / 4;
            let left_out = if number.digits.len() == 0 {
                0
            } else {
                fraction_groups + number.weight + 1 - number.digits.len()
            };
            &&& left_out >= 0
            &&& number.digits.len() > 0 ==> group_number(number.digits) * pow(
                10000,
                left_out as nat,
            ) == digits_value(parts.integer + parts.fraction) * pow(
                10,
                padding(parts.fraction.len()),
            )
            &&& number.digits.len() == 0 ==> digits_value(parts.integer + parts.fraction) * pow(
                10,
                padding(parts.fraction.len()),
            ) == 0
            &&& number.scale == parts.fraction.len()
        }),
{
    let digits = padded_digits(parts.integer, parts.fraction);
    let zeros = repeated('0', padding(parts.integer.len()));
    let shift = repeated('0', padding(parts.fraction.len()));
    let both = parts.integer + parts.fraction;
    lemma_padded_digits(parts.integer, parts.fraction);
    lemma_groups_of_four(digits);
    assert(digits =~= zeros + (both + shift));
    lemma_digits_concat(zeros, both + shift);
    lemma_digits_concat(both, shift);
    lemma_zeros(padding(parts.integer.len()));
    lemma_zeros(padding(parts.fraction.len()));
    assert(0 * pow(10, (both + shift).len()) == 0);
    assert(digits_value(digits) == digits_value(both) * pow(10, padding(parts.fraction.len())));
    let groups = groups_of_four(digits);
    lemma_leading_zeros(groups);
    let skipped = leading_zeros(groups);
    let rest = groups.subrange(skipped as int, groups.len() as int);
    lemma_trailing_zeros(rest);
    let number = numeric_model(parts);
    let integer_groups = (padding(parts.integer.len()) + parts.integer.len()) / 4;
    let fraction_groups = (padding(parts.fraction.len()) + parts.fraction.len()) / 4;
    assert(groups.len() == integer_groups + fraction_groups);
    if number.digits.len() == 0 {
        assert(group_number(number.digits) == 0);
        assert(0 * pow(10000, (rest.len() - number.digits.len()) as nat) == 0);
    }
}

} // verus!
