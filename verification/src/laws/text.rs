//! Laws of numbers and lists in text.
use vstd::prelude::*;
use vstd::string::*;

use crate::report::{a_context_keeps_the_causes, Report};
use crate::text::{
    contains_text, decimal, decimal_reads_back, digit_value, digits_value, find_byte, hexadecimal,
    joined, joined_texts, listed, number, read_number,
};

verus! {

/// Decimal digits are the ten Arabic ones, and a longer number is its front followed by its last
/// digit.
pub proof fn decimal_numbers_are_written_digit_by_digit(front: nat, digit: nat)
    requires
        front > 0,
        digit < 10,
    ensures
        decimal(0) == seq!['0'],
        decimal(1) == seq!['1'],
        decimal(2) == seq!['2'],
        decimal(3) == seq!['3'],
        decimal(4) == seq!['4'],
        decimal(5) == seq!['5'],
        decimal(6) == seq!['6'],
        decimal(7) == seq!['7'],
        decimal(8) == seq!['8'],
        decimal(9) == seq!['9'],
        decimal(10 * front + digit) == decimal(front) + decimal(digit),
{
    assert(decimal(10 * front + digit) =~= decimal(front) + decimal(digit));
}

/// Different numbers are written differently.
pub proof fn decimal_numbers_are_distinct(left: nat, right: nat)
    ensures
        decimal(left) == decimal(right) ==> left == right,
{
    decimal_reads_back(left);
    decimal_reads_back(right);
}

/// Hexadecimal digits are the ten Arabic ones and six small letters, the width is the number of
/// digits, and a longer number is its front followed by its last digit.
pub proof fn hexadecimal_numbers_are_written_digit_by_digit(front: nat, width: nat, digit: nat)
    requires
        digit < 16,
    ensures
        hexadecimal(0, 1) == seq!['0'],
        hexadecimal(1, 1) == seq!['1'],
        hexadecimal(2, 1) == seq!['2'],
        hexadecimal(3, 1) == seq!['3'],
        hexadecimal(4, 1) == seq!['4'],
        hexadecimal(5, 1) == seq!['5'],
        hexadecimal(6, 1) == seq!['6'],
        hexadecimal(7, 1) == seq!['7'],
        hexadecimal(8, 1) == seq!['8'],
        hexadecimal(9, 1) == seq!['9'],
        hexadecimal(10, 1) == seq!['a'],
        hexadecimal(11, 1) == seq!['b'],
        hexadecimal(12, 1) == seq!['c'],
        hexadecimal(13, 1) == seq!['d'],
        hexadecimal(14, 1) == seq!['e'],
        hexadecimal(15, 1) == seq!['f'],
        hexadecimal(front, 0) == Seq::<char>::empty(),
        hexadecimal(16 * front + digit, width + 1) == hexadecimal(front, width) + hexadecimal(
            digit,
            1,
        ),
{
    reveal_with_fuel(hexadecimal, 3);
    assert(hexadecimal(16 * front + digit, width + 1) =~= hexadecimal(front, width)
        + hexadecimal(digit, 1));
    assert(hexadecimal(0, 1) =~= seq!['0']);
    assert(hexadecimal(1, 1) =~= seq!['1']);
    assert(hexadecimal(2, 1) =~= seq!['2']);
    assert(hexadecimal(3, 1) =~= seq!['3']);
    assert(hexadecimal(4, 1) =~= seq!['4']);
    assert(hexadecimal(5, 1) =~= seq!['5']);
    assert(hexadecimal(6, 1) =~= seq!['6']);
    assert(hexadecimal(7, 1) =~= seq!['7']);
    assert(hexadecimal(8, 1) =~= seq!['8']);
    assert(hexadecimal(9, 1) =~= seq!['9']);
    assert(hexadecimal(10, 1) =~= seq!['a']);
    assert(hexadecimal(11, 1) =~= seq!['b']);
    assert(hexadecimal(12, 1) =~= seq!['c']);
    assert(hexadecimal(13, 1) =~= seq!['d']);
    assert(hexadecimal(14, 1) =~= seq!['e']);
    assert(hexadecimal(15, 1) =~= seq!['f']);
}

/// A digit is read by its place among the Arabic digits or, in base sixteen, among the first six
/// letters of either case; nothing else is a digit. Each further digit weighs the ones before it
/// by the base, and one plus sign may stand in front.
pub proof fn numbers_are_read_digit_by_digit(bytes: Seq<u8>, byte: u8, base: nat)
    requires
        base == 10 || base == 16,
    ensures
        digit_value(byte, base) == if 0x30 <= byte <= 0x39 {
            Some((byte - 0x30) as nat)
        } else if base == 16 && 0x61 <= byte <= 0x66 {
            Some((byte - 0x61 + 10) as nat)
        } else if base == 16 && 0x41 <= byte <= 0x46 {
            Some((byte - 0x41 + 10) as nat)
        } else {
            None
        },
        digits_value(Seq::empty(), base) == Some(0nat),
        digits_value(bytes.push(byte), base) == match (
            digits_value(bytes, base),
            digit_value(byte, base),
        ) {
            (Some(front), Some(digit)) => Some((front * base + digit) as nat),
            _ => None,
        },
        number(Seq::empty(), base) is None,
        bytes.len() > 0 && bytes[0] != 0x2b ==> number(bytes, base) == digits_value(bytes, base),
        bytes.len() > 0 ==> number(seq![0x2bu8] + bytes, base) == digits_value(bytes, base),
{
    assert(bytes.push(byte).drop_last() =~= bytes);
    assert((seq![0x2bu8] + bytes).skip(1) =~= bytes);
}

/// A number is read from bytes exactly if they are one within the limit.
pub proof fn numbers_are_read_within_their_limit(
    bytes: &[u8],
    base: u64,
    limit: u64,
    value: Option<u64>,
)
    requires
        base == 10 || base == 16,
        call_ensures(read_number, (bytes, base, limit), value),
    ensures
        value matches Some(found) ==> number(bytes@, base as nat) == Some(found as nat) && found
            <= limit,
        value is None <==> (number(bytes@, base as nat) matches Some(found) ==> found > limit),
{
}

/// A byte is found at its first place, or not at all.
pub proof fn a_byte_is_found_at_its_first_place(bytes: &[u8], byte: u8, position: usize)
    requires
        call_ensures(find_byte, (bytes, byte), position),
    ensures
        position <= bytes@.len(),
        position < bytes@.len() ==> bytes@[position as int] == byte,
        !bytes@.take(position as int).contains(byte),
{
    crate::text::first_position_is_bounded(bytes@, byte);
}

/// A text contains another exactly if something before and something behind completes it.
pub proof fn a_contained_text_can_be_completed(
    haystack: &str,
    needle: &str,
    found: bool,
    before: Seq<char>,
    behind: Seq<char>,
)
    requires
        call_ensures(contains_text, (haystack, needle), found),
    ensures
        haystack@ == before + needle@ + behind ==> found,
        found ==> exists|start: int|
            0 <= start <= haystack@.len() && haystack@ == #[trigger] haystack@.take(start) + needle@
                + haystack@.skip(start + needle@.len()),
{
    if haystack@ == before + needle@ + behind {
        let start = before.len() as int;
        assert(haystack@.subrange(start, start + needle@.len()) =~= needle@);
    }
    if found {
        let start = choose|start: int|
            0 <= start <= haystack@.len() - needle@.len() && #[trigger] haystack@.subrange(
                start,
                start + needle@.len(),
            ) == needle@;
        assert(haystack@ =~= haystack@.take(start) + needle@ + haystack@.skip(
            start + needle@.len(),
        ));
    }
}

/// Listed numbers and texts are separated by a comma and a space, and a list is in brackets.
pub proof fn lists_are_separated_by_commas(
    values: Seq<nat>,
    value: nat,
    items: Seq<Seq<char>>,
    item: Seq<char>,
)
    ensures
        joined(Seq::empty()) == Seq::<char>::empty(),
        joined(seq![value]) == decimal(value),
        values.len() > 0 ==> joined(values.push(value)) == joined(values) + seq![',', ' '] + decimal(
            value,
        ),
        listed(Seq::empty()) == seq!['[', ']'],
        listed(seq![item]) == seq!['['] + item + seq![']'],
        items.len() > 0 ==> listed(items.push(item)) == listed(items).drop_last() + seq![',', ' ']
            + item + seq![']'],
{
    reveal_strlit("");
    reveal_strlit(", ");
    reveal_strlit("[");
    reveal_strlit("]");
    assert(joined(Seq::<nat>::empty()) =~= Seq::<char>::empty());
    assert(values.push(value).drop_last() =~= values);
    assert(items.push(item).drop_last() =~= items);
    assert(", "@ =~= seq![',', ' ']);
    assert("["@ =~= seq!['[']);
    assert("]"@ =~= seq![']']);
    assert(listed(Seq::<Seq<char>>::empty()) =~= seq!['[', ']']);
    if items.len() > 0 {
        assert(listed(items).drop_last() =~= "["@ + joined_texts(items));
        assert(listed(items.push(item)) =~= listed(items).drop_last() + seq![',', ' '] + item
            + seq![']']);
    }
}

/// An error in a context is written as the context, a colon, and the error.
pub proof fn contexts_are_written_first(
    report: Report,
    message: String,
    outer: Report,
    inner_text: String,
    outer_text: String,
)
    requires
        report@.len() > 0,
        call_ensures(Report::context, (report, message), outer),
        call_ensures(Report::full_text, (&report,), inner_text),
        call_ensures(Report::full_text, (&outer,), outer_text),
    ensures
        outer_text@ == message@ + seq![':', ' '] + inner_text@,
{
    a_context_keeps_the_causes(report@, message@);
    reveal_strlit(": ");
    assert(": "@ =~= seq![':', ' ']);
}

/// A new error is written as its message.
pub proof fn a_new_error_is_its_message(message: String, report: Report, text: String)
    requires
        call_ensures(Report::new, (message,), report),
        call_ensures(Report::full_text, (&report,), text),
    ensures
        text@ == message@,
{
}

} // verus!
