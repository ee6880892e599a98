//! Text: numbers as digits, and reading them back.
use vstd::prelude::*;
use vstd::string::*;
use vstd::utf8::{encode_utf8, encode_utf8_decode_utf8, is_ascii_chars, is_ascii_chars_encode_utf8};

verus! {

/// The sixteen digits in order of their value.
pub open spec fn digits() -> Seq<char> {
    seq!['0', '1', '2', '3', '4', '5', '6', '7', '8', '9', 'a', 'b', 'c', 'd', 'e', 'f']
}

/// A number in base ten, without leading zeros.
pub open spec fn decimal(value: nat) -> Seq<char>
    decreases value,
{
    if value < 10 {
        seq![digits()[value as int]]
    } else {
        decimal(value / 10).push(digits()[(value % 10) as int])
    }
}

/// The last `width` digits of a number in base sixteen.
pub open spec fn hexadecimal(value: nat, width: nat) -> Seq<char>
    decreases width,
{
    if width == 0 {
        Seq::empty()
    } else {
        hexadecimal(value / 16, (width - 1) as nat).push(digits()[(value % 16) as int])
    }
}

/// The value of an ASCII digit in a base of at most sixteen, in either case.
pub open spec fn digit_value(byte: u8, base: nat) -> Option<nat> {
    let value = if 48 <= byte <= 57 {
        byte - 48
    } else if 97 <= byte <= 102 {
        byte - 97 + 10
    } else if 65 <= byte <= 70 {
        byte - 65 + 10
    } else {
        16
    };
    if value < base {
        Some(value as nat)
    } else {
        None
    }
}

/// The value of a run of digits; none when a byte is not a digit of the base.
pub open spec fn digits_value(bytes: Seq<u8>, base: nat) -> Option<nat>
    decreases bytes.len(),
{
    if bytes.len() == 0 {
        Some(0)
    } else {
        match (digits_value(bytes.drop_last(), base), digit_value(bytes.last(), base)) {
            (Some(front), Some(last)) => Some(front * base + last),
            _ => None,
        }
    }
}

/// The number that a text of at least one digit stands for; one plus sign may precede the digits.
pub open spec fn number(bytes: Seq<u8>, base: nat) -> Option<nat> {
    if bytes.len() == 0 {
        None
    } else if bytes.len() > 1 && bytes[0] == 43 {
        digits_value(bytes.skip(1), base)
    } else {
        digits_value(bytes, base)
    }
}

/// The position of the first occurrence of a byte, or the length where there is none.
pub open spec fn first_position(bytes: Seq<u8>, byte: u8) -> nat
    decreases bytes.len(),
{
    if bytes.len() == 0 || bytes[0] == byte {
        0
    } else {
        1 + first_position(bytes.skip(1), byte)
    }
}

/// Whether a text occurs somewhere within another.
pub open spec fn occurs_in(needle: Seq<char>, haystack: Seq<char>) -> bool {
    exists|start: int|
        0 <= start <= haystack.len() - needle.len() && #[trigger] haystack.subrange(
            start,
            start + needle.len(),
        ) == needle
}

/// The first position of a byte is inside a text or at its end, and no earlier byte is that one.
pub proof fn first_position_is_bounded(bytes: Seq<u8>, byte: u8)
    ensures
        first_position(bytes, byte) <= bytes.len(),
        forall|i: int| 0 <= i < first_position(bytes, byte) ==> bytes[i] != byte,
        first_position(bytes, byte) < bytes.len() ==> bytes[first_position(bytes, byte) as int]
            == byte,
    decreases bytes.len(),
{
    if bytes.len() > 0 && bytes[0] != byte {
        first_position_is_bounded(bytes.skip(1), byte);
        assert forall|i: int| 0 <= i < first_position(bytes, byte) implies bytes[i] != byte by {
            if i > 0 {
                assert(bytes.skip(1)[i - 1] == bytes[i]);
            }
        }
    }
}

/// The first occurrence of a byte is the one position where no earlier byte equals it.
pub proof fn first_position_is(bytes: Seq<u8>, byte: u8, position: int)
    requires
        0 <= position <= bytes.len(),
        forall|i: int| 0 <= i < position ==> bytes[i] != byte,
        position < bytes.len() ==> bytes[position] == byte,
    ensures
        first_position(bytes, byte) == position,
{
    first_position_is_bounded(bytes, byte);
    let found = first_position(bytes, byte) as int;
    if found < position {
        assert(bytes[found] != byte);
    } else if position < found {
        assert(bytes[position] != byte);
    }
}

fn digit_text(value: u8) -> (text: &'static str)
    requires
        value < 16,
    ensures
        text@ == seq![digits()[value as int]],
{
    proof {
        reveal_strlit("0");
        reveal_strlit("1");
        reveal_strlit("2");
        reveal_strlit("3");
        reveal_strlit("4");
        reveal_strlit("5");
        reveal_strlit("6");
        reveal_strlit("7");
        reveal_strlit("8");
        reveal_strlit("9");
        reveal_strlit("a");
        reveal_strlit("b");
        reveal_strlit("c");
        reveal_strlit("d");
        reveal_strlit("e");
        reveal_strlit("f");
    }
    match value {
        0 => "0",
        1 => "1",
        2 => "2",
        3 => "3",
        4 => "4",
        5 => "5",
        6 => "6",
        7 => "7",
        8 => "8",
        9 => "9",
        10 => "a",
        11 => "b",
        12 => "c",
        13 => "d",
        14 => "e",
        _ => "f",
    }
}

/// Appends a number in base ten.
pub fn push_decimal(text: &mut String, value: u64)
    ensures
        final(text)@ == old(text)@ + decimal(value as nat),
    decreases value,
{
    if value >= 10 {
        push_decimal(text, value / 10);
    }
    text.append(digit_text((value % 10) as u8));
    proof {
        assert(final(text)@ =~= old(text)@ + decimal(value as nat));
    }
}

/// Appends the sixteen digits of a number in base sixteen.
pub fn push_hexadecimal(text: &mut String, value: u64)
    ensures
        final(text)@ == old(text)@ + hexadecimal(value as nat, 16),
{
    let mut width: u64 = 0;
    let mut shift: u64 = 60;
    let ghost start = text@;
    assert(value >> 64 == 0) by (bit_vector);
    assert(hexadecimal(0, 0) =~= Seq::<char>::empty());
    assert(text@ =~= start + hexadecimal(0, 0));
    let ghost mut top: u64 = 0;
    while width < 16
        invariant
            width <= 16,
            width < 16 ==> shift == 60 - 4 * width,
            width == 0 ==> top == 0,
            0 < width ==> top == value >> ((64 - 4 * width) as u64),
            text@ == start + hexadecimal(top as nat, width as nat),
        decreases 16 - width,
    {
        let digit: u8 = ((value >> shift) & 15) as u8;
        proof {
            let current = value >> shift;
            assert(current & 15 == current % 16) by (bit_vector);
            if width == 0 {
                assert(shift == 60 ==> (value >> shift) / 16 == 0) by (bit_vector);
            } else {
                let before = (shift + 4) as u64;
                assert(shift <= 56 && before == shift + 4 ==> (value >> shift) / 16 == value
                    >> before) by (bit_vector);
            }
            assert(current / 16 == top);
        }
        text.append(digit_text(digit));
        proof {
            let current = value >> shift;
            assert(hexadecimal(current as nat, (width + 1) as nat) == hexadecimal(
                (current / 16) as nat,
                width as nat,
            ).push(digits()[(current % 16) as int]));
            assert(text@ =~= start + hexadecimal(current as nat, (width + 1) as nat));
            top = current;
            assert(shift == 0 ==> value >> shift == value) by (bit_vector);
        }
        width = width + 1;
        if shift >= 4 {
            shift = shift - 4;
        }
    }
    proof {
        let none: u64 = (64 - 4 * width) as u64;
        assert(none == 0 ==> value >> none == value) by (bit_vector);
    }
}

/// Whether two byte strings are equal.
pub fn same_bytes(left: &[u8], right: &[u8]) -> (same: bool)
    ensures
        same == (left@ == right@),
{
    if left.len() != right.len() {
        return false;
    }
    let mut position: usize = 0;
    while position < left.len()
        invariant
            position <= left@.len() == right@.len(),
            forall|i: int| 0 <= i < position ==> left@[i] == right@[i],
        decreases left@.len() - position,
    {
        if left[position] != right[position] {
            return false;
        }
        position = position + 1;
    }
    assert(left@ =~= right@);
    true
}

/// Whether two texts are equal.
pub fn same_text(left: &str, right: &str) -> (same: bool)
    ensures
        same == (left@ == right@),
{
    let same = same_bytes(left.as_bytes(), right.as_bytes());
    proof {
        encode_utf8_decode_utf8(left@);
        encode_utf8_decode_utf8(right@);
    }
    same
}

/// The position of the first occurrence of a byte, or the length where there is none.
pub fn find_byte(bytes: &[u8], byte: u8) -> (position: usize)
    ensures
        position == first_position(bytes@, byte),
{
    let mut position: usize = 0;
    while position < bytes.len() && bytes[position] != byte
        invariant
            position <= bytes@.len(),
            forall|i: int| 0 <= i < position ==> bytes@[i] != byte,
        decreases bytes@.len() - position,
    {
        position = position + 1;
    }
    proof {
        first_position_is(bytes@, byte, position as int);
    }
    position
}

fn read_digit(byte: u8, base: u64) -> (value: Option<u64>)
    requires
        base <= 16,
    ensures
        match (value, digit_value(byte, base as nat)) {
            (Some(value), Some(expected)) => value == expected,
            (None, None) => true,
            _ => false,
        },
{
    let value: u64 = if 48 <= byte && byte <= 57 {
        (byte - 48) as u64
    } else if 97 <= byte && byte <= 102 {
        (byte - 97 + 10) as u64
    } else if 65 <= byte && byte <= 70 {
        (byte - 65 + 10) as u64
    } else {
        16
    };
    if value < base {
        Some(value)
    } else {
        None
    }
}

proof fn longer_numbers_are_not_smaller(bytes: Seq<u8>, length: int, base: nat)
    requires
        0 <= length <= bytes.len(),
        base >= 1,
        digits_value(bytes, base) is Some,
    ensures
        digits_value(bytes.take(length), base) is Some,
        digits_value(bytes.take(length), base)->0 <= digits_value(bytes, base)->0,
    decreases bytes.len(),
{
    if length == bytes.len() {
        assert(bytes.take(length) =~= bytes);
    } else {
        longer_numbers_are_not_smaller(bytes.drop_last(), length, base);
        assert(bytes.drop_last().take(length) =~= bytes.take(length));
        let front = digits_value(bytes.drop_last(), base)->0;
        assert(front <= front * base) by (nonlinear_arith)
            requires
                base >= 1,
        ;
    }
}

fn read_digits(bytes: &[u8], start: usize, base: u64, limit: u64) -> (value: Option<u64>)
    requires
        start <= bytes@.len(),
        1 <= base <= 16,
    ensures
        match value {
            Some(value) => value <= limit && digits_value(bytes@.skip(start as int), base as nat)
                == Some(value as nat),
            None => match digits_value(bytes@.skip(start as int), base as nat) {
                Some(expected) => expected > limit,
                None => true,
            },
        },
{
    let ghost run = bytes@.skip(start as int);
    let mut value: u64 = 0;
    let mut position: usize = start;
    assert(run.take(0) =~= Seq::<u8>::empty());
    while position < bytes.len()
        invariant
            start <= position <= bytes@.len(),
            1 <= base <= 16,
            run == bytes@.skip(start as int),
            value <= limit,
            digits_value(run.take(position - start), base as nat) == Some(value as nat),
        decreases bytes@.len() - position,
    {
        let ghost next = run.take(position - start + 1);
        proof {
            assert(next.drop_last() =~= run.take(position - start));
            assert(next.last() == bytes@[position as int]);
            if digits_value(run, base as nat) is Some {
                longer_numbers_are_not_smaller(run, position - start + 1, base as nat);
            }
        }
        let digit: u64 = match read_digit(bytes[position], base) {
            Some(digit) => digit,
            None => {
                return None;
            },
        };
        assert(value * base <= u64::MAX * 16) by (nonlinear_arith)
            requires
                value <= u64::MAX,
                base <= 16,
        ;
        let wide: u128 = value as u128 * base as u128 + digit as u128;
        if wide > limit as u128 {
            return None;
        }
        value = wide as u64;
        position = position + 1;
    }
    assert(run.take(position - start) =~= run);
    Some(value)
}

/// Reads a number of at most `limit` from a text of digits.
pub fn read_number(bytes: &[u8], base: u64, limit: u64) -> (value: Option<u64>)
    requires
        1 <= base <= 16,
    ensures
        match value {
            Some(value) => value <= limit && number(bytes@, base as nat) == Some(value as nat),
            None => match number(bytes@, base as nat) {
                Some(expected) => expected > limit,
                None => true,
            },
        },
{
    if bytes.len() == 0 {
        return None;
    }
    assert(bytes@.skip(0) =~= bytes@);
    if bytes.len() > 1 && bytes[0] == 43 {
        read_digits(bytes, 1, base, limit)
    } else {
        read_digits(bytes, 0, base, limit)
    }
}

/// The characters of a text, one by one.
pub fn characters(text: &str) -> (chars: Vec<char>)
    ensures
        chars@ == text@,
{
    let mut chars: Vec<char> = Vec::new();
    for c in iter: text.chars()
        invariant
            chars@ == iter.seq().take(iter.index()),
            iter.seq() == text@,
    {
        chars.push(c);
        assert(iter.seq().take(iter.index() + 1) =~= iter.seq().take(iter.index()).push(c));
    }
    assert(chars@ =~= text@);
    chars
}

/// Whether a text occurs somewhere within another.
pub fn contains_text(haystack: &str, needle: &str) -> (found: bool)
    ensures
        found == occurs_in(needle@, haystack@),
{
    let hay: Vec<char> = characters(haystack);
    let pin: Vec<char> = characters(needle);
    if pin.len() > hay.len() {
        return false;
    }
    let last: usize = hay.len() - pin.len();
    let mut start: usize = 0;
    loop
        invariant
            hay@ == haystack@,
            pin@ == needle@,
            last == hay@.len() - pin@.len(),
            start <= last,
            forall|i: int|
                0 <= i < start ==> #[trigger] haystack@.subrange(i, i + needle@.len()) != needle@,
        decreases last - start,
    {
        let mut matched: usize = 0;
        while matched < pin.len() && hay[start + matched] == pin[matched]
            invariant
                matched <= pin@.len(),
                start + pin.len() <= hay.len(),
                forall|i: int| 0 <= i < matched ==> hay@[start + i] == pin@[i],
            decreases pin@.len() - matched,
        {
            matched = matched + 1;
        }
        let ghost window = haystack@.subrange(start as int, start + needle@.len());
        if matched == pin.len() {
            assert(window =~= needle@);
            return true;
        }
        assert(window[matched as int] != needle@[matched as int]);
        if start == last {
            return false;
        }
        start = start + 1;
    }
}

proof fn digit_reads_back(value: nat)
    requires
        value < 16,
    ensures
        digit_value(digits()[value as int] as u8, 16) == Some(value),
        digits()[value as int] as u32 <= 127,
{
}

/// The digits written for a number read back as that number.
pub proof fn hexadecimal_reads_back(value: nat, width: nat, limit: nat)
    requires
        limit == vstd::arithmetic::power::pow(16, width),
        value < limit,
    ensures
        hexadecimal(value, width).len() == width,
        is_ascii_chars(hexadecimal(value, width)),
        digits_value(encode_utf8(hexadecimal(value, width)), 16) == Some(value),
        forall|i: int|
            0 <= i < width ==> digit_value(
                #[trigger] encode_utf8(hexadecimal(value, width))[i],
                16,
            ) is Some,
    decreases width,
{
    reveal(vstd::arithmetic::power::pow);
    let text = hexadecimal(value, width);
    if width > 0 {
        let shorter = vstd::arithmetic::power::pow(16, (width - 1) as nat);
        hexadecimal_reads_back(value / 16, (width - 1) as nat, shorter as nat);
        let front = hexadecimal(value / 16, (width - 1) as nat);
        digit_reads_back(value % 16);
        is_ascii_chars_encode_utf8(front);
        is_ascii_chars_encode_utf8(text);
        assert(encode_utf8(text).drop_last() =~= encode_utf8(front));
        assert(encode_utf8(text).last() == text.last() as u8);
        assert forall|i: int| 0 <= i < width implies digit_value(
            #[trigger] encode_utf8(text)[i],
            16,
        ) is Some by {
            if i < width - 1 {
                assert(encode_utf8(text)[i] == encode_utf8(front)[i]);
            }
        }
    } else {
        is_ascii_chars_encode_utf8(text);
    }
}

/// Appends the two digits of a byte in base sixteen.
pub fn push_hexadecimal_byte(text: &mut String, byte: u8)
    ensures
        final(text)@ == old(text)@ + hexadecimal(byte as nat, 2),
{
    text.append(digit_text(byte / 16));
    text.append(digit_text(byte % 16));
    proof {
        reveal_with_fuel(hexadecimal, 3);
        assert(final(text)@ =~= old(text)@ + hexadecimal(byte as nat, 2));
    }
}

/// The contents of a list of texts.
pub open spec fn texts(list: Seq<String>) -> Seq<Seq<char>> {
    list.map_values(|text: String| text@)
}

/// Texts with a comma and a space between them.
pub open spec fn joined_texts(texts: Seq<Seq<char>>) -> Seq<char>
    decreases texts.len(),
{
    if texts.len() == 0 {
        ""@
    } else if texts.len() == 1 {
        texts[0]
    } else {
        joined_texts(texts.drop_last()) + ", "@ + texts.last()
    }
}

/// Texts in brackets, with a comma and a space between them.
pub open spec fn listed(texts: Seq<Seq<char>>) -> Seq<char> {
    "["@ + joined_texts(texts) + "]"@
}

/// Appends texts in brackets, with a comma and a space between them.
pub fn push_list(text: &mut String, items: &Vec<String>)
    ensures
        final(text)@ == old(text)@ + listed(texts(items@)),
{
    let ghost start = text@;
    let ghost all = texts(items@);
    let mut position: usize = 0;
    text.append("[");
    proof {
        reveal_strlit("");
        assert(all.take(0) =~= Seq::empty());
        assert(text@ =~= start + "["@ + joined_texts(all.take(0)));
    }
    while position < items.len()
        invariant
            position <= items@.len(),
            all == texts(items@),
            text@ == start + "["@ + joined_texts(all.take(position as int)),
        decreases items@.len() - position,
    {
        proof {
            let longer = all.take(position + 1);
            assert(longer.drop_last() =~= all.take(position as int));
            assert(longer.last() == items@[position as int]@);
            reveal_strlit("");
        }
        if position > 0 {
            text.append(", ");
        }
        text.append(items[position].as_str());
        position = position + 1;
        assert(text@ =~= start + "["@ + joined_texts(all.take(position as int)));
    }
    assert(all.take(all.len() as int) =~= all);
    text.append("]");
    assert(text@ =~= start + listed(all));
}

/// What the `Debug` form of a text is.
pub uninterp spec fn quoted(text: Seq<char>) -> Seq<char>;

/// Formats a text with its `Debug` implementation, in quotes and with escapes. Claims only that the
/// result is a function of the text.
#[verifier::external_body]
pub(crate) fn quote(text: &str) -> (quotation: String)
    ensures
        quotation@ == quoted(text@),
{
    format!("{text:?}")
}

/// Numbers in decimal digits, with a comma and a space between them.
pub open spec fn joined(values: Seq<nat>) -> Seq<char>
    decreases values.len(),
{
    if values.len() == 0 {
        ""@
    } else if values.len() == 1 {
        decimal(values[0])
    } else {
        joined(values.drop_last()) + ", "@ + decimal(values.last())
    }
}

/// The values of a list of bytes.
pub open spec fn byte_values(bytes: Seq<u8>) -> Seq<nat> {
    bytes.map_values(|byte: u8| byte as nat)
}

/// Appends bytes in decimal digits, with a comma and a space between them.
pub fn push_joined_bytes(text: &mut String, bytes: &[u8])
    ensures
        final(text)@ == old(text)@ + joined(byte_values(bytes@)),
{
    let ghost start = text@;
    let ghost values = byte_values(bytes@);
    let mut position: usize = 0;
    proof {
        reveal_strlit("");
        assert(values.take(0) =~= Seq::<nat>::empty());
        assert(text@ =~= start + joined(values.take(0)));
    }
    while position < bytes.len()
        invariant
            position <= bytes@.len(),
            values == byte_values(bytes@),
            text@ == start + joined(values.take(position as int)),
        decreases bytes@.len() - position,
    {
        proof {
            let longer = values.take(position + 1);
            assert(longer.drop_last() =~= values.take(position as int));
            assert(longer.last() == bytes@[position as int]);
            reveal_strlit("");
        }
        if position > 0 {
            text.append(", ");
        }
        push_decimal(text, bytes[position] as u64);
        position = position + 1;
        assert(text@ =~= start + joined(values.take(position as int)));
    }
    assert(values.take(values.len() as int) =~= values);
}

/// A number in decimal digits is ASCII and reads back as itself.
pub proof fn decimal_reads_back(value: nat)
    ensures
        decimal(value).len() >= 1,
        is_ascii_chars(decimal(value)),
        digits_value(encode_utf8(decimal(value)), 10) == Some(value),
        forall|i: int|
            0 <= i < decimal(value).len() ==> digit_value(
                #[trigger] encode_utf8(decimal(value))[i],
                10,
            ) is Some,
    decreases value,
{
    let text = decimal(value);
    if value < 10 {
        is_ascii_chars_encode_utf8(text);
        let bytes = encode_utf8(text);
        assert(bytes.len() == 1);
        assert(bytes[0] == text[0] as u8);
        assert(bytes.drop_last() =~= Seq::<u8>::empty());
        assert(digits_value(bytes.drop_last(), 10) == Some(0nat));
    } else {
        let front = decimal(value / 10);
        decimal_reads_back(value / 10);
        is_ascii_chars_encode_utf8(front);
        is_ascii_chars_encode_utf8(text);
        let bytes = encode_utf8(text);
        assert(bytes.drop_last() =~= encode_utf8(front));
        assert(bytes.last() == text.last() as u8);
        assert forall|i: int| 0 <= i < text.len() implies digit_value(
            #[trigger] bytes[i],
            10,
        ) is Some by {
            if i < front.len() {
                assert(bytes[i] == encode_utf8(front)[i]);
            }
        }
    }
}

} // verus!
