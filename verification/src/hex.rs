//! Addresses as they are given on the command line: in hexadecimal, with or
//! without a `0x` in front.

use vstd::prelude::*;

verus! {

/// Why a text is no address.
#[derive(Debug, Clone, Copy, PartialEq, Eq, Structural)]
pub enum AddressError {
    /// The text is no hexadecimal number, or one too large to be held at all.
    Unparsable,
    /// The number does not fit into the 16 bits of an address.
    OutOfRange { address: u32 },
}

/// The value of a hexadecimal digit, of either case.
pub open spec fn hex_digit(character: char) -> Option<nat> {
    let code = character as u32;
    if 0x30 <= code <= 0x39 {
        Some((code - 0x30) as nat)
    } else if 0x41 <= code <= 0x46 {
        Some((code - 0x41 + 10) as nat)
    } else if 0x61 <= code <= 0x66 {
        Some((code - 0x61 + 10) as nat)
    } else {
        None
    }
}

/// Whether a text begins with `0x` or `0X`.
pub open spec fn has_hex_prefix(text: Seq<char>) -> bool {
    &&& text.len() >= 2
    &&& text[0] as u32 == 0x30
    &&& (text[1] as u32 == 0x78 || text[1] as u32 == 0x58)
}

/// The digits of an argument: all of it but the `0x` in front, if there is
/// one.
pub open spec fn digits_of(text: Seq<char>) -> Seq<char> {
    if has_hex_prefix(text) {
        text.skip(2)
    } else {
        text
    }
}

/// Whether every character of a text is a hexadecimal digit.
pub open spec fn all_hex_digits(digits: Seq<char>) -> bool {
    forall|index: int| 0 <= index < digits.len() ==> (#[trigger] hex_digit(digits[index])) is Some
}

/// The number that a sequence of hexadecimal digits stands for.
pub open spec fn hex_value(digits: Seq<char>) -> nat
    decreases digits.len(),
{
    if digits.len() == 0 {
        0
    } else {
        16 * hex_value(digits.drop_last()) + hex_digit(digits.last()).unwrap()
    }
}

/// Whether a text is a hexadecimal argument: not empty, and hexadecimal
/// digits only after the `0x` that may stand in front. A bare `0x` counts, and
/// stands for 0.
pub open spec fn is_hex_arg(text: Seq<char>) -> bool {
    text.len() > 0 && all_hex_digits(digits_of(text))
}

/// What a hexadecimal argument stands for, where it is one and the number
/// fits into 32 bits.
pub open spec fn hex_arg(text: Seq<char>) -> Option<u32> {
    if is_hex_arg(text) && hex_value(digits_of(text)) <= u32::MAX {
        Some(hex_value(digits_of(text)) as u32)
    } else {
        None
    }
}

/// The address that a text stands for, or why it stands for none.
pub open spec fn address_arg(text: Seq<char>) -> Result<u16, AddressError> {
    match hex_arg(text) {
        None => Err(AddressError::Unparsable),
        Some(address) => if address > 0xFFFF {
            Err(AddressError::OutOfRange { address })
        } else {
            Ok(address as u16)
        },
    }
}

/// The beginning of a sequence of hexadecimal digits stands for no larger a
/// number than the whole.
proof fn lemma_hex_value_grows(digits: Seq<char>, length: int)
    requires
        0 <= length <= digits.len(),
    ensures
        hex_value(digits.take(length)) <= hex_value(digits),
    decreases digits.len() - length,
{
    if length == digits.len() {
        assert(digits.take(length) == digits);
    } else {
        lemma_hex_value_grows(digits, length + 1);
        assert(digits.take(length + 1).drop_last() == digits.take(length));
    }
}

/// The value of one hexadecimal digit, of either case, if the character is
/// one.
pub fn hex_digit_value(character: char) -> (value: Option<u32>)
    ensures
        value is Some <==> hex_digit(character) is Some,
        value matches Some(digit) ==> hex_digit(character) == Some(digit as nat),
{
    let code = character as u32;
    if 0x30 <= code && code <= 0x39 {
        Some(code - 0x30)
    } else if 0x41 <= code && code <= 0x46 {
        Some(code - 0x41 + 10)
    } else if 0x61 <= code && code <= 0x66 {
        Some(code - 0x61 + 10)
    } else {
        None
    }
}

/// Parses an unsigned hexadecimal number, with or without `0x` in front.
/// There is no number where the text is empty, where a character is no
/// hexadecimal digit, and where the number does not fit into 32 bits.
pub fn parse_hex_arg(arg: &str) -> (parsed: Option<u32>)
    ensures
        parsed == hex_arg(arg@),
{
    let mut accumulator: u32 = 0;
    let mut at_start = true;
    let mut after_leading_zero = false;
    let ghost mut seen: int = 0;

    assert(arg@.take(0) == Seq::<char>::empty());
    for character in iter: arg.chars()
        invariant
            iter.seq() == arg@,
            seen == iter.index(),
            at_start == (seen == 0),
            after_leading_zero == (seen == 1 && arg@[0] as u32 == 0x30),
            all_hex_digits(digits_of(arg@.take(seen))),
            accumulator == hex_value(digits_of(arg@.take(seen))),
    {
        let ghost before = arg@.take(seen);
        let ghost scanned = arg@.take(seen + 1);
        proof {
            seen = seen + 1;
            assert(scanned.drop_last() == before);
            assert(scanned.last() == character);
        }
        let code = character as u32;
        if after_leading_zero && (code == 0x78 || code == 0x58) {
            after_leading_zero = false;
            assert(digits_of(scanned) == Seq::<char>::empty());
            assert(hex_value(before) == 0) by {
                assert(before.last() == arg@[0]);
                assert(before.drop_last() == Seq::<char>::empty());
                assert(hex_value(before.drop_last()) == 0);
            }
        } else {
            assert(!has_hex_prefix(scanned) ==> digits_of(scanned) == digits_of(before).push(
                character,
            ));
            assert(has_hex_prefix(scanned) ==> has_hex_prefix(before) && digits_of(scanned)
                == digits_of(before).push(character));
            assert(digits_of(scanned).drop_last() == digits_of(before));
            proof {
                if has_hex_prefix(arg@) && seen == 1 {
                    assert(before == Seq::<char>::empty());
                } else {
                    let offset = if has_hex_prefix(arg@) { 2int } else { 0int };
                    assert(has_hex_prefix(arg@) == has_hex_prefix(scanned));
                    assert(digits_of(arg@)[seen - 1 - offset] == character);
                    if all_hex_digits(digits_of(arg@)) {
                        lemma_hex_value_grows(digits_of(arg@), seen - offset);
                        assert(digits_of(arg@).take(seen - offset) == digits_of(scanned));
                    }
                }
            }
            match hex_digit_value(character) {
                None => {
                    return None;
                },
                Some(digit) => {
                    if accumulator > (u32::MAX - digit) / 16 {
                        return None;
                    }
                    accumulator = accumulator * 16 + digit;
                },
            }
            after_leading_zero = at_start && code == 0x30;
        }
        at_start = false;
    }
    assert(arg@.take(seen) == arg@);
    if at_start {
        None
    } else {
        Some(accumulator)
    }
}

/// Parses an address: a hexadecimal number of at most 16 bits.
pub fn parse_address(arg: &str) -> (parsed: Result<u16, AddressError>)
    ensures
        parsed == address_arg(arg@),
{
    match parse_hex_arg(arg) {
        None => Err(AddressError::Unparsable),
        Some(address) => if address > 0xFFFF {
            Err(AddressError::OutOfRange { address })
        } else {
            Ok(address as u16)
        },
    }
}

} // verus!
