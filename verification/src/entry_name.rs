//! Entry names: the six characters under which a program is found on tape.

use vstd::prelude::*;

verus! {

/// The space that pads an entry name.
pub const SPACE: u8 = 0x20;

/// Whether a character is an ASCII letter, of either case.
pub open spec fn is_letter(character: char) -> bool {
    ||| 0x41 <= character as u32 <= 0x5A
    ||| 0x61 <= character as u32 <= 0x7A
}

/// The upper-case form of an ASCII letter, as a byte.
pub open spec fn upper_case(letter: char) -> u8 {
    if 0x61 <= letter as u32 <= 0x7A {
        (letter as u32 - 0x20) as u8
    } else {
        (letter as u32) as u8
    }
}

/// Whether a text holds an ASCII letter.
pub open spec fn has_letter(text: Seq<char>) -> bool {
    exists|index: int| 0 <= index < text.len() && is_letter(#[trigger] text[index])
}

/// What is kept of a text for an entry name: its ASCII letters, in upper
/// case, and the spaces that come after the first of them. Everything else
/// is dropped.
pub open spec fn retained(text: Seq<char>) -> Seq<u8>
    decreases text.len(),
{
    if text.len() == 0 {
        Seq::empty()
    } else if is_letter(text.last()) {
        retained(text.drop_last()).push(upper_case(text.last()))
    } else if text.last() as u32 == 0x20 && has_letter(text.drop_last()) {
        retained(text.drop_last()).push(SPACE)
    } else {
        retained(text.drop_last())
    }
}

/// The entry name made from a text: the first six bytes of what is kept of
/// it, padded with spaces on the right.
pub open spec fn entry_name_of(template: Seq<char>) -> Seq<u8> {
    Seq::new(
        6,
        |index: int|
            if index < retained(template).len() {
                retained(template)[index]
            } else {
                SPACE
            },
    )
}

/// Whether six bytes are an entry name that a loader can look for: upper-case
/// ASCII letters and spaces, the first of them a letter.
pub open spec fn is_entry_name(name: Seq<u8>) -> bool {
    &&& name.len() == 6
    &&& 0x41 <= name[0] <= 0x5A
    &&& forall|index: int|
        0 <= index < 6 ==> 0x41 <= #[trigger] name[index] <= 0x5A || name[index] == SPACE
}

/// What is kept of the beginning of a text begins what is kept of the text.
pub proof fn lemma_retained_prefix(text: Seq<char>, length: int)
    requires
        0 <= length <= text.len(),
    ensures
        retained(text.take(length)).is_prefix_of(retained(text)),
        has_letter(text.take(length)) ==> has_letter(text),
    decreases text.len() - length,
{
    if length == text.len() {
        assert(text.take(length) == text);
    } else {
        lemma_retained_prefix(text, length + 1);
        assert(text.take(length + 1).drop_last() == text.take(length));
        if has_letter(text.take(length)) {
            let index = choose|index: int|
                0 <= index < length && is_letter(#[trigger] text.take(length)[index]);
            assert(is_letter(text.take(length + 1)[index]));
        }
    }
}

/// What is kept of a text holds upper-case letters and spaces only and begins
/// with a letter; it is empty exactly where the text has no letter.
pub proof fn lemma_retained_bytes(text: Seq<char>)
    ensures
        has_letter(text) <==> retained(text).len() > 0,
        retained(text).len() > 0 ==> 0x41 <= retained(text)[0] <= 0x5A,
        forall|index: int|
            0 <= index < retained(text).len() ==> 0x41 <= #[trigger] retained(text)[index] <= 0x5A
                || retained(text)[index] == SPACE,
    decreases text.len(),
{
    if text.len() > 0 {
        let front = text.drop_last();
        lemma_retained_bytes(front);
        if is_letter(text.last()) {
            assert(is_letter(text[text.len() - 1]));
        } else if has_letter(text) {
            let index = choose|index: int|
                0 <= index < text.len() && is_letter(#[trigger] text[index]);
            assert(is_letter(front[index]));
        } else if has_letter(front) {
            let index = choose|index: int|
                0 <= index < front.len() && is_letter(#[trigger] front[index]);
            assert(is_letter(text[index]));
        }
    }
}

/// The entry name made from a text with a letter is one that a loader can
/// look for; the one made from a text without a letter is blank.
pub proof fn lemma_entry_name_of(template: Seq<char>)
    ensures
        has_letter(template) <==> is_entry_name(entry_name_of(template)),
        !has_letter(template) ==> entry_name_of(template) == Seq::new(6, |index: int| SPACE),
{
    lemma_retained_bytes(template);
}

/// Makes an entry name from a text. The name holds the first six of the
/// text's ASCII letters, in upper case, and of the spaces that come after the
/// first letter; it is padded with spaces. The flag says whether the text
/// holds a letter: without one the name is blank, and no loader can find it.
pub fn sanitize(template: &str) -> (sanitized: (Vec<u8>, bool))
    ensures
        sanitized.0@ == entry_name_of(template@),
        sanitized.1 == has_letter(template@),
{
    let mut entry_name: Vec<u8> = vec![SPACE; 6];
    let mut name_iter: usize = 0;
    let mut has_first_char = false;

    assert(template@.take(0) == Seq::<char>::empty());
    let ghost mut seen: int = 0;
    for character in iter: template.chars()
        invariant
            iter.seq() == template@,
            seen == iter.index(),
            entry_name@.len() == 6,
            name_iter <= 6,
            name_iter < 6 ==> name_iter == retained(template@.take(seen)).len(),
            name_iter <= retained(template@.take(seen)).len(),
            forall|index: int|
                0 <= index < name_iter ==> entry_name@[index] == retained(
                    template@.take(seen),
                )[index],
            forall|index: int| name_iter <= index < 6 ==> entry_name@[index] == SPACE,
            name_iter > 0 ==> has_first_char,
            name_iter < 6 ==> has_first_char == has_letter(template@.take(seen)),
            has_first_char ==> has_letter(template@.take(seen)),
        ensures
            name_iter == 6 || seen == template@.len(),
    {
        let ghost before = template@.take(seen);
        let ghost scanned = template@.take(seen + 1);
        proof {
            seen = seen + 1;
            assert(scanned.drop_last() == before);
            assert(scanned.last() == character);
            if has_letter(before) {
                lemma_retained_prefix(scanned, seen - 1);
                assert(scanned.take(seen - 1) == before);
            }
        }
        if name_iter == 6 {
            break;
        }
        let char_val = character as u32;
        if char_val == 0x20 && has_first_char {
            entry_name[name_iter] = SPACE;
            name_iter += 1;
        } else if char_val >= 0x41 && char_val <= 0x5A {
            has_first_char = true;
            entry_name[name_iter] = char_val as u8;
            name_iter += 1;
        } else if char_val >= 0x61 && char_val <= 0x7A {
            has_first_char = true;
            entry_name[name_iter] = (char_val - 0x20) as u8;
            name_iter += 1;
        }
        proof {
            if is_letter(character) {
                assert(is_letter(scanned[seen - 1]));
            } else if !has_letter(before) && has_letter(scanned) {
                let index = choose|index: int|
                    0 <= index < scanned.len() && is_letter(#[trigger] scanned[index]);
                assert(is_letter(before[index]));
            }
        }
    }
    proof {
        lemma_retained_prefix(template@, seen);
        if name_iter < 6 {
            assert(template@.take(seen) == template@);
        }
    }
    (entry_name, has_first_char)
}

} // verus!
