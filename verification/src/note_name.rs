//! Notes by name: the letter of a key, a sharp sign where the key has one, and
//! the number of the octave, as in `c4` or `D#5`; `off` for a note-off and
//! `---` for an empty note.

use vstd::prelude::*;
use vstd::string::StrSliceExecFns;
use crate::display::{digit_text, spec_decimal, spec_key_name, spec_note_text};
use crate::note::{Note, EMPTY_NOTE, MAX_NOTE, NOTE_OFF};
use crate::text::{eq_ignore_ascii_case, lower_code, same_text, spec_eq_ignore_ascii_case, spec_lower_code};

verus! {

/// Highest octave that holds a key.
pub const MAX_OCTAVE: u64 = 10;

/// The place in its octave of the key that a letter names, by the code of the
/// small letter.
pub open spec fn spec_key_offset(code: u32) -> Option<int> {
    if code == 'c' as u32 {
        Some(0)
    } else if code == 'd' as u32 {
        Some(2)
    } else if code == 'e' as u32 {
        Some(4)
    } else if code == 'f' as u32 {
        Some(5)
    } else if code == 'g' as u32 {
        Some(7)
    } else if code == 'a' as u32 {
        Some(9)
    } else if code == 'b' as u32 {
        Some(11)
    } else {
        None
    }
}

/// The place in its octave of the key that a letter names.
pub fn key_offset(letter: char) -> (r: Option<u64>)
    ensures
        r is Some == spec_key_offset(spec_lower_code(letter)) is Some,
        r matches Some(key) ==> spec_key_offset(spec_lower_code(letter)) == Some(key as int),
{
    let code = lower_code(letter);
    if code == 'c' as u32 {
        Some(0)
    } else if code == 'd' as u32 {
        Some(2)
    } else if code == 'e' as u32 {
        Some(4)
    } else if code == 'f' as u32 {
        Some(5)
    } else if code == 'g' as u32 {
        Some(7)
    } else if code == 'a' as u32 {
        Some(9)
    } else if code == 'b' as u32 {
        Some(11)
    } else {
        None
    }
}

/// The value of a decimal digit.
pub open spec fn spec_digit(c: char) -> Option<int> {
    if '0' <= c && c <= '9' {
        Some(c as u32 - '0' as u32)
    } else {
        None
    }
}

/// The value of a decimal digit.
pub fn digit(c: char) -> (r: Option<u64>)
    ensures
        r is Some == spec_digit(c) is Some,
        r matches Some(value) ==> spec_digit(c) == Some(value as int),
{
    if '0' <= c && c <= '9' {
        Some((c as u32 - '0' as u32) as u64)
    } else {
        None
    }
}

/// The number of an octave that decimal digits stand for: at least one digit,
/// and no more than the highest octave at any digit.
pub open spec fn spec_octave(digits: Seq<char>) -> Option<int>
    decreases digits.len(),
{
    if digits.len() == 0 {
        None
    } else if digits.len() == 1 {
        spec_digit(digits[0])
    } else {
        match (spec_octave(digits.drop_last()), spec_digit(digits.last())) {
            (Some(high), Some(low)) => if high * 10 + low <= MAX_OCTAVE {
                Some(high * 10 + low)
            } else {
                None
            },
            _ => None,
        }
    }
}

/// The note that a name stands for.
pub open spec fn spec_note_from_name(name: Seq<char>) -> Option<Note> {
    if spec_eq_ignore_ascii_case(name, "off"@) {
        Some(Note(NOTE_OFF))
    } else if name == "---"@ {
        Some(Note(EMPTY_NOTE))
    } else if name.len() < 2 {
        None
    } else {
        match spec_key_offset(spec_lower_code(name[0])) {
            None => None,
            Some(key) => {
                let sharp: int = if name[1] == '#' {
                    1
                } else {
                    0
                };
                match spec_octave(name.skip(1 + sharp)) {
                    Some(octave) => if octave * 12 + key + sharp <= MAX_NOTE {
                        Some(Note((octave * 12 + key + sharp) as u8))
                    } else {
                        None
                    },
                    None => None,
                }
            },
        }
    }
}

/// Digits whose first ones stand for no octave stand for none.
proof fn lemma_octave_prefix(digits: Seq<char>, count: int)
    requires
        1 <= count <= digits.len(),
        spec_octave(digits.take(count)) is None,
    ensures
        spec_octave(digits) is None,
    decreases digits.len() - count,
{
    if count < digits.len() {
        assert(digits.take(count + 1).drop_last() =~= digits.take(count));
        lemma_octave_prefix(digits, count + 1);
    } else {
        assert(digits.take(count) =~= digits);
    }
}

/// The number of the octave that the characters of a name from `start` on
/// stand for.
fn octave_from(name: &str, start: usize) -> (r: Option<u64>)
    requires
        start <= name@.len(),
    ensures
        r is Some == spec_octave(name@.skip(start as int)) is Some,
        r matches Some(octave) ==> spec_octave(name@.skip(start as int)) == Some(octave as int)
            && octave <= MAX_OCTAVE,
{
    let length = name.unicode_len();
    let ghost digits = name@.skip(start as int);
    if start >= length {
        return None;
    }
    let mut octave: u64 = match digit(name.get_char(start)) {
        Some(value) => value,
        None => {
            proof {
                assert(digits.take(1) =~= seq![digits[0]]);
                lemma_octave_prefix(digits, 1);
            }
            return None;
        },
    };
    assert(digits.take(1) =~= seq![digits[0]]);
    if octave > MAX_OCTAVE {
        return None;
    }
    let mut at: usize = start + 1;
    while at < length
        invariant
            length == name@.len(),
            digits == name@.skip(start as int),
            start < at <= length,
            octave <= MAX_OCTAVE,
            spec_octave(digits.take(at - start)) == Some(octave as int),
        decreases length - at,
    {
        proof {
            assert(digits.take(at - start + 1).drop_last() =~= digits.take(at - start));
            assert(digits.take(at - start + 1).last() == name@[at as int]);
        }
        match digit(name.get_char(at)) {
            Some(value) => {
                if octave * 10 + value > MAX_OCTAVE {
                    proof {
                        lemma_octave_prefix(digits, at - start + 1);
                    }
                    return None;
                }
                octave = octave * 10 + value;
            },
            None => {
                proof {
                    lemma_octave_prefix(digits, at - start + 1);
                }
                return None;
            },
        }
        at += 1;
    }
    assert(digits.take(length - start) =~= digits);
    Some(octave)
}

/// The text of a digit is one character, which stands for the digit.
proof fn lemma_digit_text(value: int)
    requires
        0 <= value <= 9,
    ensures
        digit_text(value).len() == 1,
        spec_digit(digit_text(value)[0]) == Some(value),
        digit_text(value)[0] != '#',
{
    reveal_strlit("0");
    reveal_strlit("1");
    reveal_strlit("2");
    reveal_strlit("3");
    reveal_strlit("4");
    reveal_strlit("5");
    reveal_strlit("6");
    reveal_strlit("7");
    reveal_strlit("8");
    reveal_strlit("9");
}

/// The decimal digits of the number of an octave stand for the octave.
proof fn lemma_octave_of_decimal(octave: int)
    requires
        0 <= octave <= MAX_OCTAVE,
    ensures
        spec_octave(spec_decimal(octave as nat)) == Some(octave),
        spec_decimal(octave as nat).len() >= 1,
        spec_decimal(octave as nat)[0] != '#',
{
    if octave < 10 {
        lemma_digit_text(octave);
        assert(spec_decimal(octave as nat) == digit_text(octave));
    } else {
        lemma_digit_text(1);
        lemma_digit_text(0);
        let digits = spec_decimal(10);
        assert(spec_decimal(1) == digit_text(1));
        assert(digits == spec_decimal(1) + digit_text(0));
        assert(digits.len() == 2);
        assert(digits.drop_last() =~= digit_text(1));
        assert(digits.last() == digit_text(0)[0]);
        assert(spec_octave(digits.drop_last()) == Some(1int));
        assert(spec_digit(digits.last()) == Some(0int));
    }
}

/// The name of a key is a letter that names a key, with a sharp sign behind
/// it where the key lies one above the key of the letter.
proof fn lemma_key_name(key: int)
    requires
        0 <= key < 12,
    ensures
        ({
            let name = spec_key_name(key);
            &&& 1 <= name.len() <= 2
            &&& name.len() == 2 ==> name[1] == '#'
            &&& spec_key_offset(spec_lower_code(name[0])) == Some(key - (name.len() - 1))
            &&& spec_lower_code(name[0]) != 'o' as u32
            &&& name[0] != '-'
        }),
{
    reveal_strlit("C");
    reveal_strlit("C#");
    reveal_strlit("D");
    reveal_strlit("D#");
    reveal_strlit("E");
    reveal_strlit("F");
    reveal_strlit("F#");
    reveal_strlit("G");
    reveal_strlit("G#");
    reveal_strlit("A");
    reveal_strlit("A#");
    reveal_strlit("B");
}

/// The name that a note is shown by stands for the note: a pitched note, a
/// note-off and the empty note are read back from their text as they are.
pub proof fn lemma_note_name_round_trip(note: Note)
    requires
        note.is_note_on() || note.is_note_off() || note.0 == EMPTY_NOTE,
    ensures
        spec_note_from_name(spec_note_text(note)) == Some(note),
{
    reveal_strlit("off");
    reveal_strlit("OFF");
    reveal_strlit("---");
    if note.is_note_off() {
        assert(spec_eq_ignore_ascii_case("OFF"@, "off"@));
    } else if note.is_note_on() {
        let key = (note.0 % 12) as int;
        let octave = (note.0 / 12) as int;
        lemma_key_name(key);
        lemma_octave_of_decimal(octave);
        let letters = spec_key_name(key);
        let digits = spec_decimal(octave as nat);
        let name = letters + digits;
        assert(name == spec_note_text(note));
        assert(name[0] == letters[0]);
        assert(!spec_eq_ignore_ascii_case(name, "off"@)) by {
            if spec_eq_ignore_ascii_case(name, "off"@) {
                assert(spec_lower_code(name[0]) == spec_lower_code("off"@[0]));
            }
        }
        assert(name != "---"@);
        if letters.len() == 1 {
            assert(name[1] == digits[0]);
            assert(name.skip(1) =~= digits);
        } else {
            assert(name[1] == letters[1]);
            assert(name.skip(2) =~= digits);
        }
    } else {
        assert(!spec_eq_ignore_ascii_case("---"@, "off"@)) by {
            if spec_eq_ignore_ascii_case("---"@, "off"@) {
                assert(spec_lower_code("---"@[0]) == spec_lower_code("off"@[0]));
            }
        }
    }
}

/// The note that a name stands for: a pitched note for a key with its
/// octave, whatever the case of the letter; a note-off for `off`, whatever its
/// case; an empty note for `---`.
pub fn note_from_name(name: &str) -> (r: Option<Note>)
    ensures
        r == spec_note_from_name(name@),
{
    if eq_ignore_ascii_case(name, "off") {
        return Some(Note(NOTE_OFF));
    }
    if same_text(name, "---") {
        return Some(Note(EMPTY_NOTE));
    }
    if name.unicode_len() < 2 {
        return None;
    }
    match key_offset(name.get_char(0)) {
        None => None,
        Some(key) => {
            let sharp: u64 = if name.get_char(1) == '#' {
                1
            } else {
                0
            };
            match octave_from(name, 1 + sharp as usize) {
                Some(octave) => {
                    let value = octave * 12 + key + sharp;
                    if value <= 127 {
                        Some(Note(value as u8))
                    } else {
                        None
                    }
                },
                None => None,
            }
        },
    }
}

} // verus!
