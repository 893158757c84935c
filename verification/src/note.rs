//! Note values: a pitched key, an empty slot, or a note-off.

use vstd::prelude::*;
use vstd::std_specs::convert::FromSpecImpl;

verus! {

/// Highest pitched note value.
pub const MAX_NOTE: u8 = 0x7F;

/// Note value which refers to an empty, undefined note.
pub const EMPTY_NOTE: u8 = 0xFE;

/// Note value which turns off the note playing on the same voice.
pub const NOTE_OFF: u8 = 0xFF;

/// Middle C.
pub const C4: u8 = 48;

/// The C one octave above middle C: the default root key of a sample.
pub const C5: u8 = 60;

/// A single note value: pitched (`0..=127`, twelve keys per octave starting at
/// C0), empty (a slot that does nothing) or off.
#[derive(Copy, Clone, Debug, PartialEq, Eq, Hash, Structural)]
pub struct Note(pub u8);

impl Note {
    /// An empty note.
    pub fn empty() -> (r: Note)
        ensures
            r.0 == EMPTY_NOTE,
            r.is_empty(),
    {
        Note(EMPTY_NOTE)
    }

    /// A note-off.
    pub fn off() -> (r: Note)
        ensures
            r.0 == NOTE_OFF,
            r.is_note_off(),
    {
        Note(NOTE_OFF)
    }

    /// True for pitched notes.
    #[verifier::when_used_as_spec(spec_is_note_on)]
    pub fn is_note_on(&self) -> (r: bool)
        ensures
            r == self.spec_is_note_on(),
    {
        self.0 <= MAX_NOTE
    }

    /// True for the note-off value.
    #[verifier::when_used_as_spec(spec_is_note_off)]
    pub fn is_note_off(&self) -> (r: bool)
        ensures
            r == self.spec_is_note_off(),
    {
        self.0 == NOTE_OFF
    }

    /// True when the note is neither pitched nor a note-off.
    #[verifier::when_used_as_spec(spec_is_empty)]
    pub fn is_empty(&self) -> (r: bool)
        ensures
            r == self.spec_is_empty(),
    {
        self.0 > MAX_NOTE && self.0 != NOTE_OFF
    }

    pub open spec fn spec_is_note_on(&self) -> bool {
        self.0 <= MAX_NOTE
    }

    pub open spec fn spec_is_note_off(&self) -> bool {
        self.0 == NOTE_OFF
    }

    pub open spec fn spec_is_empty(&self) -> bool {
        self.0 > MAX_NOTE && self.0 != NOTE_OFF
    }

    /// The raw value of the note.
    pub fn value(&self) -> (r: u8)
        ensures
            r == self.0,
    {
        self.0
    }

    /// Distance between two note values in semitones.
    pub open spec fn spec_semitones(self, other: Note) -> int {
        if self.0 >= other.0 {
            self.0 - other.0
        } else {
            other.0 - self.0
        }
    }

    /// Distance between two note values in semitones.
    pub fn semitones(&self, other: Note) -> (r: u8)
        ensures
            r == self.spec_semitones(other),
    {
        if self.0 >= other.0 {
            self.0 - other.0
        } else {
            other.0 - self.0
        }
    }

    /// The key at which a sample with the given root key has to be played to
    /// sound this note: `60` plays the sample unchanged, the result is kept
    /// within `0..=127`.
    pub open spec fn spec_transposed(self, root: Note) -> int {
        let key = self.0 as int + 60 - root.0 as int;
        if key < 0 {
            0
        } else if key > 127 {
            127
        } else {
            key
        }
    }

    /// See [`Note::spec_transposed`].
    pub fn transposed(&self, root: Note) -> (r: u8)
        ensures
            r == self.spec_transposed(root),
            r <= 127,
    {
        let key: i32 = self.0 as i32 + 60 - root.0 as i32;
        if key < 0 {
            0
        } else if key > 127 {
            127
        } else {
            key as u8
        }
    }
}

/// The note that a raw byte stands for: `0xFF` is a note-off, `0xFE` an empty
/// note, everything else a pitched note, clamped to the highest key.
pub open spec fn note_from_value(value: u8) -> Note {
    if value == NOTE_OFF || value == EMPTY_NOTE || value <= MAX_NOTE {
        Note(value)
    } else {
        Note(MAX_NOTE)
    }
}

impl From<u8> for Note {
    fn from(value: u8) -> (r: Note) {
        if value == NOTE_OFF || value == EMPTY_NOTE || value <= MAX_NOTE {
            Note(value)
        } else {
            Note(MAX_NOTE)
        }
    }
}

impl FromSpecImpl<u8> for Note {
    open spec fn obeys_from_spec() -> bool {
        true
    }

    open spec fn from_spec(value: u8) -> Note {
        note_from_value(value)
    }
}

impl From<Note> for u8 {
    fn from(note: Note) -> (r: u8) {
        note.0
    }
}

impl FromSpecImpl<Note> for u8 {
    open spec fn obeys_from_spec() -> bool {
        true
    }

    open spec fn from_spec(note: Note) -> u8 {
        note.0
    }
}

/// A note made from a raw byte is pitched, empty or off, and exactly one of
/// the three.
pub proof fn lemma_note_kinds(value: u8)
    ensures
        ({
            let n = note_from_value(value);
            (n.is_note_on() || n.is_note_off() || n.is_empty())
                && !(n.is_note_on() && n.is_note_off())
                && !(n.is_note_on() && n.is_empty())
                && !(n.is_note_off() && n.is_empty())
                && (n.is_empty() <==> value == EMPTY_NOTE)
                && (n.is_note_off() <==> value == NOTE_OFF)
        }),
{
}

} // verus!
