//! Notes, events and times as text.

use vstd::prelude::*;
use vstd::string::{StrSliceExecFns, StringExecFns};
use crate::event::{Event, EventView, InstrumentId, NoteEvent, ParameterChangeEvent, ParameterId};
use crate::note::Note;
use crate::time::{saturated, BeatTimeBase, SampleTime, MICRO};

verus! {

/// The text of a digit.
pub open spec fn digit_text(digit: int) -> Seq<char> {
    if digit == 0 {
        "0"@
    } else if digit == 1 {
        "1"@
    } else if digit == 2 {
        "2"@
    } else if digit == 3 {
        "3"@
    } else if digit == 4 {
        "4"@
    } else if digit == 5 {
        "5"@
    } else if digit == 6 {
        "6"@
    } else if digit == 7 {
        "7"@
    } else if digit == 8 {
        "8"@
    } else {
        "9"@
    }
}

/// The text of a digit.
pub fn digit_str(digit: u64) -> (r: &'static str)
    ensures
        r@ == digit_text(digit as int),
{
    if digit == 0 {
        "0"
    } else if digit == 1 {
        "1"
    } else if digit == 2 {
        "2"
    } else if digit == 3 {
        "3"
    } else if digit == 4 {
        "4"
    } else if digit == 5 {
        "5"
    } else if digit == 6 {
        "6"
    } else if digit == 7 {
        "7"
    } else if digit == 8 {
        "8"
    } else {
        "9"
    }
}

/// A number in decimal digits, without leading zeros.
pub open spec fn spec_decimal(number: nat) -> Seq<char>
    decreases number,
{
    if number < 10 {
        digit_text(number as int)
    } else {
        spec_decimal(number / 10) + digit_text((number % 10) as int)
    }
}

/// A number in decimal digits, without leading zeros.
pub fn decimal(number: u64) -> (r: String)
    ensures
        r@ == spec_decimal(number as nat),
    decreases number,
{
    if number < 10 {
        digit_str(number).to_owned()
    } else {
        let mut text = decimal(number / 10);
        text.append(digit_str(number % 10));
        text
    }
}

/// A number in decimal digits, with as many digits as `width` says or more:
/// a number that is too short has zeros in front.
pub open spec fn spec_padded(number: nat, width: nat) -> Seq<char>
    decreases width,
{
    if width <= spec_decimal(number).len() {
        spec_decimal(number)
    } else {
        "0"@ + spec_padded(number, (width - 1) as nat)
    }
}

/// A number in decimal digits, with zeros in front up to the given width.
pub fn padded(number: u64, width: usize) -> (r: String)
    ensures
        r@ == spec_padded(number as nat, width as nat),
{
    let digits = decimal(number);
    let length = digits.as_str().unicode_len();
    let mut text = String::new();
    let mut at: usize = width;
    assert(text@ + spec_padded(number as nat, at as nat) =~= spec_padded(
        number as nat,
        width as nat,
    ));
    while at > length
        invariant
            digits@ == spec_decimal(number as nat),
            length == digits@.len(),
            at <= width,
            text@ + spec_padded(number as nat, at as nat) == spec_padded(
                number as nat,
                width as nat,
            ),
        decreases at,
    {
        let ghost before = text@;
        text.append("0");
        at -= 1;
        assert(text@ + spec_padded(number as nat, at as nat) =~= before + ("0"@ + spec_padded(
            number as nat,
            at as nat,
        )));
    }
    text.append(digits.as_str());
    text
}

/// Ten to the power of `places`, for up to six places.
pub open spec fn spec_pow10(places: nat) -> int {
    if places == 0 {
        1
    } else if places == 1 {
        10
    } else if places == 2 {
        100
    } else if places == 3 {
        1_000
    } else if places == 4 {
        10_000
    } else if places == 5 {
        100_000
    } else {
        1_000_000
    }
}

/// Ten to the power of `places`, for up to six places.
pub fn pow10(places: usize) -> (r: u64)
    ensures
        r == spec_pow10(places as nat),
{
    if places == 0 {
        1
    } else if places == 1 {
        10
    } else if places == 2 {
        100
    } else if places == 3 {
        1_000
    } else if places == 4 {
        10_000
    } else if places == 5 {
        100_000
    } else {
        1_000_000
    }
}

/// The places behind the point that a text shows: six at most.
pub open spec fn shown_places(places: nat) -> nat {
    if places > 6 {
        6
    } else {
        places
    }
}

/// The size of a value in millionths, in units of the last place that is
/// shown, rounded to the nearest unit and up from the middle.
pub open spec fn spec_rounded(value: int, places: nat) -> nat {
    let size = if value < 0 {
        -value
    } else {
        value
    };
    let unit = spec_pow10((6 - shown_places(places)) as nat);
    ((size + unit / 2) / unit) as nat
}

/// A value in millionths as a decimal fraction with the given count of
/// places behind the point. A negative value has a minus sign in front.
pub open spec fn spec_fixed(value: int, places: nat) -> Seq<char> {
    let rounded = spec_rounded(value, places);
    let scale = spec_pow10(shown_places(places)) as nat;
    let sign = if value < 0 {
        "-"@
    } else {
        ""@
    };
    if shown_places(places) == 0 {
        sign + spec_decimal(rounded)
    } else {
        sign + spec_decimal(rounded / scale) + "."@ + spec_padded(
            rounded % scale,
            shown_places(places),
        )
    }
}

/// A value in millionths as a decimal fraction with the given count of
/// places behind the point.
pub fn fixed(value: i64, places: usize) -> (r: String)
    ensures
        r@ == spec_fixed(value as int, places as nat),
{
    let places: usize = if places > 6 {
        6
    } else {
        places
    };
    let size: u64 = if value < 0 {
        (-(value as i128)) as u64
    } else {
        value as u64
    };
    let unit = pow10(6 - places);
    let scale = pow10(places);
    let rounded: u64 = ((size as u128 + (unit / 2) as u128) / (unit as u128)) as u64;
    let mut text = if value < 0 {
        "-".to_owned()
    } else {
        "".to_owned()
    };
    if places == 0 {
        text.append(decimal(rounded).as_str());
    } else {
        text.append(decimal(rounded / scale).as_str());
        text.append(".");
        text.append(padded(rounded % scale, places).as_str());
    }
    text
}

/// The name of the key of a pitched note within its octave.
pub open spec fn spec_key_name(key: int) -> Seq<char> {
    if key == 0 {
        "C"@
    } else if key == 1 {
        "C#"@
    } else if key == 2 {
        "D"@
    } else if key == 3 {
        "D#"@
    } else if key == 4 {
        "E"@
    } else if key == 5 {
        "F"@
    } else if key == 6 {
        "F#"@
    } else if key == 7 {
        "G"@
    } else if key == 8 {
        "G#"@
    } else if key == 9 {
        "A"@
    } else if key == 10 {
        "A#"@
    } else {
        "B"@
    }
}

/// The name of the key of a pitched note within its octave.
pub fn key_name(key: u8) -> (r: &'static str)
    ensures
        r@ == spec_key_name(key as int),
{
    if key == 0 {
        "C"
    } else if key == 1 {
        "C#"
    } else if key == 2 {
        "D"
    } else if key == 3 {
        "D#"
    } else if key == 4 {
        "E"
    } else if key == 5 {
        "F"
    } else if key == 6 {
        "F#"
    } else if key == 7 {
        "G"
    } else if key == 8 {
        "G#"
    } else if key == 9 {
        "A"
    } else if key == 10 {
        "A#"
    } else {
        "B"
    }
}

/// A note as text: the key and the octave of a pitched note, `OFF` for a
/// note-off, `---` for an empty note.
pub open spec fn spec_note_text(note: Note) -> Seq<char> {
    if note.is_note_off() {
        "OFF"@
    } else if note.is_note_on() {
        spec_key_name((note.0 % 12) as int) + spec_decimal((note.0 / 12) as nat)
    } else {
        "---"@
    }
}

/// A note as text.
pub fn note_text(note: Note) -> (r: String)
    ensures
        r@ == spec_note_text(note),
{
    if note.is_note_off() {
        "OFF".to_owned()
    } else if note.is_note_on() {
        let mut text = key_name(note.0 % 12).to_owned();
        text.append(decimal((note.0 / 12) as u64).as_str());
        text
    } else {
        "---".to_owned()
    }
}

/// The instrument of a note as text: `#` and the id in two digits or more, or
/// `NA` for none.
pub open spec fn spec_instrument_text(instrument: Option<InstrumentId>) -> Seq<char> {
    match instrument {
        Some(instrument) => "#"@ + spec_padded(instrument.0 as nat, 2),
        None => "NA"@,
    }
}

/// A note event as text: the note, the instrument if it is to be shown, the
/// volume, the panning and the delay, each with two places.
pub open spec fn spec_note_event_text(note_event: NoteEvent, show_instruments: bool) -> Seq<
    char,
> {
    let values = fixed_values_text(note_event);
    if show_instruments {
        spec_note_text(note_event.note) + " "@ + spec_instrument_text(note_event.instrument)
            + " "@ + values
    } else {
        spec_note_text(note_event.note) + " "@ + values
    }
}

/// Volume, panning and delay of a note event as text.
pub open spec fn fixed_values_text(note_event: NoteEvent) -> Seq<char> {
    spec_fixed(saturated_signed(note_event.volume), 2) + " "@ + spec_fixed(
        note_event.panning as int,
        2,
    ) + " "@ + spec_fixed(saturated_signed(note_event.delay), 2)
}

/// A count of millionths as a signed number: counts beyond the largest signed
/// number are the largest one.
pub open spec fn saturated_signed(value: u64) -> int {
    if value > i64::MAX as u64 {
        i64::MAX as int
    } else {
        value as int
    }
}

fn signed(value: u64) -> (r: i64)
    ensures
        r == saturated_signed(value),
{
    if value > i64::MAX as u64 {
        i64::MAX
    } else {
        value as i64
    }
}

impl NoteEvent {
    /// The note event as text.
    pub fn to_string(&self, show_instruments: bool) -> (r: String)
        ensures
            r@ == spec_note_event_text(*self, show_instruments),
    {
        let mut values = fixed(signed(self.volume), 2);
        values.append(" ");
        values.append(fixed(self.panning, 2).as_str());
        values.append(" ");
        values.append(fixed(signed(self.delay), 2).as_str());
        let mut text = note_text(self.note);
        text.append(" ");
        if show_instruments {
            let instrument = match self.instrument {
                Some(instrument) => {
                    let mut id = "#".to_owned();
                    id.append(padded(instrument.0 as u64, 2).as_str());
                    id
                },
                None => "NA".to_owned(),
            };
            text.append(instrument.as_str());
            text.append(" ");
        }
        text.append(values.as_str());
        assert(text@ =~= spec_note_event_text(*self, show_instruments));
        text
    }
}

/// The parameter of a parameter change as text: the id in two digits or
/// more, or `NA` for none.
pub open spec fn spec_parameter_text(parameter: Option<ParameterId>) -> Seq<char> {
    match parameter {
        Some(parameter) => spec_padded(parameter.0 as nat, 2),
        None => "NA"@,
    }
}

/// A parameter change as text: the parameter if it is to be shown, and the
/// value with three places.
pub open spec fn spec_parameter_change_text(change: ParameterChangeEvent, show_parameter: bool)
    -> Seq<char> {
    if show_parameter {
        spec_parameter_text(change.parameter) + " "@ + spec_fixed(change.value as int, 3)
    } else {
        spec_fixed(change.value as int, 3)
    }
}

impl ParameterChangeEvent {
    /// The parameter change as text.
    pub fn to_string(&self, show_parameter: bool) -> (r: String)
        ensures
            r@ == spec_parameter_change_text(*self, show_parameter),
    {
        if show_parameter {
            let mut text = match self.parameter {
                Some(parameter) => padded(parameter.0 as u64, 2),
                None => "NA".to_owned(),
            };
            text.append(" ");
            text.append(fixed(self.value, 3).as_str());
            text
        } else {
            fixed(self.value, 3)
        }
    }
}

/// The slot of a voice as text: the note event, or `---` for none.
pub open spec fn spec_slot_text(slot: Option<NoteEvent>, show_instruments: bool) -> Seq<char> {
    match slot {
        Some(note_event) => spec_note_event_text(note_event, show_instruments),
        None => "---"@,
    }
}

/// The first `count` slots of a note vector as text, with ` | ` between
/// them.
pub open spec fn spec_notes_text(
    notes: Seq<Option<NoteEvent>>,
    count: int,
    show_instruments: bool,
) -> Seq<char>
    decreases count,
{
    if count <= 0 {
        ""@
    } else if count == 1 {
        spec_slot_text(notes[0], show_instruments)
    } else {
        spec_notes_text(notes, count - 1, show_instruments) + " | "@ + spec_slot_text(
            notes[count - 1],
            show_instruments,
        )
    }
}

/// An event as text.
pub open spec fn spec_event_text(event: EventView, show_instruments_and_parameters: bool) -> Seq<
    char,
> {
    match event {
        EventView::NoteEvents(notes) => spec_notes_text(
            notes,
            notes.len() as int,
            show_instruments_and_parameters,
        ),
        EventView::ParameterChangeEvent(change) => spec_parameter_change_text(
            change,
            show_instruments_and_parameters,
        ),
    }
}

impl Event {
    /// The event as text: the slots of a note vector with ` | ` between them,
    /// or the parameter change.
    pub fn to_string(&self, show_instruments_and_parameters: bool) -> (r: String)
        ensures
            r@ == spec_event_text(self@, show_instruments_and_parameters),
    {
        match self {
            Event::NoteEvents(note_vector) => {
                let mut text = String::new();
                let mut i: usize = 0;
                proof {
                    reveal_strlit("");
                }
                assert(text@ =~= ""@);
                while i < note_vector.len()
                    invariant
                        i <= note_vector@.len(),
                        text@ == spec_notes_text(
                            note_vector@,
                            i as int,
                            show_instruments_and_parameters,
                        ),
                    decreases note_vector@.len() - i,
                {
                    if i > 0 {
                        text.append(" | ");
                    }
                    match &note_vector[i] {
                        Some(note_event) => {
                            text.append(
                                note_event.to_string(show_instruments_and_parameters).as_str(),
                            );
                        },
                        None => {
                            text.append("---");
                        },
                    }
                    proof {
                        reveal_strlit("");
                        if i == 0 {
                            assert(text@ =~= spec_slot_text(
                                note_vector@[0],
                                show_instruments_and_parameters,
                            ));
                        }
                    }
                    i += 1;
                }
                text
            },
            Event::ParameterChangeEvent(change) => change.to_string(
                show_instruments_and_parameters,
            ),
        }
    }
}

/// Bar and beat of a sample position as text, both counted from one, with a
/// colon between them.
pub open spec fn spec_time_text(time_base: BeatTimeBase, sample_time: SampleTime) -> Seq<char> {
    let beats = saturated(time_base.spec_samples_to_beats(sample_time)) / MICRO;
    spec_decimal((beats / time_base.beats_per_bar as u64 + 1) as nat) + ":"@ + spec_decimal(
        (beats % time_base.beats_per_bar as u64 + 1) as nat,
    )
}

impl BeatTimeBase {
    /// Bar and beat of a sample position as text.
    pub fn display(&self, sample_time: SampleTime) -> (r: String)
        requires
            self.is_valid(),
        ensures
            r@ == spec_time_text(*self, sample_time),
    {
        let beats: u64 = self.samples_to_beats(sample_time) / MICRO;
        let mut text = decimal(beats / self.beats_per_bar as u64 + 1);
        text.append(":");
        text.append(decimal(beats % self.beats_per_bar as u64 + 1).as_str());
        text
    }
}

/// The line that shows an event of a pattern: the bar and the beat, and the
/// event, or `---` for none.
pub open spec fn spec_event_line(
    time_base: BeatTimeBase,
    time: SampleTime,
    event: Option<EventView>,
) -> Seq<char> {
    spec_time_text(time_base, time) + ": "@ + (match event {
        Some(event) => spec_event_text(event, true),
        None => "---"@,
    })
}

/// The line that shows an event of a pattern.
pub fn event_line(time_base: &BeatTimeBase, pattern_event: &crate::event::PatternEvent) -> (r:
    String)
    requires
        time_base.is_valid(),
    ensures
        r@ == spec_event_line(*time_base, pattern_event.time, pattern_event@.event),
{
    let mut text = time_base.display(pattern_event.time);
    text.append(": ");
    match &pattern_event.event {
        Some(event) => {
            text.append(event.to_string(true).as_str());
        },
        None => {
            text.append("---");
        },
    }
    text
}

} // verus!
