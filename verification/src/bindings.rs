//! Events and time bases in the flat form in which they cross the boundary
//! to callers in other languages: every field is a number, and a value that
//! is not there is a number that is set aside for that.

use vstd::prelude::*;
use crate::event::{Event, PatternEvent};
use crate::note::{note_from_value, Note, EMPTY_NOTE, MAX_NOTE, NOTE_OFF};
use crate::time::{BeatTimeBase, SampleTime, MICRO};

verus! {

/// Instrument_id value which refers to an unset, undefined id.
pub const NO_INSTRUMENT_ID: u32 = 0xFFFF_FFFF;

/// Parameter change value which refers to an empty, undefined parameter.
pub const NO_PARAMETER_ID: u32 = 0xFFFF_FFFF;

/// Glide value which refers to an unset, undefined glide value, in
/// millionths.
pub const NO_GLIDE_VALUE: i64 = -1_000_000;

/// An id as the boundary holds it: its low 32 bits.
pub open spec fn spec_raw_id(id: usize) -> u32 {
    (id as int % 0x1_0000_0000) as u32
}

/// An id as the boundary holds it: its low 32 bits.
pub fn raw_id(id: usize) -> (r: u32)
    ensures
        r == spec_raw_id(id),
{
    (id as u64 % 0x1_0000_0000) as u32
}

/// A count of millionths that came over the boundary: negative counts are
/// zero.
pub open spec fn spec_unsigned(value: i64) -> u64 {
    if value < 0 {
        0
    } else {
        value as u64
    }
}

/// A count of millionths that goes over the boundary: counts beyond the
/// largest signed number are the largest one.
pub open spec fn spec_signed(value: u64) -> i64 {
    if value > i64::MAX as u64 {
        i64::MAX
    } else {
        value as i64
    }
}

fn unsigned(value: i64) -> (r: u64)
    ensures
        r == spec_unsigned(value),
{
    if value < 0 {
        0
    } else {
        value as u64
    }
}

fn signed(value: u64) -> (r: i64)
    ensures
        r == spec_signed(value),
{
    if value > i64::MAX as u64 {
        i64::MAX
    } else {
        value as i64
    }
}

/// A note event as it crosses the boundary. Glide, volume, panning and delay
/// are counted in millionths.
#[derive(Copy, Clone, Debug, PartialEq, Eq, Structural)]
pub struct NoteEvent {
    pub note: u8,
    pub instrument: u32,
    pub glide: i64,
    pub volume: i64,
    pub panning: i64,
    pub delay: i64,
}

impl NoteEvent {
    /// The empty note event.
    pub open spec fn spec_default() -> NoteEvent {
        NoteEvent {
            note: EMPTY_NOTE,
            instrument: NO_INSTRUMENT_ID,
            glide: NO_GLIDE_VALUE,
            volume: MICRO as i64,
            panning: 0,
            delay: 0,
        }
    }

    /// What a note event of the engine is at the boundary.
    pub open spec fn spec_from_note_event(value: crate::event::NoteEvent) -> NoteEvent {
        NoteEvent {
            note: value.note.0,
            instrument: match value.instrument {
                Some(id) => spec_raw_id(id.0),
                None => NO_INSTRUMENT_ID,
            },
            glide: match value.glide {
                Some(glide) => spec_signed(glide),
                None => NO_GLIDE_VALUE,
            },
            volume: spec_signed(value.volume),
            panning: value.panning,
            delay: spec_signed(value.delay),
        }
    }

    /// The note event of the engine that a note event at the boundary stands
    /// for.
    pub open spec fn spec_to_note_event(self) -> crate::event::NoteEvent {
        crate::event::NoteEvent {
            note: note_from_value(self.note),
            instrument: if self.instrument == NO_INSTRUMENT_ID {
                None
            } else {
                Some(crate::event::InstrumentId(self.instrument as usize))
            },
            glide: if self.glide == NO_GLIDE_VALUE {
                None
            } else {
                Some(spec_unsigned(self.glide))
            },
            volume: spec_unsigned(self.volume),
            panning: self.panning,
            delay: spec_unsigned(self.delay),
        }
    }

    /// What a note event of the engine is at the boundary.
    pub fn from_note_event(value: &crate::event::NoteEvent) -> (r: NoteEvent)
        ensures
            r == NoteEvent::spec_from_note_event(*value),
    {
        NoteEvent {
            note: value.note.0,
            instrument: match value.instrument {
                Some(id) => raw_id(id.0),
                None => NO_INSTRUMENT_ID,
            },
            glide: match value.glide {
                Some(glide) => signed(glide),
                None => NO_GLIDE_VALUE,
            },
            volume: signed(value.volume),
            panning: value.panning,
            delay: signed(value.delay),
        }
    }

    /// The note event of the engine that a note event at the boundary stands
    /// for.
    pub fn to_note_event(&self) -> (r: crate::event::NoteEvent)
        ensures
            r == self.spec_to_note_event(),
    {
        crate::event::NoteEvent {
            note: Note::from(self.note),
            instrument: if self.instrument == NO_INSTRUMENT_ID {
                None
            } else {
                Some(crate::event::InstrumentId(self.instrument as usize))
            },
            glide: if self.glide == NO_GLIDE_VALUE {
                None
            } else {
                Some(unsigned(self.glide))
            },
            volume: unsigned(self.volume),
            panning: self.panning,
            delay: unsigned(self.delay),
        }
    }
}

impl Default for NoteEvent {
    // create a new empty, note event
    fn default() -> (r: NoteEvent)
        ensures
            r == NoteEvent::spec_default(),
    {
        NoteEvent {
            note: EMPTY_NOTE,
            instrument: NO_INSTRUMENT_ID,
            glide: NO_GLIDE_VALUE,
            volume: 1_000_000,
            panning: 0,
            delay: 0,
        }
    }
}

/// What the slot of a voice is at the boundary: an empty note event stands
/// for a slot without one.
pub open spec fn spec_note_events(notes: Seq<Option<crate::event::NoteEvent>>) -> Seq<NoteEvent> {
    Seq::new(
        notes.len(),
        |i: int|
            match notes[i] {
                Some(event) => NoteEvent::spec_from_note_event(event),
                None => NoteEvent::spec_default(),
            },
    )
}

/// What a note vector is at the boundary.
pub fn note_events(notes: &Vec<Option<crate::event::NoteEvent>>) -> (r: Vec<NoteEvent>)
    ensures
        r@ == spec_note_events(notes@),
{
    let mut events: Vec<NoteEvent> = Vec::with_capacity(notes.len());
    let mut i: usize = 0;
    while i < notes.len()
        invariant
            i <= notes@.len(),
            events@.len() == i,
            forall|k: int| 0 <= k < i ==> events@[k] == spec_note_events(notes@)[k],
        decreases notes@.len() - i,
    {
        match &notes[i] {
            Some(event) => events.push(NoteEvent::from_note_event(event)),
            None => events.push(NoteEvent::default()),
        }
        i += 1;
    }
    assert(events@ =~= spec_note_events(notes@));
    events
}

/// The note vector of the engine that note events at the boundary stand for:
/// every slot holds a note event.
pub open spec fn spec_trigger_notes(events: Seq<NoteEvent>) -> Seq<
    Option<crate::event::NoteEvent>,
> {
    Seq::new(events.len(), |i: int| Some(events[i].spec_to_note_event()))
}

/// The trigger event that note events at the boundary stand for.
pub fn trigger_event(events: &Vec<NoteEvent>) -> (r: Event)
    ensures
        r@ == crate::event::EventView::NoteEvents(spec_trigger_notes(events@)),
{
    let mut notes: Vec<Option<crate::event::NoteEvent>> = Vec::with_capacity(events.len());
    let mut i: usize = 0;
    while i < events.len()
        invariant
            i <= events@.len(),
            notes@.len() == i,
            forall|k: int| 0 <= k < i ==> notes@[k] == spec_trigger_notes(events@)[k],
        decreases events@.len() - i,
    {
        notes.push(Some(events[i].to_note_event()));
        i += 1;
    }
    assert(notes@ =~= spec_trigger_notes(events@));
    Event::NoteEvents(notes)
}

/// A parameter change as it crosses the boundary. The value is counted in
/// millionths.
#[derive(Copy, Clone, Debug, PartialEq, Eq, Structural)]
pub struct ParameterChangeEvent {
    pub parameter: u32,
    pub value: i64,
}

impl ParameterChangeEvent {
    /// What a parameter change of the engine is at the boundary.
    pub fn from_parameter_change(value: &crate::event::ParameterChangeEvent) -> (r:
        ParameterChangeEvent)
        ensures
            r.parameter == (match value.parameter {
                Some(id) => spec_raw_id(id.0),
                None => NO_PARAMETER_ID,
            }),
            r.value == value.value,
    {
        ParameterChangeEvent {
            parameter: match value.parameter {
                Some(id) => raw_id(id.0),
                None => NO_PARAMETER_ID,
            },
            value: value.value,
        }
    }
}

/// A time base as it crosses the boundary. The tempo is counted in
/// millionths of a beat per minute.
#[derive(Copy, Clone, Debug, PartialEq, Eq, Structural)]
pub struct Timebase {
    pub bpm: u64,
    pub bpb: u32,
    pub sample_rate: u32,
}

impl Timebase {
    /// The time base of the engine.
    pub fn to_time_base(self) -> (r: BeatTimeBase)
        ensures
            r == (BeatTimeBase {
                beats_per_min: self.bpm,
                beats_per_bar: self.bpb,
                samples_per_sec: self.sample_rate,
            }),
    {
        BeatTimeBase {
            beats_per_min: self.bpm,
            beats_per_bar: self.bpb,
            samples_per_sec: self.sample_rate,
        }
    }
}

/// An event of a pattern as it is passed to the consumer: the notes or the
/// parameter change of the event, whichever it holds.
#[derive(Clone, Debug, PartialEq, Eq)]
pub struct PatternPlaybackEvent {
    pub sample_time: SampleTime,
    pub duration_in_samples: SampleTime,
    pub note_events: Vec<NoteEvent>,
    pub parameter_change_events: Vec<ParameterChangeEvent>,
}

impl PatternPlaybackEvent {
    /// What an event of a pattern is at the boundary.
    pub fn from_pattern_event(item: &PatternEvent) -> (r: PatternPlaybackEvent)
        ensures
            r.sample_time == item.time,
            r.duration_in_samples == item.duration,
            match item@.event {
                Some(crate::event::EventView::NoteEvents(notes)) => r.note_events@
                    == spec_note_events(notes) && r.parameter_change_events@.len() == 0,
                Some(crate::event::EventView::ParameterChangeEvent(change)) => r.note_events@.len()
                    == 0 && r.parameter_change_events@.len() == 1
                    && r.parameter_change_events@[0].value == change.value
                    && r.parameter_change_events@[0].parameter == (match change.parameter {
                    Some(id) => spec_raw_id(id.0),
                    None => NO_PARAMETER_ID,
                }),
                None => r.note_events@.len() == 0 && r.parameter_change_events@.len() == 0,
            },
    {
        let mut note_events_at_boundary: Vec<NoteEvent> = Vec::new();
        let mut parameter_change_events: Vec<ParameterChangeEvent> = Vec::new();
        match &item.event {
            Some(Event::NoteEvents(notes)) => {
                note_events_at_boundary = note_events(notes);
            },
            Some(Event::ParameterChangeEvent(change)) => {
                parameter_change_events.push(ParameterChangeEvent::from_parameter_change(change));
            },
            None => {},
        }
        PatternPlaybackEvent {
            sample_time: item.time,
            duration_in_samples: item.duration,
            note_events: note_events_at_boundary,
            parameter_change_events,
        }
    }
}

/// A note event of the engine comes back from the boundary as it went, as
/// long as its numbers fit: the note is pitched, empty or off, the id of the
/// instrument is less than the number that stands for none, and glide, volume
/// and delay are not beyond the largest signed number.
pub proof fn lemma_note_event_round_trip(value: crate::event::NoteEvent)
    requires
        value.note.0 <= MAX_NOTE || value.note.0 == EMPTY_NOTE || value.note.0 == NOTE_OFF,
        value.instrument matches Some(id) ==> id.0 < NO_INSTRUMENT_ID,
        value.glide matches Some(glide) ==> glide <= i64::MAX,
        value.volume <= i64::MAX,
        value.delay <= i64::MAX,
    ensures
        NoteEvent::spec_from_note_event(value).spec_to_note_event() == value,
{
}

/// The note and the sentinels of the empty note event are the ones of the
/// engine.
pub proof fn lemma_default_note_event_is_empty()
    ensures
        NoteEvent::spec_default().spec_to_note_event().note.is_empty(),
        NoteEvent::spec_default().spec_to_note_event().instrument is None,
        NoteEvent::spec_default().spec_to_note_event().glide is None,
        NoteEvent::spec_default().note == 0xFE,
        NOTE_OFF == 0xFF,
{
}

} // verus!
