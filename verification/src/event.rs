//! Events which get emitted by a pattern: notes for a set of voices, or a
//! parameter change, wrapped with the time at which they are due.

use vstd::prelude::*;
use vstd::std_specs::convert::{FromSpecImpl, IntoSpec};
use crate::note::Note;
use crate::time::{SampleTime, MICRO};

verus! {

/// Id to refer to a specific instrument/patch/sample in a [`NoteEvent`].
#[derive(Copy, Clone, Debug, PartialEq, Eq, Hash, Structural)]
pub struct InstrumentId(pub usize);

/// Id to refer to a specific parameter in a [`ParameterChangeEvent`].
#[derive(Copy, Clone, Debug, PartialEq, Eq, Hash, Structural)]
pub struct ParameterId(pub usize);

impl From<usize> for InstrumentId {
    fn from(id: usize) -> (r: InstrumentId) {
        InstrumentId(id)
    }
}

impl FromSpecImpl<usize> for InstrumentId {
    open spec fn obeys_from_spec() -> bool {
        true
    }

    open spec fn from_spec(id: usize) -> InstrumentId {
        InstrumentId(id)
    }
}

impl From<InstrumentId> for usize {
    fn from(id: InstrumentId) -> (r: usize) {
        id.0
    }
}

impl FromSpecImpl<InstrumentId> for usize {
    open spec fn obeys_from_spec() -> bool {
        true
    }

    open spec fn from_spec(id: InstrumentId) -> usize {
        id.0
    }
}

impl From<usize> for ParameterId {
    fn from(id: usize) -> (r: ParameterId) {
        ParameterId(id)
    }
}

impl FromSpecImpl<usize> for ParameterId {
    open spec fn obeys_from_spec() -> bool {
        true
    }

    open spec fn from_spec(id: usize) -> ParameterId {
        ParameterId(id)
    }
}

impl From<ParameterId> for usize {
    fn from(id: ParameterId) -> (r: usize) {
        id.0
    }
}

impl FromSpecImpl<ParameterId> for usize {
    open spec fn obeys_from_spec() -> bool {
        true
    }

    open spec fn from_spec(id: ParameterId) -> usize {
        id.0
    }
}

/// `value` kept within `low..=high`.
pub open spec fn spec_clamp(value: int, low: int, high: int) -> int {
    if value < low {
        low
    } else if value > high {
        high
    } else {
        value
    }
}

/// A volume, in millionths, kept within `0..=1`.
pub fn clamp_unit(value: u64) -> (r: u64)
    ensures
        r == spec_clamp(value as int, 0, MICRO as int),
{
    if value > MICRO {
        MICRO
    } else {
        value
    }
}

/// A panning, in millionths, kept within `-1..=1`.
pub fn clamp_panning(value: i64) -> (r: i64)
    ensures
        r == spec_clamp(value as int, -(MICRO as int), MICRO as int),
{
    if value < -1_000_000 {
        -1_000_000
    } else if value > 1_000_000 {
        1_000_000
    } else {
        value
    }
}

/// Single note event in an [`Event`]. Volume, panning, delay and glide are
/// counted in millionths.
#[derive(Copy, Clone, Debug, PartialEq, Eq, Structural)]
pub struct NoteEvent {
    pub note: Note,
    pub instrument: Option<InstrumentId>,
    /// Share of the event's duration over which the pitch glides from the note
    /// that is playing in the same voice; `None` starts a new note.
    pub glide: Option<u64>,
    /// Linear gain: one million plays the sample as it is.
    pub volume: u64,
    /// From minus one million (left) to one million (right).
    pub panning: i64,
    /// Share of the event's duration by which the note is delayed, from zero
    /// to one million.
    pub delay: u64,
}

impl NoteEvent {
    /// A note event as the data model wants it: panning and delay in range.
    pub open spec fn is_normal(&self) -> bool {
        &&& -(MICRO as int) <= self.panning <= MICRO as int
        &&& self.delay <= MICRO
    }

    /// The event for a note at full volume, centred and without delay.
    pub open spec fn spec_new(
        note: Note,
        instrument: Option<InstrumentId>,
        volume: u64,
        panning: i64,
        delay: u64,
    ) -> NoteEvent {
        NoteEvent {
            note,
            instrument,
            glide: None,
            volume: spec_clamp(volume as int, 0, MICRO as int) as u64,
            panning: spec_clamp(panning as int, -(MICRO as int), MICRO as int) as i64,
            delay: spec_clamp(delay as int, 0, MICRO as int) as u64,
        }
    }

    /// A note event without glide. Volume and delay are clamped to `0..=1`,
    /// panning to `-1..=1`.
    pub fn new(
        note: Note,
        instrument: Option<InstrumentId>,
        volume: u64,
        panning: i64,
        delay: u64,
    ) -> (r: NoteEvent)
        ensures
            r == NoteEvent::spec_new(note, instrument, volume, panning, delay),
            r.is_normal(),
    {
        NoteEvent {
            note,
            instrument,
            glide: None,
            volume: clamp_unit(volume),
            panning: clamp_panning(panning),
            delay: clamp_unit(delay),
        }
    }

    /// True when both events hold the same values.
    pub fn equals(&self, other: &NoteEvent) -> (r: bool)
        ensures
            r == (*self == *other),
    {
        let same_instrument = match (self.instrument, other.instrument) {
            (None, None) => true,
            (Some(a), Some(b)) => a.0 == b.0,
            _ => false,
        };
        let same_glide = match (self.glide, other.glide) {
            (None, None) => true,
            (Some(a), Some(b)) => a == b,
            _ => false,
        };
        self.note.0 == other.note.0 && same_instrument && same_glide && self.volume
            == other.volume && self.panning == other.panning && self.delay == other.delay
    }
}

impl From<Note> for NoteEvent {
    fn from(note: Note) -> (r: NoteEvent) {
        NoteEvent::new(note, None, MICRO, 0, 0)
    }
}

impl FromSpecImpl<Note> for NoteEvent {
    open spec fn obeys_from_spec() -> bool {
        true
    }

    open spec fn from_spec(note: Note) -> NoteEvent {
        NoteEvent::spec_new(note, None, MICRO, 0, 0)
    }
}

impl From<(Note, Option<InstrumentId>)> for NoteEvent {
    fn from(value: (Note, Option<InstrumentId>)) -> (r: NoteEvent) {
        NoteEvent::new(value.0, value.1, MICRO, 0, 0)
    }
}

impl FromSpecImpl<(Note, Option<InstrumentId>)> for NoteEvent {
    open spec fn obeys_from_spec() -> bool {
        true
    }

    open spec fn from_spec(value: (Note, Option<InstrumentId>)) -> NoteEvent {
        NoteEvent::spec_new(value.0, value.1, MICRO, 0, 0)
    }
}

impl From<(Note, Option<InstrumentId>, u64)> for NoteEvent {
    fn from(value: (Note, Option<InstrumentId>, u64)) -> (r: NoteEvent) {
        NoteEvent::new(value.0, value.1, value.2, 0, 0)
    }
}

impl FromSpecImpl<(Note, Option<InstrumentId>, u64)> for NoteEvent {
    open spec fn obeys_from_spec() -> bool {
        true
    }

    open spec fn from_spec(value: (Note, Option<InstrumentId>, u64)) -> NoteEvent {
        NoteEvent::spec_new(value.0, value.1, value.2, 0, 0)
    }
}

impl From<(Note, Option<InstrumentId>, u64, i64)> for NoteEvent {
    fn from(value: (Note, Option<InstrumentId>, u64, i64)) -> (r: NoteEvent) {
        NoteEvent::new(value.0, value.1, value.2, value.3, 0)
    }
}

impl FromSpecImpl<(Note, Option<InstrumentId>, u64, i64)> for NoteEvent {
    open spec fn obeys_from_spec() -> bool {
        true
    }

    open spec fn from_spec(value: (Note, Option<InstrumentId>, u64, i64)) -> NoteEvent {
        NoteEvent::spec_new(value.0, value.1, value.2, value.3, 0)
    }
}

impl From<(Note, Option<InstrumentId>, u64, i64, u64)> for NoteEvent {
    fn from(value: (Note, Option<InstrumentId>, u64, i64, u64)) -> (r: NoteEvent) {
        NoteEvent::new(value.0, value.1, value.2, value.3, value.4)
    }
}

impl FromSpecImpl<(Note, Option<InstrumentId>, u64, i64, u64)> for NoteEvent {
    open spec fn obeys_from_spec() -> bool {
        true
    }

    open spec fn from_spec(value: (Note, Option<InstrumentId>, u64, i64, u64)) -> NoteEvent {
        NoteEvent::spec_new(value.0, value.1, value.2, value.3, value.4)
    }
}

/// Shortcut for creating an empty [`NoteEvent`]
pub fn new_empty_note() -> (r: Option<NoteEvent>)
    ensures
        r is None,
{
    None
}

/// Shortcut for creating a new [`NoteEvent`].
pub fn new_note<E: Into<NoteEvent>>(note_event: E) -> (r: Option<NoteEvent>)
    ensures
        r is Some,
        E::obeys_into_spec() ==> r == Some(note_event.into_spec()),
{
    Some(note_event.into())
}

/// What [`new_note_vector`] makes of one slot.
pub open spec fn spec_note_slot<E: Into<NoteEvent>>(slot: Option<E>) -> Option<NoteEvent> {
    match slot {
        Some(e) => Some(e.into_spec()),
        None => None,
    }
}

/// Shortcut for creating a vector of [`NoteEvent`]s:
/// e.g. a sequence of single notes
pub fn new_note_vector<E: Into<NoteEvent>>(sequence: Vec<Option<E>>) -> (r: Vec<
    Option<NoteEvent>,
>)
    ensures
        r@.len() == sequence@.len(),
        forall|i: int| 0 <= i < r@.len() ==> (#[trigger] r@[i] is Some) == (sequence@[i] is Some),
        E::obeys_into_spec() ==> r@ == sequence@.map_values(
            |slot: Option<E>| spec_note_slot(slot),
        ),
{
    let mut event_sequence: Vec<Option<NoteEvent>> = Vec::with_capacity(sequence.len());
    let ghost source = sequence@;
    for event in it: sequence
        invariant
            source == it.seq(),
            event_sequence@.len() == it.index(),
            forall|i: int|
                0 <= i < event_sequence@.len() ==> (#[trigger] event_sequence@[i] is Some) == (
                source[i] is Some),
            E::obeys_into_spec() ==> forall|i: int|
                0 <= i < event_sequence@.len() ==> #[trigger] event_sequence@[i] == spec_note_slot(
                    source[i],
                ),
    {
        if let Some(event) = event {
            event_sequence.push(Some(event.into()));
        } else {
            event_sequence.push(None);
        }
    }
    assert(E::obeys_into_spec() ==> event_sequence@ =~= source.map_values(
        |slot: Option<E>| spec_note_slot(slot),
    ));
    event_sequence
}

/// Shortcut for creating a new sequence of polyphonic [`NoteEvent`]:
/// e.g. a sequence of chords
pub fn new_polyphonic_note_sequence<E: Into<NoteEvent>>(
    polyphonic_sequence: Vec<Vec<Option<E>>>,
) -> (r: Vec<Vec<Option<NoteEvent>>>)
    ensures
        r@.len() == polyphonic_sequence@.len(),
        forall|k: int|
            0 <= k < r@.len() ==> (#[trigger] r@[k])@.len() == polyphonic_sequence@[k]@.len(),
        forall|k: int, i: int|
            0 <= k < r@.len() && 0 <= i < r@[k]@.len() ==> (#[trigger] r@[k]@[i] is Some) == (
            polyphonic_sequence@[k]@[i] is Some),
        E::obeys_into_spec() ==> forall|k: int|
            0 <= k < r@.len() ==> (#[trigger] r@[k])@ == polyphonic_sequence@[k]@.map_values(
                |slot: Option<E>| spec_note_slot(slot),
            ),
{
    let mut polyphonic_event_sequence: Vec<Vec<Option<NoteEvent>>> = Vec::with_capacity(
        polyphonic_sequence.len(),
    );
    let ghost source = polyphonic_sequence@;
    for sequence in it: polyphonic_sequence
        invariant
            source == it.seq(),
            polyphonic_event_sequence@.len() == it.index(),
            forall|k: int|
                0 <= k < polyphonic_event_sequence@.len() ==> (
                #[trigger] polyphonic_event_sequence@[k])@.len() == source[k]@.len(),
            forall|k: int, i: int|
                0 <= k < polyphonic_event_sequence@.len() && 0 <= i
                    < polyphonic_event_sequence@[k]@.len() ==> (
                #[trigger] polyphonic_event_sequence@[k]@[i] is Some) == (source[k]@[i] is Some),
            E::obeys_into_spec() ==> forall|k: int|
                0 <= k < polyphonic_event_sequence@.len() ==> (
                #[trigger] polyphonic_event_sequence@[k])@ == source[k]@.map_values(
                    |slot: Option<E>| spec_note_slot(slot),
                ),
    {
        let event_sequence = new_note_vector(sequence);
        polyphonic_event_sequence.push(event_sequence);
    }
    polyphonic_event_sequence
}

/// Single parameter change event in an [`Event`]. The value is counted in
/// millionths.
#[derive(Copy, Clone, Debug, PartialEq, Eq, Structural)]
pub struct ParameterChangeEvent {
    pub parameter: Option<ParameterId>,
    pub value: i64,
}

/// Shortcut for creating a new [`ParameterChangeEvent`].
pub fn new_parameter_change(parameter: Option<ParameterId>, value: i64) -> (r:
    ParameterChangeEvent)
    ensures
        r.parameter == parameter,
        r.value == value,
{
    ParameterChangeEvent { parameter, value }
}

/// Event value, produced by an emitter.
#[derive(Clone, Debug, PartialEq, Eq)]
pub enum Event {
    /// One slot per voice: `None` leaves the voice as it is.
    NoteEvents(Vec<Option<NoteEvent>>),
    ParameterChangeEvent(ParameterChangeEvent),
}

/// The value of an [`Event`].
pub enum EventView {
    NoteEvents(Seq<Option<NoteEvent>>),
    ParameterChangeEvent(ParameterChangeEvent),
}

impl View for Event {
    type V = EventView;

    open spec fn view(&self) -> EventView {
        match self {
            Event::NoteEvents(notes) => EventView::NoteEvents(notes@),
            Event::ParameterChangeEvent(change) => EventView::ParameterChangeEvent(*change),
        }
    }
}

impl EventView {
    /// The note slots of the event: none for a parameter change.
    pub open spec fn notes(self) -> Seq<Option<NoteEvent>> {
        match self {
            EventView::NoteEvents(notes) => notes,
            EventView::ParameterChangeEvent(_) => Seq::empty(),
        }
    }
}

/// A copy of a vector of note slots.
pub fn clone_notes(notes: &Vec<Option<NoteEvent>>) -> (r: Vec<Option<NoteEvent>>)
    ensures
        r@ == notes@,
{
    let mut copy: Vec<Option<NoteEvent>> = Vec::with_capacity(notes.len());
    let mut i: usize = 0;
    while i < notes.len()
        invariant
            i <= notes@.len(),
            copy@ == notes@.take(i as int),
        decreases notes@.len() - i,
    {
        copy.push(notes[i]);
        assert(notes@.take(i as int).push(notes@[i as int]) =~= notes@.take(i as int + 1));
        i += 1;
    }
    assert(notes@.take(notes@.len() as int) =~= notes@);
    copy
}

impl Event {
    /// A copy of the event.
    pub fn duplicate(&self) -> (r: Event)
        ensures
            r@ == self@,
    {
        match self {
            Event::NoteEvents(notes) => Event::NoteEvents(clone_notes(notes)),
            Event::ParameterChangeEvent(change) => Event::ParameterChangeEvent(*change),
        }
    }
}

/// An [`Event`] with the time at which it is due.
#[derive(Clone, Debug, PartialEq, Eq)]
pub struct PatternEvent {
    /// Absolute sample position.
    pub time: SampleTime,
    /// Length in sample frames.
    pub duration: SampleTime,
    /// `None` for a pulse that produced no event.
    pub event: Option<Event>,
}

/// The value of a [`PatternEvent`].
pub struct PatternEventView {
    pub time: SampleTime,
    pub duration: SampleTime,
    pub event: Option<EventView>,
}

impl View for PatternEvent {
    type V = PatternEventView;

    open spec fn view(&self) -> PatternEventView {
        PatternEventView {
            time: self.time,
            duration: self.duration,
            event: match self.event {
                Some(event) => Some(event@),
                None => None,
            },
        }
    }
}

impl PatternEventView {
    /// The note slots of the event: none for a rest or a parameter change.
    pub open spec fn notes(self) -> Seq<Option<NoteEvent>> {
        match self.event {
            Some(event) => event.notes(),
            None => Seq::empty(),
        }
    }
}

} // verus!
