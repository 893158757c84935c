use pattrns::event::{
    clamp_panning, clamp_unit, clone_notes, new_empty_note, new_note, new_note_vector,
    new_parameter_change, new_polyphonic_note_sequence, Event, InstrumentId, NoteEvent,
    ParameterId, PatternEvent,
};
use pattrns::note::{Note, C4, C5, EMPTY_NOTE, MAX_NOTE, NOTE_OFF};
use pattrns::time::MICRO;

#[test]
fn note_kinds() {
    assert!(Note(C4).is_note_on());
    assert!(!Note(C4).is_note_off());
    assert!(!Note(C4).is_empty());
    assert!(Note::off().is_note_off());
    assert!(!Note::off().is_note_on());
    assert!(Note::empty().is_empty());
    assert!(!Note::empty().is_note_on());
    assert_eq!(Note::off().value(), NOTE_OFF);
    assert_eq!(Note::empty().value(), EMPTY_NOTE);
    assert_eq!(Note::empty().value(), 0xFE);
    assert_eq!(Note::off().value(), 0xFF);
    assert!(Note(MAX_NOTE).is_note_on());
    assert!(Note(MAX_NOTE + 1).is_empty());
}

#[test]
fn note_from_raw_value() {
    assert_eq!(Note::from(48u8), Note(C4));
    assert_eq!(Note::from(0u8), Note(0));
    assert_eq!(Note::from(127u8), Note(127));
    assert_eq!(Note::from(128u8), Note(127));
    assert_eq!(Note::from(0xFDu8), Note(127));
    assert_eq!(Note::from(0xFEu8), Note::empty());
    assert_eq!(Note::from(0xFFu8), Note::off());
    assert_eq!(u8::from(Note(C5)), 60);
}

#[test]
fn note_distance_and_transposition() {
    assert_eq!(Note(48).semitones(Note(50)), 2);
    assert_eq!(Note(50).semitones(Note(48)), 2);
    assert_eq!(Note(48).semitones(Note(48)), 0);
    // the root note plays the sample unchanged
    assert_eq!(Note(C5).transposed(Note(C5)), 60);
    assert_eq!(Note(C4).transposed(Note(C5)), 48);
    assert_eq!(Note(C5).transposed(Note(C4)), 72);
    assert_eq!(Note(0).transposed(Note(127)), 0);
    assert_eq!(Note(127).transposed(Note(0)), 127);
}

#[test]
fn ids_convert_from_and_to_numbers() {
    assert_eq!(InstrumentId::from(7usize), InstrumentId(7));
    assert_eq!(usize::from(InstrumentId(7)), 7);
    assert_eq!(ParameterId::from(3usize), ParameterId(3));
    assert_eq!(usize::from(ParameterId(3)), 3);
}

#[test]
fn clamps() {
    assert_eq!(clamp_unit(0), 0);
    assert_eq!(clamp_unit(MICRO), MICRO);
    assert_eq!(clamp_unit(MICRO + 1), MICRO);
    assert_eq!(clamp_panning(-1_000_001), -1_000_000);
    assert_eq!(clamp_panning(1_000_001), 1_000_000);
    assert_eq!(clamp_panning(-250_000), -250_000);
}

#[test]
fn note_events_from_tuples() {
    let plain = NoteEvent::from(Note(C4));
    assert_eq!(
        plain,
        NoteEvent {
            note: Note(C4),
            instrument: None,
            glide: None,
            volume: MICRO,
            panning: 0,
            delay: 0
        }
    );
    let with_instrument = NoteEvent::from((Note(C4), Some(InstrumentId(2))));
    assert_eq!(with_instrument.instrument, Some(InstrumentId(2)));
    assert_eq!(with_instrument.volume, MICRO);
    let with_volume = NoteEvent::from((Note(C4), None, 2 * MICRO));
    assert_eq!(with_volume.volume, MICRO);
    let with_panning = NoteEvent::from((Note(C4), None, 500_000u64, -2_000_000i64));
    assert_eq!(with_panning.volume, 500_000);
    assert_eq!(with_panning.panning, -1_000_000);
    let with_delay = NoteEvent::from((Note(C4), None, 500_000u64, 250_000i64, 3_000_000u64));
    assert_eq!(with_delay.panning, 250_000);
    assert_eq!(with_delay.delay, MICRO);
    assert!(plain.equals(&NoteEvent::new(Note(C4), None, MICRO, 0, 0)));
    assert!(!plain.equals(&with_instrument));
}

#[test]
fn note_shortcuts() {
    assert_eq!(new_empty_note(), None);
    assert_eq!(new_note(Note(C4)), Some(NoteEvent::from(Note(C4))));
    assert_eq!(
        new_note((Note(C4), Some(InstrumentId(1)), 500_000u64)),
        Some(NoteEvent::new(Note(C4), Some(InstrumentId(1)), 500_000, 0, 0))
    );
    let vector = new_note_vector(vec![Some(Note(48)), None, Some(Note(55))]);
    assert_eq!(
        vector,
        vec![Some(NoteEvent::from(Note(48))), None, Some(NoteEvent::from(Note(55)))]
    );
    assert_eq!(new_note_vector::<Note>(vec![]), vec![]);
    let chords = new_polyphonic_note_sequence(vec![
        vec![Some(Note(48)), Some(Note(52))],
        vec![],
        vec![None, Some(Note(55))],
    ]);
    assert_eq!(
        chords,
        vec![
            vec![Some(NoteEvent::from(Note(48))), Some(NoteEvent::from(Note(52)))],
            vec![],
            vec![None, Some(NoteEvent::from(Note(55)))],
        ]
    );
}

#[test]
fn parameter_changes() {
    let change = new_parameter_change(Some(ParameterId(4)), 250_000);
    assert_eq!(change.parameter, Some(ParameterId(4)));
    assert_eq!(change.value, 250_000);
    assert_eq!(new_parameter_change(None, -1).parameter, None);
}

#[test]
fn events_are_copied_by_value() {
    let notes = vec![Some(NoteEvent::from(Note(C4))), None];
    assert_eq!(clone_notes(&notes), notes);
    let event = Event::NoteEvents(notes);
    let copy = event.duplicate();
    assert_eq!(copy, event);
    let change = Event::ParameterChangeEvent(new_parameter_change(None, 5));
    assert_eq!(change.duplicate(), change);
    let pattern_event = PatternEvent { time: 1, duration: 2, event: Some(event) };
    assert_eq!(pattern_event.clone(), pattern_event);
}
