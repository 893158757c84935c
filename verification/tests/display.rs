use pattrns::display::{decimal, event_line, fixed, key_name, note_text, padded, pow10};
use pattrns::event::{
    new_parameter_change, Event, InstrumentId, NoteEvent, ParameterId, PatternEvent,
};
use pattrns::note::Note;
use pattrns::time::BeatTimeBase;

#[test]
fn numbers_in_decimal_digits() {
    assert_eq!(decimal(0), "0");
    assert_eq!(decimal(7), "7");
    assert_eq!(decimal(10), "10");
    assert_eq!(decimal(1_234_567_890), "1234567890");
    assert_eq!(decimal(u64::MAX), "18446744073709551615");
    assert_eq!(padded(5, 2), "05");
    assert_eq!(padded(0, 3), "000");
    assert_eq!(padded(123, 2), "123");
    assert_eq!(padded(0, 0), "0");
    assert_eq!(pow10(0), 1);
    assert_eq!(pow10(3), 1000);
    assert_eq!(pow10(6), 1_000_000);
    assert_eq!(pow10(7), 1_000_000);
}

#[test]
fn millionths_as_decimal_fractions() {
    assert_eq!(fixed(500_000, 2), "0.50");
    assert_eq!(fixed(250_000, 2), "0.25");
    assert_eq!(fixed(1_000_000, 2), "1.00");
    assert_eq!(fixed(-1_000_000, 2), "-1.00");
    assert_eq!(fixed(12_345_678, 2), "12.35");
    assert_eq!(fixed(1_234_567, 3), "1.235");
    assert_eq!(fixed(1_234_499, 3), "1.234");
    // values are rounded to the nearest shown place, up from the middle
    assert_eq!(fixed(995_000, 2), "1.00");
    assert_eq!(fixed(5_000, 2), "0.01");
    assert_eq!(fixed(4_999, 2), "0.00");
    assert_eq!(fixed(-1, 2), "-0.00");
    assert_eq!(fixed(3_500_000, 0), "4");
    assert_eq!(fixed(123, 6), "0.000123");
    assert_eq!(fixed(123, 9), "0.000123");
    assert_eq!(fixed(i64::MIN, 2), "-9223372036854.78");
    assert_eq!(fixed(i64::MAX, 6), "9223372036854.775807");
}

#[test]
fn notes_as_text() {
    assert_eq!(note_text(Note(48)), "C4");
    assert_eq!(note_text(Note(51)), "D#4");
    assert_eq!(note_text(Note(0)), "C0");
    assert_eq!(note_text(Note(59)), "B4");
    assert_eq!(note_text(Note(127)), "G10");
    assert_eq!(note_text(Note::off()), "OFF");
    assert_eq!(note_text(Note::empty()), "---");
    assert_eq!(note_text(Note(200)), "---");
    let names: Vec<&str> = (0..12).map(key_name).collect();
    assert_eq!(names, vec!["C", "C#", "D", "D#", "E", "F", "F#", "G", "G#", "A", "A#", "B"]);
}

#[test]
fn note_events_as_text() {
    let note = NoteEvent {
        note: Note(48),
        instrument: Some(InstrumentId(2)),
        glide: None,
        volume: 500_000,
        panning: -1_000_000,
        delay: 250_000,
    };
    assert_eq!(note.to_string(true), "C4 #02 0.50 -1.00 0.25");
    assert_eq!(note.to_string(false), "C4 0.50 -1.00 0.25");
    let plain = NoteEvent::from(Note(61));
    assert_eq!(plain.to_string(true), "C#5 NA 1.00 0.00 0.00");
    let loud = NoteEvent { volume: u64::MAX, instrument: Some(InstrumentId(123)), ..plain };
    assert_eq!(loud.to_string(true), "C#5 #123 9223372036854.78 0.00 0.00");
}

#[test]
fn parameter_changes_as_text() {
    assert_eq!(new_parameter_change(Some(ParameterId(4)), 250_000).to_string(true), "04 0.250");
    assert_eq!(new_parameter_change(None, 250_000).to_string(true), "NA 0.250");
    assert_eq!(new_parameter_change(Some(ParameterId(4)), -1_500).to_string(false), "-0.002");
}

#[test]
fn events_as_text() {
    let event = Event::NoteEvents(vec![
        Some(NoteEvent::from(Note(48))),
        None,
        Some(NoteEvent::from(Note::off())),
    ]);
    assert_eq!(event.to_string(true), "C4 NA 1.00 0.00 0.00 | --- | OFF NA 1.00 0.00 0.00");
    assert_eq!(event.to_string(false), "C4 1.00 0.00 0.00 | --- | OFF 1.00 0.00 0.00");
    assert_eq!(Event::NoteEvents(vec![]).to_string(true), "");
    assert_eq!(Event::NoteEvents(vec![None]).to_string(true), "---");
    assert_eq!(
        Event::ParameterChangeEvent(new_parameter_change(Some(ParameterId(12)), 1_000_000))
            .to_string(true),
        "12 1.000"
    );
}

#[test]
fn times_as_bars_and_beats() {
    let time_base = BeatTimeBase::new(120, 4, 44100).unwrap();
    assert_eq!(time_base.display(0), "1:1");
    assert_eq!(time_base.display(22049), "1:1");
    assert_eq!(time_base.display(22050), "1:2");
    assert_eq!(time_base.display(88200 + 22050), "2:2");
    assert_eq!(time_base.display(11 * 88200 + 3 * 22050), "12:4");
}

#[test]
fn the_line_of_an_event() {
    let time_base = BeatTimeBase::new(120, 4, 44100).unwrap();
    let event = PatternEvent {
        time: 22050,
        duration: 22050,
        event: Some(Event::NoteEvents(vec![Some(NoteEvent::from(Note(48)))])),
    };
    assert_eq!(event_line(&time_base, &event), "1:2: C4 NA 1.00 0.00 0.00");
    let rest = PatternEvent { time: 0, duration: 22050, event: None };
    assert_eq!(event_line(&time_base, &rest), "1:1: ---");
}
