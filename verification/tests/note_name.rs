use pattrns::display::note_text;
use pattrns::note::Note;
use pattrns::note_name::{digit, key_offset, note_from_name};

#[test]
fn notes_by_name() {
    assert_eq!(note_from_name("c4"), Some(Note(48)));
    assert_eq!(note_from_name("C4"), Some(Note(48)));
    assert_eq!(note_from_name("d#4"), Some(Note(51)));
    assert_eq!(note_from_name("g4"), Some(Note(55)));
    assert_eq!(note_from_name("a4"), Some(Note(57)));
    assert_eq!(note_from_name("c0"), Some(Note(0)));
    assert_eq!(note_from_name("B9"), Some(Note(119)));
    assert_eq!(note_from_name("c10"), Some(Note(120)));
    assert_eq!(note_from_name("g10"), Some(Note(127)));
    assert_eq!(note_from_name("c04"), Some(Note(48)));
    assert_eq!(note_from_name("off"), Some(Note::off()));
    assert_eq!(note_from_name("OFF"), Some(Note::off()));
    assert_eq!(note_from_name("---"), Some(Note::empty()));
}

#[test]
fn names_that_are_no_notes() {
    for name in [
        "", "c", "4", "c#", "h4", "c-4", "cb4", "c4 ", " c4", "c4#", "c##4", "c11", "g#10", "a10",
        "c100", "c4x", "of", "offf", "--", "----", "#4",
    ] {
        assert_eq!(note_from_name(name), None, "{:?}", name);
    }
}

#[test]
fn keys_and_digits() {
    assert_eq!(key_offset('c'), Some(0));
    assert_eq!(key_offset('D'), Some(2));
    assert_eq!(key_offset('e'), Some(4));
    assert_eq!(key_offset('F'), Some(5));
    assert_eq!(key_offset('g'), Some(7));
    assert_eq!(key_offset('A'), Some(9));
    assert_eq!(key_offset('b'), Some(11));
    assert_eq!(key_offset('h'), None);
    assert_eq!(key_offset('#'), None);
    assert_eq!(digit('0'), Some(0));
    assert_eq!(digit('9'), Some(9));
    assert_eq!(digit('a'), None);
    assert_eq!(digit('/'), None);
    assert_eq!(digit(':'), None);
}

#[test]
fn the_text_of_a_note_names_the_note() {
    for value in 0..=127u8 {
        assert_eq!(note_from_name(&note_text(Note(value))), Some(Note(value)));
    }
    assert_eq!(note_from_name(&note_text(Note::off())), Some(Note::off()));
    assert_eq!(note_from_name(&note_text(Note::empty())), Some(Note::empty()));
}
