use pattrns::callback::{LuaCallback, ScriptEngine};
use pattrns::context::{CallbackContext, ContextValue, RhythmEvent};
use pattrns::emitter::{event_from_value, normalize_event, note_off_event, ScriptedEmitter};
use pattrns::event::{new_parameter_change, Event, NoteEvent, ParameterId};
use pattrns::note::{Note, C4};
use pattrns::script::{
    has_lua_callback_errors, lua_callback_errors, CallbackErrors, EnvironmentHandle,
    FunctionHandle, ScriptError, ScriptValue,
};
use pattrns::time::{BeatTimeBase, MICRO};

/// An engine with one function, which returns the values that were written
/// down for it, one per call, and remembers what it saw in the context.
struct ListEngine {
    values: Vec<Result<ScriptValue, ScriptError>>,
    calls: usize,
    seen: Vec<(String, u64, u64, u64)>,
}

impl ListEngine {
    fn new(values: Vec<Result<ScriptValue, ScriptError>>) -> Self {
        Self { values, calls: 0, seen: vec![] }
    }
}

fn whole(context: &CallbackContext, key: &str) -> u64 {
    match context.index(key) {
        Ok(ContextValue::Whole(value)) => value,
        other => panic!("unexpected value {:?}", other),
    }
}

impl ScriptEngine for ListEngine {
    fn call(
        &mut self,
        _function: FunctionHandle,
        context: &CallbackContext,
        _argument: &ScriptValue,
    ) -> Result<ScriptValue, ScriptError> {
        let playback = match context.index("playback") {
            Ok(ContextValue::Text(text)) => text.to_string(),
            other => panic!("unexpected value {:?}", other),
        };
        let pulse_time_step = match context.index("pulse_time_step") {
            Ok(ContextValue::Number(value)) => value,
            other => panic!("unexpected value {:?}", other),
        };
        self.seen.push((
            playback,
            whole(context, "pulse_step"),
            pulse_time_step,
            whole(context, "step"),
        ));
        let value = self.values[self.calls % self.values.len()].clone();
        self.calls += 1;
        value
    }

    fn environment(&mut self, _function: FunctionHandle) -> Option<EnvironmentHandle> {
        None
    }

    fn set_environment(
        &mut self,
        _function: FunctionHandle,
        _environment: EnvironmentHandle,
    ) -> Result<(), ScriptError> {
        Ok(())
    }

    fn function_name(&mut self, _function: FunctionHandle) -> Option<String> {
        Some("emit".to_string())
    }
}

fn time_base() -> BeatTimeBase {
    BeatTimeBase::new(120, 4, 44100).unwrap()
}

fn emitter(engine: &mut ListEngine) -> ScriptedEmitter {
    ScriptedEmitter::new(LuaCallback::new(engine, FunctionHandle(0)), &time_base())
}

fn on(note: u8) -> Option<NoteEvent> {
    Some(NoteEvent::from(Note(note)))
}

fn off() -> Option<NoteEvent> {
    Some(NoteEvent::from(Note::off()))
}

fn pulse() -> RhythmEvent {
    RhythmEvent { value: MICRO, step_time: MICRO }
}

fn normalized(previous: Vec<Option<NoteEvent>>, new: Vec<Option<NoteEvent>>) -> Vec<Option<NoteEvent>> {
    let mut state = previous;
    let mut event = Event::NoteEvents(new);
    normalize_event(&mut event, &mut state);
    match event {
        Event::NoteEvents(notes) => {
            assert_eq!(state, notes);
            notes
        }
        _ => panic!("expected notes"),
    }
}

#[test]
fn the_note_off_event() {
    assert_eq!(note_off_event(), NoteEvent::from(Note::off()));
    assert!(note_off_event().note.is_note_off());
}

#[test]
fn a_note_that_is_not_answered_gets_a_note_off() {
    let a = on(C4);
    let b = on(C4 + 4);
    let c = on(C4 + 7);
    // voice 0 is silent in the new vector: its note is turned off
    assert_eq!(normalized(vec![a, b], vec![None, c]), vec![off(), c]);
}

#[test]
fn normalization_by_the_kind_of_slot() {
    let a = on(C4);
    let b = on(C4 + 4);
    let empty = Some(NoteEvent::from(Note::empty()));
    // a new note replaces, a note-off stays
    assert_eq!(normalized(vec![a], vec![b]), vec![b]);
    assert_eq!(normalized(vec![a], vec![off()]), vec![off()]);
    // an empty note does not answer a sounding note
    assert_eq!(normalized(vec![a], vec![empty]), vec![off()]);
    // nothing sounded: slots pass as they are
    assert_eq!(normalized(vec![None], vec![None]), vec![None]);
    assert_eq!(normalized(vec![off()], vec![None]), vec![None]);
    assert_eq!(normalized(vec![empty], vec![empty]), vec![empty]);
    assert_eq!(normalized(vec![], vec![a, None]), vec![a, None]);
    // a shorter vector turns off the voices that it leaves out
    assert_eq!(normalized(vec![a, None, b], vec![]), vec![off(), None, off()]);
    assert_eq!(normalized(vec![a, b], vec![b]), vec![b, off()]);
    // the note-offs are remembered: they are not repeated
    assert_eq!(normalized(vec![off(), off()], vec![]), vec![None, None]);
}

#[test]
fn parameter_changes_are_not_normalized() {
    let mut state = vec![on(C4)];
    let mut event = Event::ParameterChangeEvent(new_parameter_change(Some(ParameterId(1)), 5));
    normalize_event(&mut event, &mut state);
    assert_eq!(event, Event::ParameterChangeEvent(new_parameter_change(Some(ParameterId(1)), 5)));
    assert_eq!(state, vec![on(C4)]);
}

#[test]
fn values_that_stand_for_events() {
    assert_eq!(event_from_value(&ScriptValue::Nil), Ok(Event::NoteEvents(vec![])));
    assert_eq!(
        event_from_value(&ScriptValue::Notes(vec![on(C4), None])),
        Ok(Event::NoteEvents(vec![on(C4), None]))
    );
    let change = new_parameter_change(None, 3);
    assert_eq!(
        event_from_value(&ScriptValue::ParameterChange(change)),
        Ok(Event::ParameterChangeEvent(change))
    );
    for (value, kind) in [
        (ScriptValue::Boolean(false), "boolean"),
        (ScriptValue::Number(4), "number"),
        (ScriptValue::Text("c4".into()), "string"),
        (ScriptValue::Function(FunctionHandle(0)), "function"),
    ] {
        assert_eq!(
            event_from_value(&value).unwrap_err().message,
            format!("Failed to convert a '{}' value to events", kind)
        );
    }
}

#[test]
fn run_emits_normalized_events_and_counts() {
    let mut engine = ListEngine::new(vec![
        Ok(ScriptValue::Notes(vec![on(C4), on(C4 + 4)])),
        Ok(ScriptValue::Notes(vec![None, on(C4 + 7)])),
        Ok(ScriptValue::Nil),
    ]);
    let mut errors = CallbackErrors::new();
    let mut emitter = emitter(&mut engine);
    assert_eq!(
        emitter.run(&mut engine, &mut errors, pulse(), true),
        Some(Event::NoteEvents(vec![on(C4), on(C4 + 4)]))
    );
    // a rest counts the pulse only and does not call the script
    assert_eq!(emitter.run(&mut engine, &mut errors, pulse(), false), None);
    assert_eq!(
        emitter.run(&mut engine, &mut errors, RhythmEvent { value: MICRO, step_time: 500_000 }, true),
        Some(Event::NoteEvents(vec![off(), on(C4 + 7)]))
    );
    assert_eq!(
        emitter.run(&mut engine, &mut errors, pulse(), true),
        Some(Event::NoteEvents(vec![None, off()]))
    );
    assert_eq!(
        engine.seen,
        vec![
            ("running".to_string(), 1, 0, 1),
            ("running".to_string(), 3, 2_000_000, 2),
            ("running".to_string(), 4, 2_500_000, 3),
        ]
    );
    assert_eq!(has_lua_callback_errors(&errors), None);
}

#[test]
fn a_failing_script_emits_nothing_and_queues_its_error() {
    let failure = ScriptError::runtime("boom".into());
    let mut engine = ListEngine::new(vec![
        Ok(ScriptValue::Notes(vec![on(C4)])),
        Err(failure.clone()),
        Ok(ScriptValue::Text("c4".into())),
        Ok(ScriptValue::Notes(vec![None])),
    ]);
    let mut errors = CallbackErrors::new();
    let mut emitter = emitter(&mut engine);
    assert!(emitter.run(&mut engine, &mut errors, pulse(), true).is_some());
    assert_eq!(emitter.run(&mut engine, &mut errors, pulse(), true), None);
    assert_eq!(emitter.run(&mut engine, &mut errors, pulse(), true), None);
    assert_eq!(
        lua_callback_errors(&errors),
        vec![
            failure,
            ScriptError::runtime("Failed to convert a 'string' value to events".into())
        ]
    );
    // the note that sounded before the failures is still turned off
    assert_eq!(
        emitter.run(&mut engine, &mut errors, pulse(), true),
        Some(Event::NoteEvents(vec![off()]))
    );
    // the steps went on through the failures
    assert_eq!(engine.seen.last().unwrap(), &("running".to_string(), 4, 3_000_000, 4));
}

#[test]
fn emit_takes_in_a_value() {
    let mut engine = ListEngine::new(vec![Ok(ScriptValue::Nil)]);
    let mut emitter = emitter(&mut engine);
    assert_eq!(
        emitter.emit(&ScriptValue::Notes(vec![on(C4)])),
        Ok(Event::NoteEvents(vec![on(C4)]))
    );
    assert_eq!(emitter.emit(&ScriptValue::Nil), Ok(Event::NoteEvents(vec![off()])));
    assert!(emitter.emit(&ScriptValue::Boolean(true)).is_err());
    let change = new_parameter_change(None, 1);
    assert_eq!(
        emitter.emit(&ScriptValue::ParameterChange(change)),
        Ok(Event::ParameterChangeEvent(change))
    );
    assert_eq!(engine.calls, 0);
}

#[test]
fn advance_seeks_without_emitting() {
    let mut engine = ListEngine::new(vec![Ok(ScriptValue::Notes(vec![on(C4)]))]);
    let mut errors = CallbackErrors::new();
    let mut emitter = emitter(&mut engine);
    // not known to be stateless yet: the script is called
    emitter.advance(&mut engine, &mut errors, pulse(), true);
    assert_eq!(engine.seen, vec![("seeking".to_string(), 1, 0, 1)]);
    assert_eq!(emitter.is_stateful(), Some(false));
    // a plain function is not called again while seeking
    emitter.advance(&mut engine, &mut errors, pulse(), true);
    emitter.advance(&mut engine, &mut errors, pulse(), false);
    assert_eq!(engine.calls, 1);
    // the counters went on
    assert_eq!(
        emitter.run(&mut engine, &mut errors, pulse(), true),
        Some(Event::NoteEvents(vec![on(C4)]))
    );
    assert_eq!(engine.seen.last().unwrap(), &("running".to_string(), 4, 3_000_000, 3));
}

#[test]
fn reset_starts_over() {
    let mut engine = ListEngine::new(vec![Ok(ScriptValue::Notes(vec![on(C4)]))]);
    let mut errors = CallbackErrors::new();
    let mut emitter = emitter(&mut engine);
    emitter.run(&mut engine, &mut errors, pulse(), true);
    emitter.run(&mut engine, &mut errors, pulse(), false);
    emitter.reset(&mut engine, &mut errors);
    // the note that sounded is forgotten, the counters are at zero
    assert_eq!(
        emitter.run(&mut engine, &mut errors, pulse(), true),
        Some(Event::NoteEvents(vec![on(C4)]))
    );
    assert_eq!(engine.seen.last().unwrap(), &("running".to_string(), 1, 0, 1));
    assert_eq!(emitter.emit(&ScriptValue::Nil), Ok(Event::NoteEvents(vec![off()])));
    emitter.reset(&mut engine, &mut errors);
    assert_eq!(emitter.emit(&ScriptValue::Nil), Ok(Event::NoteEvents(vec![])));
    assert_eq!(has_lua_callback_errors(&errors), None);
}

#[test]
fn duplicates_count_on_their_own() {
    let mut engine = ListEngine::new(vec![Ok(ScriptValue::Notes(vec![on(C4)]))]);
    let mut errors = CallbackErrors::new();
    let mut emitter = emitter(&mut engine);
    emitter.run(&mut engine, &mut errors, pulse(), true);
    let mut copy = emitter.duplicate();
    copy.run(&mut engine, &mut errors, pulse(), true);
    copy.run(&mut engine, &mut errors, pulse(), true);
    assert_eq!(engine.seen.last().unwrap(), &("running".to_string(), 3, 2_000_000, 3));
    emitter.run(&mut engine, &mut errors, pulse(), true);
    assert_eq!(engine.seen.last().unwrap(), &("running".to_string(), 2, 1_000_000, 2));
    // the copy remembers the note that sounded when it was made
    assert_eq!(copy.emit(&ScriptValue::Nil), Ok(Event::NoteEvents(vec![off()])));
}
