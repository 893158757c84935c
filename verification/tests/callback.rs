use pattrns::callback::{LuaCallback, ScriptEngine};
use pattrns::context::{CallbackContext, ContextPlaybackState, ContextValue, RhythmEvent};
use pattrns::event::{Event, NoteEvent};
use pattrns::note::{Note, C4};
use pattrns::parameter::{Parameter, ParameterType};
use pattrns::script::{
    add_lua_callback_error, clear_lua_callback_errors, has_lua_callback_errors,
    lua_callback_error_names, lua_callback_errors, CallbackErrors, EnvironmentHandle,
    FunctionHandle, ScriptError, ScriptValue,
};
use pattrns::time::{BeatTimeBase, MICRO};

/// What a function of the test engine does when it is called.
#[derive(Clone)]
enum Behaviour {
    /// Returns the step of the context.
    Step,
    /// Returns a new counter.
    Generator,
    /// Returns a number that goes up by one with every call.
    Counter(i64),
    /// Returns a counter on its first call and nothing after that.
    BrokenGenerator(bool),
    /// Fails.
    Failing,
}

struct TestEngine {
    functions: Vec<Behaviour>,
    names: Vec<Option<String>>,
    environments: Vec<Option<EnvironmentHandle>>,
    calls: usize,
}

impl TestEngine {
    fn new() -> Self {
        Self { functions: vec![], names: vec![], environments: vec![], calls: 0 }
    }

    fn add(&mut self, behaviour: Behaviour, name: Option<&str>) -> FunctionHandle {
        self.functions.push(behaviour);
        self.names.push(name.map(|n| n.to_string()));
        self.environments.push(None);
        FunctionHandle(self.functions.len() - 1)
    }
}

fn step_of(context: &CallbackContext) -> i64 {
    match context.index("step") {
        Ok(ContextValue::Whole(step)) => step as i64,
        _ => -1,
    }
}

impl ScriptEngine for TestEngine {
    fn call(
        &mut self,
        function: FunctionHandle,
        context: &CallbackContext,
        _argument: &ScriptValue,
    ) -> Result<ScriptValue, ScriptError> {
        self.calls += 1;
        match self.functions[function.0].clone() {
            Behaviour::Step => Ok(ScriptValue::Number(step_of(context) * MICRO as i64)),
            Behaviour::Generator => Ok(ScriptValue::Function(self.add(Behaviour::Counter(0), None))),
            Behaviour::Counter(count) => {
                self.functions[function.0] = Behaviour::Counter(count + 1);
                Ok(ScriptValue::Number((count + 1) * MICRO as i64))
            }
            Behaviour::BrokenGenerator(called) => {
                self.functions[function.0] = Behaviour::BrokenGenerator(true);
                if called {
                    Ok(ScriptValue::Nil)
                } else {
                    Ok(ScriptValue::Function(self.add(Behaviour::Counter(0), None)))
                }
            }
            Behaviour::Failing => Err(ScriptError::runtime("attempt to call a nil value".into())),
        }
    }

    fn environment(&mut self, function: FunctionHandle) -> Option<EnvironmentHandle> {
        self.environments[function.0]
    }

    fn set_environment(
        &mut self,
        function: FunctionHandle,
        environment: EnvironmentHandle,
    ) -> Result<(), ScriptError> {
        self.environments[function.0] = Some(environment);
        Ok(())
    }

    fn function_name(&mut self, function: FunctionHandle) -> Option<String> {
        self.names[function.0].clone()
    }
}

fn numbers(callback: &mut LuaCallback, engine: &mut TestEngine, count: usize) -> Vec<i64> {
    let mut results = vec![];
    for step in 0..count {
        callback.set_context_step(step);
        match callback.call(engine) {
            Ok(ScriptValue::Number(number)) => results.push(number / MICRO as i64),
            other => panic!("unexpected result {:?}", other),
        }
    }
    results
}

#[test]
fn a_callback_is_not_known_to_be_stateful_before_its_first_call() {
    let mut engine = TestEngine::new();
    let plain = engine.add(Behaviour::Step, None);
    let generator = engine.add(Behaviour::Generator, None);
    let mut callback = LuaCallback::new(&mut engine, plain);
    assert_eq!(callback.is_stateful(), None);
    callback.set_context_step(0);
    callback.call(&mut engine).unwrap();
    assert_eq!(callback.is_stateful(), Some(false));
    let mut callback = LuaCallback::new(&mut engine, generator);
    assert_eq!(callback.is_stateful(), None);
    callback.call(&mut engine).unwrap();
    assert_eq!(callback.is_stateful(), Some(true));
    assert_eq!(engine.calls, 3);
}

#[test]
fn a_generator_is_called_for_its_function_and_then_for_the_first_result() {
    let mut engine = TestEngine::new();
    let generator = engine.add(Behaviour::Generator, None);
    let mut callback = LuaCallback::new(&mut engine, generator);
    assert_eq!(numbers(&mut callback, &mut engine, 3), vec![1, 2, 3]);
    // one call of the generator, three of its function
    assert_eq!(engine.calls, 4);
}

#[test]
fn resetting_a_plain_function_changes_nothing() {
    let mut engine = TestEngine::new();
    let plain = engine.add(Behaviour::Step, None);
    let mut never_reset = LuaCallback::new(&mut engine, plain);
    let expected = numbers(&mut never_reset, &mut engine, 5);
    assert_eq!(expected, vec![1, 2, 3, 4, 5]);

    let mut callback = LuaCallback::new(&mut engine, plain);
    let calls = engine.calls;
    // before the first call
    assert!(callback.reset(&mut engine).is_ok());
    assert_eq!(callback.is_stateful(), None);
    assert_eq!(numbers(&mut callback, &mut engine, 2), vec![1, 2]);
    // and after it
    assert!(callback.reset(&mut engine).is_ok());
    assert_eq!(callback.is_stateful(), Some(false));
    assert_eq!(engine.calls, calls + 2);
    assert_eq!(numbers(&mut callback, &mut engine, 5), expected);
}

#[test]
fn resetting_a_generator_starts_it_over() {
    let mut engine = TestEngine::new();
    let generator = engine.add(Behaviour::Generator, None);
    let mut callback = LuaCallback::new(&mut engine, generator);
    assert_eq!(numbers(&mut callback, &mut engine, 3), vec![1, 2, 3]);
    assert!(callback.reset(&mut engine).is_ok());
    assert_eq!(callback.is_stateful(), Some(true));
    assert_eq!(numbers(&mut callback, &mut engine, 3), vec![1, 2, 3]);
    assert!(callback.reset(&mut engine).is_ok());
    assert_eq!(numbers(&mut callback, &mut engine, 1), vec![1]);
}

#[test]
fn a_generator_that_returns_no_function_on_reset_is_an_error() {
    let mut engine = TestEngine::new();
    let generator = engine.add(Behaviour::BrokenGenerator(false), Some("broken"));
    let mut callback = LuaCallback::new(&mut engine, generator);
    assert_eq!(numbers(&mut callback, &mut engine, 2), vec![1, 2]);
    let error = callback.reset(&mut engine).unwrap_err();
    assert_eq!(
        error.message,
        "Failed to reset custom generator function 'anonymous function' Expected a function as \
         return value, got a 'nil'"
    );
    // the callback goes on with the function that it had
    assert_eq!(callback.is_stateful(), Some(true));
    assert_eq!(numbers(&mut callback, &mut engine, 1), vec![3]);
}

#[test]
fn reset_returned_takes_a_function_only() {
    let mut callback = LuaCallback::with_environment(FunctionHandle(0), None, None);
    assert!(callback
        .first_call_returned(&ScriptValue::Function(FunctionHandle(1)), None, Some("e".into()))
        .is_some());
    assert_eq!(callback.name(), "e");
    assert!(callback
        .reset_returned(&ScriptValue::Function(FunctionHandle(2)), Some("f".into()))
        .is_ok());
    assert_eq!(callback.function(), FunctionHandle(2));
    assert_eq!(callback.name(), "f");
    for (value, kind) in [
        (ScriptValue::Nil, "nil"),
        (ScriptValue::Boolean(true), "boolean"),
        (ScriptValue::Number(1), "number"),
        (ScriptValue::Text("c4".into()), "string"),
        (ScriptValue::Notes(vec![]), "table"),
    ] {
        let error = callback.reset_returned(&value, Some("g".into())).unwrap_err();
        // a value that is no function changes nothing
        assert_eq!(callback.function(), FunctionHandle(2));
        assert_eq!(callback.name(), "f");
        assert_eq!(
            error.message,
            format!(
                "Failed to reset custom generator function 'f' Expected a function as return \
                 value, got a '{}'",
                kind
            )
        );
    }
}

#[test]
fn first_call_returned_tells_generators_from_plain_functions() {
    let mut callback = LuaCallback::with_environment(
        FunctionHandle(7),
        Some(EnvironmentHandle(1)),
        Some("plain".into()),
    );
    assert_eq!(callback.first_call_returned(&ScriptValue::Number(1), None, None), None);
    assert_eq!(callback.is_stateful(), Some(false));
    assert_eq!(callback.name(), "plain");
    let mut callback = LuaCallback::with_environment(FunctionHandle(7), None, Some("outer".into()));
    assert_eq!(callback.name(), "outer");
    assert_eq!(
        callback.first_call_returned(
            &ScriptValue::Function(FunctionHandle(8)),
            Some(EnvironmentHandle(2)),
            None
        ),
        Some(FunctionHandle(8))
    );
    assert_eq!(callback.is_stateful(), Some(true));
    assert_eq!(callback.name(), "anonymous function");
}

#[test]
fn a_failing_function_hands_its_error_on() {
    let mut engine = TestEngine::new();
    let failing = engine.add(Behaviour::Failing, None);
    let mut callback = LuaCallback::new(&mut engine, failing);
    let error = callback.call(&mut engine).unwrap_err();
    assert_eq!(error.message, "attempt to call a nil value");
    assert_eq!(callback.is_stateful(), Some(false));
    let mut errors = CallbackErrors::new();
    callback.handle_error(&mut errors, &error);
    assert_eq!(has_lua_callback_errors(&errors), Some(error));
    assert_eq!(lua_callback_error_names(&errors), vec!["anonymous function".to_string()]);
}

#[test]
fn names_of_functions() {
    let mut engine = TestEngine::new();
    let named = engine.add(Behaviour::Step, Some("emit"));
    let anonymous = engine.add(Behaviour::Step, None);
    assert_eq!(LuaCallback::new(&mut engine, named).name(), "emit");
    assert_eq!(LuaCallback::new(&mut engine, anonymous).name(), "anonymous function");
    let callback = LuaCallback::new(&mut engine, named);
    assert_eq!(callback.duplicate().name(), "emit");
    let mut errors = CallbackErrors::new();
    callback.handle_error(&mut errors, &ScriptError::runtime("failed".into()));
    assert_eq!(lua_callback_error_names(&errors), vec!["emit".to_string()]);
    assert_eq!(LuaCallback::function_name(None), "anonymous function");
    assert_eq!(LuaCallback::function_name(Some("f".into())), "f");
}

#[test]
fn duplicates_share_the_function_and_own_their_context() {
    let mut engine = TestEngine::new();
    let plain = engine.add(Behaviour::Step, None);
    let mut callback = LuaCallback::new(&mut engine, plain);
    callback.set_context_step(4);
    let mut copy = callback.duplicate();
    assert!(copy.context().index("step").is_err());
    copy.set_context_step(9);
    assert_eq!(step_of(callback.context()), 5);
    assert_eq!(step_of(copy.context()), 10);
    assert!(matches!(callback.call(&mut engine), Ok(ScriptValue::Number(5_000_000))));
    assert!(matches!(copy.call(&mut engine), Ok(ScriptValue::Number(10_000_000))));
}

#[test]
fn the_error_queue_keeps_errors_in_order() {
    let mut errors = CallbackErrors::new();
    assert_eq!(has_lua_callback_errors(&errors), None);
    assert_eq!(lua_callback_errors(&errors), vec![]);
    let first = ScriptError::runtime("first".into());
    let second = ScriptError::runtime("second".into());
    add_lua_callback_error(&mut errors, "a", &first);
    add_lua_callback_error(&mut errors, "b", &second);
    assert_eq!(has_lua_callback_errors(&errors), Some(first.clone()));
    assert_eq!(lua_callback_errors(&errors), vec![first, second]);
    clear_lua_callback_errors(&mut errors);
    assert_eq!(has_lua_callback_errors(&errors), None);
    assert_eq!(lua_callback_errors(&errors), vec![]);
}

fn whole(context: &CallbackContext, key: &str) -> u64 {
    match context.index(key) {
        Ok(ContextValue::Whole(value)) => value,
        other => panic!("unexpected value {:?}", other),
    }
}

fn number(context: &CallbackContext, key: &str) -> u64 {
    match context.index(key) {
        Ok(ContextValue::Number(value)) => value,
        other => panic!("unexpected value {:?}", other),
    }
}

#[test]
fn the_context_holds_what_was_set() {
    let mut callback = LuaCallback::with_environment(FunctionHandle(0), None, None);
    let time_base =
        BeatTimeBase { beats_per_min: 124_500_000, beats_per_bar: 3, samples_per_sec: 48000 };
    callback.set_emitter_context(
        ContextPlaybackState::Seeking,
        &time_base,
        RhythmEvent { value: 500_000, step_time: 250_000 },
        3,
        1_750_000,
        2,
    );
    let context = callback.context();
    assert!(matches!(context.index("playback"), Ok(ContextValue::Text("seeking"))));
    assert_eq!(number(context, "beats_per_min"), 124_500_000);
    assert_eq!(whole(context, "beats_per_bar"), 3);
    assert_eq!(whole(context, "samples_per_sec"), 48000);
    assert_eq!(number(context, "pulse_value"), 500_000);
    assert_eq!(number(context, "pulse_time"), 250_000);
    // steps are counted from one
    assert_eq!(whole(context, "pulse_step"), 4);
    assert_eq!(number(context, "pulse_time_step"), 1_750_000);
    assert_eq!(whole(context, "step"), 3);
    assert!(context.index("channel").is_err());
    callback.set_cycle_context(ContextPlaybackState::Running, &time_base, 1, 7, 333_333);
    let context = callback.context();
    assert!(matches!(context.index("playback"), Ok(ContextValue::Text("running"))));
    assert_eq!(whole(context, "channel"), 2);
    assert_eq!(whole(context, "step"), 8);
    assert_eq!(number(context, "step_length"), 333_333);
    callback.set_context_step(usize::MAX);
    assert_eq!(whole(callback.context(), "step"), u64::MAX);
}

#[test]
fn the_context_cannot_be_written_and_has_no_other_fields() {
    let context = CallbackContext::new();
    assert_eq!(
        context.index("volume").unwrap_err().message,
        "undefined field 'volume' in context"
    );
    assert_eq!(context.index("step").unwrap_err().message, "undefined field 'step' in context");
    assert_eq!(
        context.new_index().unwrap_err().message,
        "context is read-only and thus can't be modified"
    );
    assert_eq!(
        context.new_parameter().unwrap_err().message,
        "context inputs are read-only and thus can't be modified"
    );
    assert!(matches!(context.index("parameter"), Ok(ContextValue::Parameters)));
    assert!(matches!(context.index("trigger"), Ok(ContextValue::Trigger(None))));
}

#[test]
fn the_context_holds_the_trigger_event() {
    let mut callback = LuaCallback::with_environment(FunctionHandle(0), None, None);
    let event = Event::NoteEvents(vec![Some(NoteEvent::from(Note(C4)))]);
    callback.set_context_trigger_event(&event);
    match callback.context().index("trigger") {
        Ok(ContextValue::Trigger(Some(trigger))) => assert_eq!(trigger, event),
        other => panic!("unexpected value {:?}", other),
    }
}

#[test]
fn the_context_reads_parameters_by_id() {
    let parameters = vec![
        Parameter::new("on", "", "", ParameterType::Boolean, 0, 1_000_000, 1_000_000, vec![])
            .unwrap(),
        Parameter::new("count", "", "", ParameterType::Integer, 0, 8_000_000, 3_000_000, vec![])
            .unwrap(),
        Parameter::new("amount", "", "", ParameterType::Float, -500_000, 500_000, 125_000, vec![])
            .unwrap(),
        Parameter::new(
            "mode",
            "",
            "",
            ParameterType::Enum,
            0,
            2_000_000,
            1_000_000,
            vec!["up".into(), "down".into(), "random".into()],
        )
        .unwrap(),
    ];
    let mut callback = LuaCallback::with_environment(FunctionHandle(0), None, None);
    callback.set_context_parameters(&parameters);
    let context = callback.context();
    assert_eq!(context.parameter("on"), Ok(ScriptValue::Boolean(true)));
    assert_eq!(context.parameter("count"), Ok(ScriptValue::Number(3_000_000)));
    assert_eq!(context.parameter("amount"), Ok(ScriptValue::Number(125_000)));
    assert_eq!(context.parameter("mode"), Ok(ScriptValue::Text("down".into())));
    assert_eq!(
        context.parameter("speed").unwrap_err().message,
        "undefined parameter id 'speed' in inputs context"
    );
}

#[test]
fn the_functions_of_a_callback() {
    let mut engine = TestEngine::new();
    let generator = engine.add(Behaviour::Generator, None);
    let mut callback = LuaCallback::new(&mut engine, generator);
    assert_eq!(callback.function(), generator);
    assert_eq!(callback.generator(), None);
    callback.call(&mut engine).unwrap();
    assert_eq!(callback.generator(), Some(generator));
    assert_eq!(callback.function(), FunctionHandle(1));
    callback.reset(&mut engine).unwrap();
    assert_eq!(callback.generator(), Some(generator));
    assert_eq!(callback.function(), FunctionHandle(2));
}

#[test]
fn the_last_script_error_is_retained() {
    let mut last = pattrns::script::LastScriptError::new();
    assert_eq!(last.message(), None);
    assert!(!last.clear());
    let first = ScriptError::runtime("unexpected symbol near 'x'".into());
    let second = ScriptError::runtime("attempt to call a nil value".into());
    // a new message tells that it is new
    assert!(last.set(&first));
    assert_eq!(last.message(), Some("unexpected symbol near 'x'"));
    assert!(!last.set(&first));
    assert!(last.set(&second));
    assert_eq!(last.message(), Some("attempt to call a nil value"));
    // the script evaluates again
    assert!(last.clear());
    assert_eq!(last.message(), None);
    assert!(last.set(&second));
}
