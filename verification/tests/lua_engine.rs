use mlua::{Lua, MetaMethod, UserData, UserDataMethods, Value};
use pattrns::callback::{LuaCallback, ScriptEngine};
use pattrns::context::{CallbackContext, ContextValue};
use pattrns::emitter::ScriptedEmitter;
use pattrns::event::{Event, NoteEvent, PatternEvent};
use pattrns::note::Note;
use pattrns::parameter::{Parameter, ParameterError, ParameterType};
use pattrns::pattern::{Pattern, TimeUnit};
use pattrns::text::eq_ignore_ascii_case;
use pattrns::script::{
    has_lua_callback_errors, lua_callback_errors, CallbackErrors, EnvironmentHandle,
    FunctionHandle, ScriptError, ScriptValue,
};
use pattrns::time::{BeatTimeBase, MICRO};

const C4: u8 = 48;
const DS4: u8 = 51;
const G4: u8 = 55;
const A4: u8 = 57;

/// The context as scripts see it: fields are read through the context of the
/// callback, writes fail.
struct ContextData(CallbackContext);

/// The parameter table of the context.
struct ParameterData(CallbackContext);

fn script_error(error: ScriptError) -> mlua::Error {
    mlua::Error::runtime(error.message)
}

fn note_to_lua(lua: &Lua, note: &Option<NoteEvent>) -> mlua::Result<Value> {
    match note {
        None => Ok(Value::Nil),
        Some(note) => {
            let table = lua.create_table()?;
            table.set("key", note.note.value())?;
            table.set("volume", note.volume as f64 / MICRO as f64)?;
            table.set("panning", note.panning as f64 / MICRO as f64)?;
            table.set("delay", note.delay as f64 / MICRO as f64)?;
            Ok(Value::Table(table))
        }
    }
}

fn script_value_to_lua(lua: &Lua, value: ScriptValue) -> mlua::Result<Value> {
    match value {
        ScriptValue::Boolean(b) => Ok(Value::Boolean(b)),
        ScriptValue::Number(n) => Ok(Value::Number(n as f64 / MICRO as f64)),
        ScriptValue::Text(text) => Ok(Value::String(lua.create_string(&text)?)),
        _ => Ok(Value::Nil),
    }
}

impl UserData for ContextData {
    fn add_methods<M: UserDataMethods<Self>>(methods: &mut M) {
        methods.add_meta_method(MetaMethod::Index, |lua, this, key: String| {
            match this.0.index(&key).map_err(script_error)? {
                ContextValue::Whole(n) => Ok(Value::Integer(n as i64)),
                ContextValue::Number(n) => Ok(Value::Number(n as f64 / MICRO as f64)),
                ContextValue::Text(text) => Ok(Value::String(lua.create_string(text)?)),
                ContextValue::Trigger(None) => Ok(Value::Nil),
                ContextValue::Trigger(Some(Event::NoteEvents(notes))) => {
                    let list = lua.create_table()?;
                    for (i, note) in notes.iter().enumerate() {
                        list.set(i + 1, note_to_lua(lua, note)?)?;
                    }
                    let trigger = lua.create_table()?;
                    trigger.set("notes", list)?;
                    Ok(Value::Table(trigger))
                }
                ContextValue::Trigger(Some(Event::ParameterChangeEvent(_))) => Ok(Value::Nil),
                ContextValue::Parameters => Ok(Value::UserData(
                    lua.create_userdata(ParameterData(this.0.duplicate()))?,
                )),
            }
        });
        methods.add_meta_method(MetaMethod::NewIndex, |_, this, _: (Value, Value)| {
            this.0.new_index().map_err(script_error)
        });
    }
}

impl UserData for ParameterData {
    fn add_methods<M: UserDataMethods<Self>>(methods: &mut M) {
        methods.add_meta_method(MetaMethod::Index, |lua, this, key: String| {
            script_value_to_lua(lua, this.0.parameter(&key).map_err(script_error)?)
        });
        methods.add_meta_method(MetaMethod::NewIndex, |_, this, _: (Value, Value)| {
            this.0.new_parameter().map_err(script_error)
        });
    }
}

/// A script engine that runs Lua.
struct LuaEngine {
    lua: Lua,
    functions: Vec<mlua::Function>,
    environments: Vec<mlua::Table>,
}

fn note_from_name(name: &str) -> Option<NoteEvent> {
    let name = name.to_ascii_lowercase();
    let mut chars = name.chars();
    let key = match chars.next()? {
        'c' => 0,
        'd' => 2,
        'e' => 4,
        'f' => 5,
        'g' => 7,
        'a' => 9,
        'b' => 11,
        _ => return None,
    };
    let rest: String = chars.collect();
    let (sharp, octave) = match rest.strip_prefix('#') {
        Some(octave) => (1, octave),
        None => (0, rest.as_str()),
    };
    let octave: u8 = octave.parse().ok()?;
    Some(NoteEvent::from(Note(octave * 12 + key + sharp)))
}

fn micro(value: f64) -> i64 {
    (value * MICRO as f64).round() as i64
}

fn note_from_lua(value: &Value) -> Option<NoteEvent> {
    match value {
        Value::String(name) => note_from_name(&name.to_string_lossy()),
        Value::Table(table) => {
            let key: u8 = table.get("key").ok()?;
            let volume: f64 = table.get("volume").unwrap_or(1.0);
            let panning: f64 = table.get("panning").unwrap_or(0.0);
            let delay: f64 = table.get("delay").unwrap_or(0.0);
            Some(NoteEvent {
                note: Note::from(key),
                instrument: None,
                glide: None,
                volume: micro(volume) as u64,
                panning: micro(panning),
                delay: micro(delay) as u64,
            })
        }
        _ => None,
    }
}

impl LuaEngine {
    fn new() -> Self {
        let lua = Lua::new();
        // scripts describe a pattern by a table
        lua.load("function pattern(description) return description end").exec().unwrap();
        Self { lua, functions: vec![], environments: vec![] }
    }

    fn add(&mut self, function: mlua::Function) -> FunctionHandle {
        self.functions.push(function);
        FunctionHandle(self.functions.len() - 1)
    }

    fn function(&mut self, source: &str) -> FunctionHandle {
        let function = self.lua.load(source).eval::<mlua::Function>().unwrap();
        self.add(function)
    }

    fn value_from_lua(&mut self, value: Value) -> ScriptValue {
        match value {
            Value::Nil => ScriptValue::Nil,
            Value::Boolean(b) => ScriptValue::Boolean(b),
            Value::Integer(n) => ScriptValue::Number(n * MICRO as i64),
            Value::Number(n) => ScriptValue::Number(micro(n)),
            Value::String(_) => match note_from_lua(&value) {
                Some(note) => ScriptValue::Notes(vec![Some(note)]),
                None => ScriptValue::Text(value.to_string().unwrap()),
            },
            Value::Function(function) => ScriptValue::Function(self.add(function)),
            Value::Table(table) => ScriptValue::Notes(
                table.sequence_values::<Value>().map(|v| note_from_lua(&v.unwrap())).collect(),
            ),
            _ => ScriptValue::Nil,
        }
    }
}

impl ScriptEngine for LuaEngine {
    fn call(
        &mut self,
        function: FunctionHandle,
        context: &CallbackContext,
        argument: &ScriptValue,
    ) -> Result<ScriptValue, ScriptError> {
        let to_script_error = |error: mlua::Error| ScriptError::runtime(error.to_string());
        let context = self
            .lua
            .create_userdata(ContextData(context.duplicate()))
            .map_err(to_script_error)?;
        let argument =
            script_value_to_lua(&self.lua, argument.duplicate()).map_err(to_script_error)?;
        let result = self.functions[function.0]
            .call::<Value>((context, argument))
            .map_err(to_script_error)?;
        Ok(self.value_from_lua(result))
    }

    fn environment(&mut self, function: FunctionHandle) -> Option<EnvironmentHandle> {
        let environment = self.functions[function.0].environment()?;
        self.environments.push(environment);
        Some(EnvironmentHandle(self.environments.len() - 1))
    }

    fn set_environment(
        &mut self,
        function: FunctionHandle,
        environment: EnvironmentHandle,
    ) -> Result<(), ScriptError> {
        self.functions[function.0]
            .set_environment(self.environments[environment.0].clone())
            .map(|_| ())
            .map_err(|error| ScriptError::runtime(error.to_string()))
    }

    fn function_name(&mut self, function: FunctionHandle) -> Option<String> {
        self.functions[function.0].info().name
    }
}

fn new_test_engine(
    beats_per_min: u32,
    beats_per_bar: u32,
    samples_per_sec: u32,
) -> (LuaEngine, BeatTimeBase) {
    (LuaEngine::new(), BeatTimeBase::new(beats_per_min, beats_per_bar, samples_per_sec).unwrap())
}

/// Makes the pattern that a script describes: the pulses of `steps` steps are
/// asked of the pulse function, if there is one.
fn pattern_from_script(
    engine: &mut LuaEngine,
    time_base: BeatTimeBase,
    source: &str,
    steps: usize,
) -> Pattern {
    let description = engine.lua.load(source).eval::<mlua::Table>().unwrap();
    let unit: String = description.get("unit").unwrap();
    let (unit, step) = match unit.as_str() {
        "seconds" => (TimeUnit::Seconds, MICRO),
        "1/4" => (TimeUnit::Beats, MICRO),
        other => panic!("unexpected unit {}", other),
    };
    let pulses = match description.get::<Option<mlua::Function>>("pulse").unwrap() {
        None => vec![MICRO],
        Some(pulse) => {
            let handle = engine.add(pulse);
            let mut callback = LuaCallback::new(engine, handle);
            callback.set_context_time_base(&time_base);
            let mut pulses = vec![];
            for pulse_step in 0..steps {
                callback.set_context_pulse_step(pulse_step, pulse_step as u64 * MICRO);
                match callback.call(engine).unwrap() {
                    ScriptValue::Number(value) => pulses.push(value as u64),
                    other => panic!("unexpected pulse {:?}", other),
                }
            }
            pulses
        }
    };
    let event = engine.add(description.get::<mlua::Function>("event").unwrap());
    let emitter = ScriptedEmitter::new(LuaCallback::new(engine, event), &time_base);
    Pattern::new(time_base, unit, step, pulses, emitter, vec![]).unwrap()
}

fn take(
    pattern: &mut Pattern,
    engine: &mut LuaEngine,
    errors: &mut CallbackErrors,
    count: usize,
) -> Vec<PatternEvent> {
    let mut events = vec![];
    for _ in 0..count {
        events.push(pattern.run_until_time(engine, errors, u64::MAX).unwrap());
    }
    events
}

fn note(key: u8) -> Option<Event> {
    Some(Event::NoteEvents(vec![Some(NoteEvent::from(Note(key)))]))
}

#[test]
fn callbacks() {
    let (mut engine, time_base) = new_test_engine(120, 4, 44100);
    let mut errors = CallbackErrors::new();

    let mut pattern = pattern_from_script(
        &mut engine,
        time_base,
        r#"
                return pattern {
                    unit = "seconds",
                    pulse = function(context)
                      return (context.pulse_step == 2) and 0 or 1
                    end,
                    event = function(context)
                      local notes = {"c4", "d#4", "g4"}
                      local step = 1
                      return function(context)
                        local note = notes[step - 1 % #notes + 1]
                        step = step + 1
                        return note
                      end
                    end
                }
            "#,
        4,
    );

    for _ in 0..2 {
        let events = take(&mut pattern.duplicate(), &mut engine, &mut errors, 4);
        pattern.reset(&mut engine, &mut errors);
        assert_eq!(
            events,
            vec![
                PatternEvent { event: note(C4), time: 0, duration: 44100 },
                PatternEvent { time: 44100, event: None, duration: 44100 },
                PatternEvent { time: 88200, event: note(DS4), duration: 44100 },
                PatternEvent { time: 132300, event: note(G4), duration: 44100 }
            ]
        );
    }
    assert_eq!(has_lua_callback_errors(&errors), None);
}

#[test]
fn callback_clones() {
    let (mut engine, time_base) = new_test_engine(120, 4, 44100);
    let mut errors = CallbackErrors::new();

    // create a beat_time pattern which emits the context trigger notes
    let mut pattern = pattern_from_script(
        &mut engine,
        time_base,
        r#"
                return pattern {
                    unit = "1/4",
                    event = function(context)
                      return context.trigger.notes
                    end
                }
            "#,
        1,
    );

    // create a pattern clone
    let mut pattern2 = pattern.duplicate();

    // create and apply unique trigger events for both instances
    let trigger_event = Event::NoteEvents(vec![Some(NoteEvent {
        note: Note(A4),
        instrument: None,
        glide: None,
        volume: 500_000,
        panning: 0,
        delay: 250_000,
    })]);
    pattern.set_trigger_event(&trigger_event);

    let trigger_event2 = Event::NoteEvents(vec![Some(NoteEvent {
        note: Note(C4),
        instrument: None,
        glide: None,
        volume: 1_000_000,
        panning: -1_000_000,
        delay: 500_000,
    })]);
    pattern2.set_trigger_event(&trigger_event2);

    // ensure the copy and the pattern it was made from use different context values (triggers)
    let event = pattern.run_until_time(&mut engine, &mut errors, u64::MAX);
    assert_eq!(
        event,
        Some(PatternEvent { time: 0, event: Some(trigger_event), duration: 22050 })
    );

    let event2 = pattern2.run_until_time(&mut engine, &mut errors, u64::MAX);
    assert_eq!(
        event2,
        Some(PatternEvent { time: 0, event: Some(trigger_event2), duration: 22050 })
    );
    assert_eq!(has_lua_callback_errors(&errors), None);
}

fn numbers(callback: &mut LuaCallback, engine: &mut LuaEngine, count: usize) -> Vec<i64> {
    let mut results = vec![];
    for step in 0..count {
        callback.set_context_step(step);
        match callback.call(engine) {
            Ok(ScriptValue::Number(number)) => results.push(number / MICRO as i64),
            other => panic!("unexpected result {:?}", other),
        }
    }
    results
}

#[test]
fn a_counting_generator_restarts_at_one() {
    let mut engine = LuaEngine::new();
    let generator = engine.function(
        r#"
            return function(context)
              local count = 0
              return function(context)
                count = count + 1
                return count
              end
            end
        "#,
    );
    let mut callback = LuaCallback::new(&mut engine, generator);
    assert_eq!(callback.is_stateful(), None);
    assert_eq!(numbers(&mut callback, &mut engine, 3), vec![1, 2, 3]);
    assert_eq!(callback.is_stateful(), Some(true));
    callback.reset(&mut engine).unwrap();
    assert_eq!(numbers(&mut callback, &mut engine, 4), vec![1, 2, 3, 4]);
    // a duplicate shares the function until it is reset
    let mut copy = callback.duplicate();
    assert_eq!(numbers(&mut copy, &mut engine, 1), vec![5]);
    copy.reset(&mut engine).unwrap();
    assert_eq!(numbers(&mut copy, &mut engine, 2), vec![1, 2]);
    assert_eq!(numbers(&mut callback, &mut engine, 1), vec![6]);
}

#[test]
fn a_plain_function_is_the_same_with_and_without_resets() {
    let mut engine = LuaEngine::new();
    let plain = engine.function("return function(context) return context.step * 2 end");
    let mut never_reset = LuaCallback::new(&mut engine, plain);
    let expected = numbers(&mut never_reset, &mut engine, 5);
    assert_eq!(expected, vec![2, 4, 6, 8, 10]);
    let mut callback = LuaCallback::new(&mut engine, plain);
    assert_eq!(numbers(&mut callback, &mut engine, 2), vec![2, 4]);
    callback.reset(&mut engine).unwrap();
    assert_eq!(callback.is_stateful(), Some(false));
    assert_eq!(numbers(&mut callback, &mut engine, 5), expected);
}

#[test]
fn scripts_cannot_write_to_the_context() {
    let mut engine = LuaEngine::new();
    let mut errors = CallbackErrors::new();
    let writer = engine.function("return function(context) context.step = 5 end");
    let mut callback = LuaCallback::new(&mut engine, writer);
    callback.set_context_step(0);
    let error = callback.call(&mut engine).unwrap_err();
    assert!(error.message.contains("context is read-only and thus can't be modified"));
    callback.handle_error(&mut errors, &error);
    assert_eq!(lua_callback_errors(&errors), vec![error]);

    let reader = engine.function("return function(context) return context.volume end");
    let mut callback = LuaCallback::new(&mut engine, reader);
    let error = callback.call(&mut engine).unwrap_err();
    assert!(error.message.contains("undefined field 'volume' in context"));

    let writer = engine.function("return function(context) context.parameter.key = 1 end");
    let mut callback = LuaCallback::new(&mut engine, writer);
    let error = callback.call(&mut engine).unwrap_err();
    assert!(error.message.contains("context inputs are read-only and thus can't be modified"));
}

#[test]
fn scripts_read_the_context() {
    let (mut engine, time_base) = new_test_engine(120, 4, 44100);
    let reader = engine.function(
        r#"
            return function(context)
              if context.playback ~= "running" then
                return 0
              end
              return context.beats_per_min * context.beats_per_bar
                + context.parameter.amount
                + (context.parameter.on and 1000 or 0)
                + (context.parameter.mode == "down" and 10000 or 0)
            end
        "#,
    );
    let parameters = vec![
        Parameter::new("amount", "", "", ParameterType::Float, 0, 1_000_000, 250_000, vec![])
            .unwrap(),
        Parameter::new("on", "", "", ParameterType::Boolean, 0, 1_000_000, 1_000_000, vec![])
            .unwrap(),
        Parameter::new(
            "mode",
            "",
            "",
            ParameterType::Enum,
            0,
            1_000_000,
            1_000_000,
            vec!["up".to_string(), "down".to_string()],
        )
        .unwrap(),
    ];
    let mut emitter = ScriptedEmitter::new(LuaCallback::new(&mut engine, reader), &time_base);
    emitter.set_parameters(&parameters);
    let mut errors = CallbackErrors::new();
    let pulse = pattrns::context::RhythmEvent { value: MICRO, step_time: MICRO };
    // the script returns a number, which stands for no event
    assert_eq!(emitter.run(&mut engine, &mut errors, pulse, true), None);
    assert_eq!(
        lua_callback_errors(&errors),
        vec![ScriptError::runtime("Failed to convert a 'number' value to events".into())]
    );
    let mut callback = LuaCallback::new(&mut engine, reader);
    callback.set_context_playback_state(pattrns::context::ContextPlaybackState::Running);
    callback.set_context_time_base(&time_base);
    callback.set_context_parameters(&parameters);
    assert_eq!(callback.call(&mut engine), Ok(ScriptValue::Number(11_480_250_000)));
    callback.set_context_playback_state(pattrns::context::ContextPlaybackState::Seeking);
    assert_eq!(callback.call(&mut engine), Ok(ScriptValue::Number(0)));
}

fn text_argument(value: Option<&Value>, what: &str) -> mlua::Result<String> {
    match value {
        Some(Value::String(text)) => Ok(text.to_string_lossy().to_string()),
        _ => Err(mlua::Error::runtime(format!("invalid {}", what))),
    }
}

fn optional_text_argument(value: Option<&Value>, what: &str) -> mlua::Result<String> {
    match value {
        None | Some(Value::Nil) => Ok(String::new()),
        other => text_argument(other, what),
    }
}

fn number_argument(value: Option<&Value>, what: &str) -> mlua::Result<i64> {
    match value {
        Some(Value::Integer(number)) => Ok(*number * MICRO as i64),
        Some(Value::Number(number)) => Ok(micro(*number)),
        _ => Err(mlua::Error::runtime(format!("invalid {}", what))),
    }
}

fn range_argument(value: Option<&Value>, default: (i64, i64)) -> mlua::Result<(i64, i64)> {
    match value {
        None | Some(Value::Nil) => Ok(default),
        Some(Value::Table(range)) => {
            let min = number_argument(Some(&range.get::<Value>(1)?), "range")?;
            let max = number_argument(Some(&range.get::<Value>(2)?), "range")?;
            Ok((min, max))
        }
        _ => Err(mlua::Error::runtime("invalid range")),
    }
}

fn made(parameter: Result<Parameter, ParameterError>) -> mlua::Result<String> {
    match parameter {
        Ok(parameter) => Ok(parameter.id().to_string()),
        Err(error) => Err(mlua::Error::runtime(format!("{:?}", error))),
    }
}

fn ranged_parameter(
    arguments: mlua::MultiValue,
    parameter_type: ParameterType,
    default_range: (i64, i64),
) -> mlua::Result<String> {
    let arguments: Vec<Value> = arguments.into_iter().collect();
    let id = text_argument(arguments.get(0), "id")?;
    let default = number_argument(arguments.get(1), "default")?;
    let (min, max) = range_argument(arguments.get(2), default_range)?;
    let name = optional_text_argument(arguments.get(3), "name")?;
    let description = optional_text_argument(arguments.get(4), "description")?;
    made(Parameter::new(&id, &name, &description, parameter_type, min, max, default, vec![]))
}

/// Gives scripts the functions that declare the parameters of a pattern.
fn register_parameter_functions(lua: &Lua) -> mlua::Result<()> {
    let parameter = lua.create_table()?;
    parameter.set(
        "boolean",
        lua.create_function(|_, arguments: mlua::MultiValue| {
            let arguments: Vec<Value> = arguments.into_iter().collect();
            let id = text_argument(arguments.get(0), "id")?;
            let default = match arguments.get(1) {
                Some(Value::Boolean(true)) => MICRO as i64,
                Some(Value::Boolean(false)) => 0,
                _ => return Err(mlua::Error::runtime("invalid default")),
            };
            let name = optional_text_argument(arguments.get(2), "name")?;
            let description = optional_text_argument(arguments.get(3), "description")?;
            made(Parameter::new(
                &id,
                &name,
                &description,
                ParameterType::Boolean,
                0,
                MICRO as i64,
                default,
                vec![],
            ))
        })?,
    )?;
    parameter.set(
        "integer",
        lua.create_function(|_, arguments: mlua::MultiValue| {
            ranged_parameter(arguments, ParameterType::Integer, (0, 100 * MICRO as i64))
        })?,
    )?;
    parameter.set(
        "number",
        lua.create_function(|_, arguments: mlua::MultiValue| {
            ranged_parameter(arguments, ParameterType::Float, (0, MICRO as i64))
        })?,
    )?;
    parameter.set(
        "enum",
        lua.create_function(|_, arguments: mlua::MultiValue| {
            let arguments: Vec<Value> = arguments.into_iter().collect();
            let id = text_argument(arguments.get(0), "id")?;
            let default = text_argument(arguments.get(1), "default")?;
            let mut values = vec![];
            match arguments.get(2) {
                Some(Value::Table(table)) => {
                    for value in table.sequence_values::<Value>() {
                        values.push(text_argument(Some(&value?), "value")?);
                    }
                }
                _ => return Err(mlua::Error::runtime("invalid values")),
            }
            let name = optional_text_argument(arguments.get(3), "name")?;
            let description = optional_text_argument(arguments.get(4), "description")?;
            let index = values
                .iter()
                .position(|value| eq_ignore_ascii_case(value, &default))
                .ok_or_else(|| mlua::Error::runtime("default is not one of the values"))?;
            let max = (values.len() - 1) as i64 * MICRO as i64;
            made(Parameter::new(
                &id,
                &name,
                &description,
                ParameterType::Enum,
                0,
                max,
                index as i64 * MICRO as i64,
                values,
            ))
        })?,
    )?;
    lua.globals().set("parameter", parameter)
}

#[test]
fn inputs() {
    let (engine, _) = new_test_engine(120, 4, 44100);
    let lua = engine.lua;
    register_parameter_functions(&lua).unwrap();

    // boolean
    assert!(lua
        .load(r#"parameter.boolean(1, false)"#) // invalid id
        .eval::<Value>()
        .is_err());
    assert!(lua
        .load(r#"parameter.boolean("name", "off")"#) // invalid default
        .eval::<Value>()
        .is_err());
    assert!(lua
        .load(r#"parameter.boolean("name", false, {})"#) // invalid name
        .eval::<Value>()
        .is_err());

    assert!(lua
        .load(r#"parameter.boolean("name", true)"#)
        .eval::<Value>()
        .is_ok());
    assert!(lua
        .load(r#"parameter.boolean("name", false, "Fancy Name", "Fancy Description")"#)
        .eval::<Value>()
        .is_ok());

    // integer
    assert!(lua
        .load(r#"parameter.integer({}, 1)"#) // invalid id
        .eval::<Value>()
        .is_err());
    assert!(lua
        .load(r#"parameter.integer("name", false)"#) // not an integer
        .eval::<Value>()
        .is_err());
    assert!(lua
        .load(r#"parameter.integer("name", 20.5)"#) // not an integer
        .eval::<Value>()
        .is_err());
    assert!(lua
        .load(r#"parameter.integer("name", 50, {1, 20})"#) // out of range
        .eval::<Value>()
        .is_err());

    assert!(lua
        .load(r#"parameter.integer("name", 50)"#)
        .eval::<Value>()
        .is_ok());
    assert!(lua
        .load(r#"parameter.integer("name", 0, {-20, 20}, "Fancy Name", "Fancy Description")"#)
        .eval::<Value>()
        .is_ok());

    // number
    assert!(lua
        .load(r#"parameter.number(12, 0.0)"#) // invalid id
        .eval::<Value>()
        .is_err());
    assert!(lua
        .load(r#"parameter.number("name", false)"#) // default not a number
        .eval::<Value>()
        .is_err());
    assert!(lua
        .load(r#"parameter.number("name", 50, {1, 20})"#) // out of range
        .eval::<Value>()
        .is_err());
    assert!(lua
        .load(r#"parameter.number("name", 50, 100"#) // invalid range
        .eval::<Value>()
        .is_err());

    assert!(lua
        .load(r#"parameter.number("name", 0.5)"#)
        .eval::<Value>()
        .is_ok());
    assert!(lua
        .load(r#"parameter.number("name", 0, {-20, 20}, "Fancy Name", "Fancy Description")"#)
        .eval::<Value>()
        .is_ok());
    assert!(lua
        .load(r#"parameter.number("name", 0.5, {-20.5, 20.5}, "Fancy Name", "Fancy Description")"#)
        .eval::<Value>()
        .is_ok());

    // enum
    assert!(lua
        .load(r#"parameter.enum(12, "default")"#) // invalid id
        .eval::<Value>()
        .is_err());
    assert!(lua
        .load(r#"parameter.enum("name", 1, [1])"#) // default not a string
        .eval::<Value>()
        .is_err());
    assert!(lua
        .load(r#"parameter.enum("name", "value", {"1", "2"})"#) // default not in values
        .eval::<Value>()
        .is_err());
    assert!(lua
        .load(r#"parameter.enum("name", "a", {"a", "b", "A"})"#) // values not unique
        .eval::<Value>()
        .is_err());

    assert!(lua
        .load(r#"parameter.enum("name", "value", {"VALUE", "value2"})"#)
        .eval::<Value>()
        .is_ok());
    assert!(lua
        .load(r#"parameter.enum("name", "value", {"value", "wurst"}, "Fancy Name", "Fancy Description")"#)
        .eval::<Value>()
        .is_ok());
}
