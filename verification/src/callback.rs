//! A callback wraps one script function and evaluates it once per call,
//! whether the script wrote it as a plain function or as a generator: a
//! function that returns the function to call.

use vstd::prelude::*;
use vstd::string::StringExecFns;
use crate::context::{CallbackContext, CallbackContextView, ContextPlaybackState, RhythmEvent};
use crate::event::Event;
use crate::parameter::{parameter_views, Parameter};
use crate::script::{
    add_lua_callback_error, CallbackErrors, EnvironmentHandle, FunctionHandle, ScriptError,
    ScriptValue, ScriptValueView,
};
use crate::time::BeatTimeBase;

verus! {

/// What a callback needs of a script engine. Nothing is assumed of what an
/// engine answers.
pub trait ScriptEngine {
    /// Invokes a function with the context and one more argument.
    fn call(
        &mut self,
        function: FunctionHandle,
        context: &CallbackContext,
        argument: &ScriptValue,
    ) -> Result<ScriptValue, ScriptError>;

    /// The environment that a function closes over, if it has one.
    fn environment(&mut self, function: FunctionHandle) -> Option<EnvironmentHandle>;

    /// Gives a function the environment to close over.
    fn set_environment(&mut self, function: FunctionHandle, environment: EnvironmentHandle)
        -> Result<(), ScriptError>;

    /// The name of a function, if it has one.
    fn function_name(&mut self, function: FunctionHandle) -> Option<String>;
}

/// One call that a callback made of its engine, with what it handed to the
/// engine and what the engine answered.
pub enum EngineCall {
    /// A function was invoked.
    Call {
        function: FunctionHandle,
        context: CallbackContextView,
        argument: ScriptValueView,
        result: Result<ScriptValueView, Seq<char>>,
    },
    /// The environment of a function was asked for.
    Environment { function: FunctionHandle, result: Option<EnvironmentHandle> },
    /// A function was given an environment.
    SetEnvironment {
        function: FunctionHandle,
        environment: EnvironmentHandle,
        result: Result<(), Seq<char>>,
    },
    /// The name of a function was asked for.
    FunctionName { function: FunctionHandle, result: Option<Seq<char>> },
}

/// The value of a name that a function may have.
pub open spec fn name_view(name: Option<String>) -> Option<Seq<char>> {
    match name {
        Some(name) => Some(name@),
        None => None,
    }
}

/// The name that a function goes by in errors: its own, if it has one.
pub open spec fn spec_function_name(name: Option<Seq<char>>) -> Seq<char> {
    match name {
        Some(name) => name,
        None => "anonymous function"@,
    }
}

/// The value of what a call of a function returned.
pub open spec fn result_view(result: Result<ScriptValue, ScriptError>) -> Result<
    ScriptValueView,
    Seq<char>,
> {
    match result {
        Ok(value) => Ok(value@),
        Err(error) => Err(error@),
    }
}

/// The value of what an engine answered that has nothing to return.
pub open spec fn done_view(result: Result<(), ScriptError>) -> Result<(), Seq<char>> {
    match result {
        Ok(_) => Ok(()),
        Err(error) => Err(error@),
    }
}

/// Lazily evaluates a script function the first time it's called, to either
/// use it as a generator, a function which returns a function, or directly as
/// it is.
///
/// The function is called with the context of the callback, which should be
/// filled up with values before the call.
///
/// By memorizing the first generator function and environment, the callback
/// also can be reset to its initial state by calling that generator
/// function again to fetch a new freshly initialized function.
pub struct LuaCallback {
    environment: Option<EnvironmentHandle>,
    context: CallbackContext,
    generator: Option<FunctionHandle>,
    function: FunctionHandle,
    name: Option<String>,
    initialized: bool,
    calls: Ghost<Seq<EngineCall>>,
}

/// The state of a [`LuaCallback`].
pub struct CallbackModel {
    /// The environment of the generator, as it was when the generator was
    /// found.
    pub environment: Option<EnvironmentHandle>,
    pub context: CallbackContextView,
    /// The function that the script defined, once it has turned out to be a
    /// generator.
    pub generator: Option<FunctionHandle>,
    /// The function to call.
    pub function: FunctionHandle,
    /// The name of the function to call, as the engine gave it when the
    /// callback took the function.
    pub name: Option<Seq<char>>,
    /// True once the function has been called.
    pub initialized: bool,
    /// The calls that the callback has made of its engine for functions,
    /// their environments and their names, oldest first.
    pub calls: Seq<EngineCall>,
}

impl CallbackModel {
    /// The state with one more call on record.
    pub open spec fn record(self, call: EngineCall) -> CallbackModel {
        CallbackModel { calls: self.calls.push(call), ..self }
    }

    /// The state after the function to call was invoked with the context and
    /// an argument, and the engine answered `result`.
    pub open spec fn invoked(
        self,
        argument: ScriptValueView,
        result: Result<ScriptValueView, Seq<char>>,
    ) -> CallbackModel {
        self.record(
            EngineCall::Call { function: self.function, context: self.context, argument, result },
        )
    }

    /// What a call makes of the callback, by the answers of the engine.
    ///
    /// The function to call is invoked with the context and the argument, and
    /// answers `first`. That is all, unless this is the first call. A first
    /// call that fails marks the callback as called. A first call that returns
    /// a function makes the callback a generator: the environment of the
    /// function that the script defined is asked for and kept, as is the
    /// name of the function that was returned, which is invoked at once, in
    /// the same way, and answers `second`. A first call that returns anything
    /// else leaves the function in place.
    pub open spec fn after_call(
        self,
        argument: ScriptValueView,
        first: Result<ScriptValueView, Seq<char>>,
        environment: Option<EnvironmentHandle>,
        name: Option<Seq<char>>,
        second: Result<ScriptValueView, Seq<char>>,
    ) -> CallbackModel {
        if self.initialized {
            self.invoked(argument, first)
        } else {
            match first {
                Err(_) => CallbackModel { initialized: true, ..self.invoked(argument, first) },
                Ok(value) => if value.as_function() is Some {
                    self.invoked(argument, first).record(
                        EngineCall::Environment { function: self.function, result: environment },
                    ).record(
                        EngineCall::FunctionName {
                            function: value.as_function().unwrap(),
                            result: name,
                        },
                    ).after_first_call(value, environment, name).invoked(argument, second)
                } else {
                    self.invoked(argument, first).after_first_call(value, None, None)
                },
            }
        }
    }

    /// What a call returns, by the answers of the engine: the answer to the
    /// invocation of the generator's function where a first call found a
    /// generator, else the answer to the invocation of the function.
    pub open spec fn call_result(
        self,
        first: Result<ScriptValueView, Seq<char>>,
        second: Result<ScriptValueView, Seq<char>>,
    ) -> Result<ScriptValueView, Seq<char>> {
        if self.initialized {
            first
        } else {
            match first {
                Ok(value) => if value.as_function() is Some {
                    second
                } else {
                    first
                },
                Err(_) => first,
            }
        }
    }

    /// What a reset makes of the callback, by the answers of the engine.
    ///
    /// A callback that is no generator stays as it is, and no call is made.
    /// The generator of any other is given back the environment that was kept,
    /// if one was, which the engine answers with `restored`; unless that
    /// failed, the generator is invoked with the context and without an
    /// argument, and answers `fresh`: a function is the function to call from
    /// now on, and its name is asked for, which the engine answers with
    /// `name`.
    pub open spec fn after_reset_with(
        self,
        restored: Result<(), Seq<char>>,
        fresh: Result<ScriptValueView, Seq<char>>,
        name: Option<Seq<char>>,
    ) -> CallbackModel {
        if !self.needs_reset() {
            self
        } else {
            let generator = self.generator.unwrap();
            let with_environment = match self.environment {
                Some(environment) => self.record(
                    EngineCall::SetEnvironment { function: generator, environment, result: restored },
                ),
                None => self,
            };
            if self.environment is Some && restored is Err {
                with_environment
            } else {
                let called = with_environment.record(
                    EngineCall::Call {
                        function: generator,
                        context: self.context,
                        argument: ScriptValueView::Nil,
                        result: fresh,
                    },
                );
                match fresh {
                    Ok(value) => match value.as_function() {
                        Some(function) => called.record(
                            EngineCall::FunctionName { function, result: name },
                        ).after_reset(value, name),
                        None => called,
                    },
                    Err(_) => called,
                }
            }
        }
    }

    /// What a reset returns, by the answers of the engine: the error of the
    /// engine, or an error that says that the generator returned no function,
    /// with the name of the function to call.
    pub open spec fn reset_result(
        self,
        restored: Result<(), Seq<char>>,
        fresh: Result<ScriptValueView, Seq<char>>,
    ) -> Result<(), Seq<char>> {
        if !self.needs_reset() {
            Ok(())
        } else if self.environment is Some && restored is Err {
            restored
        } else {
            match fresh {
                Err(error) => Err(error),
                Ok(value) => if value.as_function() is Some {
                    Ok(())
                } else {
                    Err(CallbackModel::reset_error(spec_function_name(self.name), value))
                },
            }
        }
    }

    /// Whether the callback is a generator: unknown before the first call.
    pub open spec fn is_stateful(self) -> Option<bool> {
        if self.initialized {
            Some(self.generator is Some)
        } else {
            None
        }
    }

    /// The state after the first call of the function returned `value`: a
    /// function, whose name is `name`, makes the callback a generator, which
    /// calls that function from now on; any other value leaves the function
    /// in place.
    pub open spec fn after_first_call(
        self,
        value: ScriptValueView,
        environment: Option<EnvironmentHandle>,
        name: Option<Seq<char>>,
    ) -> CallbackModel {
        match value.as_function() {
            Some(inner) => CallbackModel {
                environment,
                generator: Some(self.function),
                function: inner,
                name,
                initialized: true,
                ..self
            },
            None => CallbackModel {
                environment: None,
                generator: None,
                initialized: true,
                ..self
            },
        }
    }

    /// True when a reset has something to do: the callback is a generator.
    pub open spec fn needs_reset(self) -> bool {
        self.initialized && self.generator is Some
    }

    /// The state after the generator returned `value` on a reset: a
    /// function, whose name is `name`, takes the place of the function to
    /// call, anything else changes nothing.
    pub open spec fn after_reset(self, value: ScriptValueView, name: Option<Seq<char>>)
        -> CallbackModel {
        match value.as_function() {
            Some(function) => CallbackModel { function, name, ..self },
            None => self,
        }
    }

    /// True when `after` and `result` are what a call with the argument
    /// makes of the callback and returns, for some answers of the engine.
    pub open spec fn calls_to(
        self,
        argument: ScriptValueView,
        after: CallbackModel,
        result: Result<ScriptValueView, Seq<char>>,
    ) -> bool {
        exists|
            first: Result<ScriptValueView, Seq<char>>,
            environment: Option<EnvironmentHandle>,
            name: Option<Seq<char>>,
            second: Result<ScriptValueView, Seq<char>>,
        | #[trigger]
            self.after_call(argument, first, environment, name, second) == after
                && self.call_result(first, second) == result
    }

    /// True when `after` and `result` are what a reset makes of the callback
    /// and returns, for some answers of the engine.
    pub open spec fn resets_to(self, after: CallbackModel, result: Result<(), Seq<char>>) -> bool {
        exists|
            restored: Result<(), Seq<char>>,
            fresh: Result<ScriptValueView, Seq<char>>,
            name: Option<Seq<char>>,
        | #[trigger]
            self.after_reset_with(restored, fresh, name) == after && self.reset_result(
                restored,
                fresh,
            ) == result
    }

    /// The message of the error of a reset whose generator returned no
    /// function.
    pub open spec fn reset_error(name: Seq<char>, value: ScriptValueView) -> Seq<char> {
        "Failed to reset custom generator function '"@ + name
            + "' Expected a function as return value, got a '"@ + value.kind_name() + "'"@
    }
}

impl View for LuaCallback {
    type V = CallbackModel;

    closed spec fn view(&self) -> CallbackModel {
        CallbackModel {
            environment: self.environment,
            context: self.context@,
            generator: self.generator,
            function: self.function,
            name: name_view(self.name),
            initialized: self.initialized,
            calls: self.calls@,
        }
    }
}

impl LuaCallback {
    /// A callback for a function that has the given name, if any, and closes
    /// over the given environment. The function is memorized without calling
    /// it.
    pub fn with_environment(
        function: FunctionHandle,
        environment: Option<EnvironmentHandle>,
        name: Option<String>,
    ) -> (r: LuaCallback)
        ensures
            r@ == (CallbackModel {
                environment,
                context: CallbackContextView::empty(),
                generator: None,
                function,
                name: name_view(name),
                initialized: false,
                calls: Seq::empty(),
            }),
    {
        LuaCallback {
            environment,
            context: CallbackContext::new(),
            generator: None,
            function,
            name,
            initialized: false,
            calls: Ghost(Seq::empty()),
        }
    }

    /// Create a new Callback from a script function: the engine is asked for
    /// the environment and for the name of the function, and the function is
    /// memorized without calling it.
    pub fn new<E: ScriptEngine>(engine: &mut E, function: FunctionHandle) -> (r: LuaCallback)
        ensures
            r@ == (CallbackModel {
                environment: r@.environment,
                context: CallbackContextView::empty(),
                generator: None,
                function,
                name: r@.name,
                initialized: false,
                calls: seq![
                    EngineCall::Environment { function, result: r@.environment },
                    EngineCall::FunctionName { function, result: r@.name },
                ],
            }),
    {
        let environment = engine.environment(function);
        let name = engine.function_name(function);
        let r = LuaCallback {
            environment,
            context: CallbackContext::new(),
            generator: None,
            function,
            calls: Ghost(
                Seq::empty().push(EngineCall::Environment { function, result: environment }).push(
                    EngineCall::FunctionName { function, result: name_view(name) },
                ),
            ),
            name,
            initialized: false,
        };
        assert(r@.calls =~= seq![
            EngineCall::Environment { function, result: r@.environment },
            EngineCall::FunctionName { function, result: r@.name },
        ]);
        r
    }

    /// The name that a function goes by in errors.
    pub fn function_name(name: Option<String>) -> (r: String)
        ensures
            r@ == spec_function_name(name_view(name)),
    {
        match name {
            Some(name) => name,
            None => "anonymous function".to_owned(),
        }
    }

    /// Name of the inner function for errors. Usually will be an anonymous function.
    /// It is the name that the engine gave when the callback took the
    /// function.
    pub fn name(&self) -> (r: String)
        ensures
            r@ == spec_function_name(self@.name),
    {
        match &self.name {
            Some(name) => name.clone(),
            None => "anonymous function".to_owned(),
        }
    }

    /// An independent callback for the same functions and environment, with
    /// a context of its own in which no field is set.
    pub fn duplicate(&self) -> (r: LuaCallback)
        ensures
            r@ == (CallbackModel { context: CallbackContextView::empty(), ..self@ }),
    {
        LuaCallback {
            environment: self.environment,
            context: CallbackContext::new(),
            generator: self.generator,
            function: self.function,
            name: match &self.name {
                Some(name) => Some(name.clone()),
                None => None,
            },
            initialized: self.initialized,
            calls: Ghost(self.calls@),
        }
    }

    /// Returns true if the callback is a generator.
    ///
    /// To test this, the callback must have run at least once, so it returns None if it never has.
    pub fn is_stateful(&self) -> (r: Option<bool>)
        ensures
            r == self@.is_stateful(),
    {
        if self.initialized {
            Some(self.generator.is_some())
        } else {
            None
        }
    }

    /// The function that the next call invokes: the one that the script
    /// defined, or the one that it returned as a generator.
    pub fn function(&self) -> (r: FunctionHandle)
        ensures
            r == self@.function,
    {
        self.function
    }

    /// The function that the script defined, once it is known to be a
    /// generator: the function that a reset invokes.
    pub fn generator(&self) -> (r: Option<FunctionHandle>)
        ensures
            r == self@.generator,
    {
        self.generator
    }

    /// The context that the function is called with.
    pub fn context(&self) -> (r: &CallbackContext)
        ensures
            r@ == self@.context,
    {
        &self.context
    }

    /// Sets the emitters playback state for the callback.
    pub fn set_context_playback_state(&mut self, playback_state: ContextPlaybackState)
        ensures
            final(self)@ == (CallbackModel {
                context: CallbackContextView {
                    playback: Some(playback_state),
                    ..old(self)@.context
                },
                ..old(self)@
            }),
    {
        self.context.set_playback_state(playback_state);
    }

    /// Sets the emitter time base context for the callback.
    pub fn set_context_time_base(&mut self, time_base: &BeatTimeBase)
        ensures
            final(self)@ == (CallbackModel {
                context: CallbackContextView { time_base: Some(*time_base), ..old(self)@.context },
                ..old(self)@
            }),
    {
        self.context.set_time_base(time_base);
    }

    /// Sets parameter context for the callback. The context holds a copy of
    /// the parameters as they are now: a script reads a value that is set
    /// later only once the parameters are handed over again, as
    /// [`crate::pattern::Pattern::set_parameter_value`] does.
    pub fn set_context_parameters(&mut self, parameters: &Vec<Parameter>)
        ensures
            final(self)@ == (CallbackModel {
                context: CallbackContextView {
                    parameters: parameter_views(parameters@),
                    ..old(self)@.context
                },
                ..old(self)@
            }),
    {
        self.context.set_parameters(parameters);
    }

    /// Sets the event which triggered the pattern for the callback context.
    pub fn set_context_trigger_event(&mut self, event: &Event)
        ensures
            final(self)@ == (CallbackModel {
                context: CallbackContextView { trigger: Some(event@), ..old(self)@.context },
                ..old(self)@
            }),
    {
        self.context.set_trigger_event(event);
    }

    /// Sets the pulse value emitter context for the callback.
    pub fn set_context_pulse_value(&mut self, pulse: RhythmEvent)
        ensures
            final(self)@ == (CallbackModel {
                context: CallbackContextView { pulse: Some(pulse), ..old(self)@.context },
                ..old(self)@
            }),
    {
        self.context.set_pulse_value(pulse);
    }

    /// Sets the pulse step emitter context for the callback.
    pub fn set_context_pulse_step(&mut self, pulse_step: usize, pulse_time_step: u64)
        ensures
            final(self)@ == (CallbackModel {
                context: CallbackContextView {
                    pulse_step: Some((pulse_step, pulse_time_step)),
                    ..old(self)@.context
                },
                ..old(self)@
            }),
    {
        self.context.set_pulse_step(pulse_step, pulse_time_step);
    }

    /// Sets the step emitter context for the callback.
    pub fn set_context_step(&mut self, step: usize)
        ensures
            final(self)@ == (CallbackModel {
                context: CallbackContextView { step: Some(step), ..old(self)@.context },
                ..old(self)@
            }),
    {
        self.context.set_step(step);
    }

    /// Sets the cycle context step value for the callback.
    pub fn set_context_cycle_step(&mut self, channel: usize, step: usize, step_length: u64)
        ensures
            final(self)@ == (CallbackModel {
                context: CallbackContextView {
                    cycle: Some((channel, step_length)),
                    step: Some(step),
                    ..old(self)@.context
                },
                ..old(self)@
            }),
    {
        self.context.set_cycle_step(channel, step, step_length);
    }

    /// Sets the rhythm context for the callback.
    pub fn set_rhythm_context(
        &mut self,
        time_base: &BeatTimeBase,
        pulse_step: usize,
        pulse_time_step: u64,
    )
        ensures
            final(self)@ == (CallbackModel {
                context: CallbackContextView {
                    time_base: Some(*time_base),
                    pulse_step: Some((pulse_step, pulse_time_step)),
                    ..old(self)@.context
                },
                ..old(self)@
            }),
    {
        self.set_context_time_base(time_base);
        self.set_context_pulse_step(pulse_step, pulse_time_step);
    }

    /// Sets the context of a callback that decides which pulses emit.
    pub fn set_gate_context(
        &mut self,
        time_base: &BeatTimeBase,
        pulse: RhythmEvent,
        pulse_step: usize,
        pulse_time_step: u64,
    )
        ensures
            final(self)@ == (CallbackModel {
                context: CallbackContextView {
                    time_base: Some(*time_base),
                    pulse: Some(pulse),
                    pulse_step: Some((pulse_step, pulse_time_step)),
                    ..old(self)@.context
                },
                ..old(self)@
            }),
    {
        self.set_rhythm_context(time_base, pulse_step, pulse_time_step);
        self.set_context_pulse_value(pulse);
    }

    /// Sets the emitter context for the callback.
    pub fn set_emitter_context(
        &mut self,
        playback_state: ContextPlaybackState,
        time_base: &BeatTimeBase,
        pulse: RhythmEvent,
        pulse_step: usize,
        pulse_time_step: u64,
        step: usize,
    )
        ensures
            final(self)@ == (CallbackModel {
                context: CallbackContextView {
                    playback: Some(playback_state),
                    time_base: Some(*time_base),
                    pulse: Some(pulse),
                    pulse_step: Some((pulse_step, pulse_time_step)),
                    step: Some(step),
                    ..old(self)@.context
                },
                ..old(self)@
            }),
    {
        self.set_context_playback_state(playback_state);
        self.set_gate_context(time_base, pulse, pulse_step, pulse_time_step);
        self.set_context_step(step);
    }

    /// Sets the cycle context for the callback.
    pub fn set_cycle_context(
        &mut self,
        playback_state: ContextPlaybackState,
        time_base: &BeatTimeBase,
        channel: usize,
        step: usize,
        step_length: u64,
    )
        ensures
            final(self)@ == (CallbackModel {
                context: CallbackContextView {
                    playback: Some(playback_state),
                    time_base: Some(*time_base),
                    cycle: Some((channel, step_length)),
                    step: Some(step),
                    ..old(self)@.context
                },
                ..old(self)@
            }),
    {
        self.set_context_playback_state(playback_state);
        self.set_context_time_base(time_base);
        self.set_context_cycle_step(channel, step, step_length);
    }

    /// Takes in what the first call of the function returned. A function,
    /// which has the given name, makes the callback a generator: it is given
    /// back, to be called in place of the value.
    pub fn first_call_returned(
        &mut self,
        value: &ScriptValue,
        environment: Option<EnvironmentHandle>,
        name: Option<String>,
    ) -> (r: Option<FunctionHandle>)
        requires
            !old(self)@.initialized,
        ensures
            r == value@.as_function(),
            final(self)@ == old(self)@.after_first_call(value@, environment, name_view(name)),
    {
        self.initialized = true;
        match value.as_function() {
            Some(inner_function) => {
                // function returned a function -> is a generator. use the inner function instead.
                self.environment = environment;
                self.generator = Some(self.function);
                self.function = inner_function;
                self.name = name;
                Some(inner_function)
            },
            None => {
                // function returned some value. use this function directly.
                self.environment = None;
                self.generator = None;
                None
            },
        }
    }

    /// Invoke the script function or generator and return its result.
    ///
    /// See [`CallbackModel::after_call`] for the calls that are made of the
    /// engine.
    pub fn call<E: ScriptEngine>(&mut self, engine: &mut E) -> (r: Result<
        ScriptValue,
        ScriptError,
    >)
        ensures
            old(self)@.calls_to(ScriptValueView::Nil, final(self)@, result_view(r)),
            final(self)@.initialized,
            final(self)@.context == old(self)@.context,
            old(self)@.initialized ==> final(self)@ == old(self)@.invoked(
                ScriptValueView::Nil,
                result_view(r),
            ),
    {
        self.call_with_arg(engine, &ScriptValue::Nil)
    }

    /// Invoke the script function or generator with an additional argument and return its result.
    ///
    /// See [`CallbackModel::after_call`] for the calls that are made of the
    /// engine.
    pub fn call_with_arg<E: ScriptEngine>(&mut self, engine: &mut E, arg: &ScriptValue) -> (r:
        Result<ScriptValue, ScriptError>)
        ensures
            old(self)@.calls_to(arg@, final(self)@, result_view(r)),
            final(self)@.initialized,
            final(self)@.context == old(self)@.context,
            old(self)@.initialized ==> final(self)@ == old(self)@.invoked(arg@, result_view(r)),
    {
        let first = engine.call(self.function, &self.context, arg);
        proof {
            self.calls@ = self.calls@.push(
                EngineCall::Call {
                    function: self.function,
                    context: self.context@,
                    argument: arg@,
                    result: result_view(first),
                },
            );
        }
        if self.initialized {
            assert(old(self)@.after_call(arg@, result_view(first), None, None, result_view(first))
                == self@);
            first
        } else {
            match first {
                Err(err) => {
                    self.initialized = true;
                    assert(old(self)@.after_call(
                        arg@,
                        Err::<ScriptValueView, Seq<char>>(err@),
                        None,
                        None,
                        Err::<ScriptValueView, Seq<char>>(err@),
                    ) == self@);
                    Err(err)
                },
                Ok(result) => {
                    if let Some(inner_function) = result.as_function() {
                        // function returned a function -> is a generator. use the inner function instead.
                        let environment = engine.environment(self.function);
                        let name = engine.function_name(inner_function);
                        let ghost inner_name = name_view(name);
                        proof {
                            self.calls@ = self.calls@.push(
                                EngineCall::Environment {
                                    function: self.function,
                                    result: environment,
                                },
                            ).push(
                                EngineCall::FunctionName {
                                    function: inner_function,
                                    result: inner_name,
                                },
                            );
                        }
                        self.first_call_returned(&result, environment, name);
                        let second = engine.call(self.function, &self.context, arg);
                        proof {
                            self.calls@ = self.calls@.push(
                                EngineCall::Call {
                                    function: self.function,
                                    context: self.context@,
                                    argument: arg@,
                                    result: result_view(second),
                                },
                            );
                        }
                        assert(old(self)@.after_call(
                            arg@,
                            Ok::<ScriptValueView, Seq<char>>(result@),
                            environment,
                            inner_name,
                            result_view(second),
                        ) == self@);
                        second
                    } else {
                        // function returned some value. use this function directly.
                        self.first_call_returned(&result, None, None);
                        assert(old(self)@.after_call(
                            arg@,
                            Ok::<ScriptValueView, Seq<char>>(result@),
                            None,
                            None,
                            Ok::<ScriptValueView, Seq<char>>(result@),
                        ) == self@);
                        Ok(result)
                    }
                },
            }
        }
    }

    /// Report a callback error. The error is queued under the name of the
    /// function.
    pub fn handle_error(&self, errors: &mut CallbackErrors, err: &ScriptError)
        ensures
            final(errors)@ == old(errors)@.push((spec_function_name(self@.name), err@)),
            final(errors)@.len() == old(errors)@.len() + 1,
            final(errors)@.drop_last() == old(errors)@,
            final(errors)@.last().1 == err@,
    {
        let name = self.name();
        add_lua_callback_error(errors, name.as_str(), err);
        assert(errors@.drop_last() =~= old(errors)@);
    }

    /// Takes in what the generator returned on a reset: a function, which
    /// has the given name, is the function to call from now on.
    ///
    /// ### Errors
    /// Returns an error that names the function to call, and changes nothing,
    /// when the value is no function.
    pub fn reset_returned(&mut self, value: &ScriptValue, name: Option<String>) -> (r: Result<
        (),
        ScriptError,
    >)
        ensures
            final(self)@ == old(self)@.after_reset(value@, name_view(name)),
            r is Ok == value@.as_function() is Some,
            r matches Err(e) ==> e@ == CallbackModel::reset_error(
                spec_function_name(old(self)@.name),
                value@,
            ),
    {
        match value.as_function() {
            Some(function) => {
                self.function = function;
                self.name = name;
                Ok(())
            },
            None => {
                let own_name = self.name();
                let mut message = "Failed to reset custom generator function '".to_owned();
                message.append(own_name.as_str());
                message.append("' Expected a function as return value, got a '");
                message.append(value.kind_name());
                message.append("'");
                Err(ScriptError::runtime(message))
            },
        }
    }

    /// Reset the callback function or iterator to its initial state.
    ///
    /// A callback that is no generator has no state: it is left as it is, and
    /// the engine is not called. See [`CallbackModel::after_reset_with`] for
    /// the calls that are made of the engine for a generator.
    ///
    /// ### Errors
    /// Returns the error of the engine, or one that says that the generator
    /// returned no function.
    pub fn reset<E: ScriptEngine>(&mut self, engine: &mut E) -> (r: Result<(), ScriptError>)
        ensures
            old(self)@.resets_to(final(self)@, done_view(r)),
            !old(self)@.needs_reset() ==> r is Ok && final(self)@ == old(self)@ && *final(engine)
                == *old(engine),
            final(self)@.environment == old(self)@.environment,
            final(self)@.context == old(self)@.context,
            final(self)@.generator == old(self)@.generator,
            final(self)@.initialized == old(self)@.initialized,
            r is Err ==> final(self)@.function == old(self)@.function,
    {
        // resetting only is necessary when we got initialized
        if self.initialized {
            if let Some(function_generator) = self.generator {
                // restore generator environment
                let ghost mut restored: Result<(), Seq<char>> = Ok(());
                if let Some(env) = self.environment {
                    let answer = engine.set_environment(function_generator, env);
                    proof {
                        restored = done_view(answer);
                        self.calls@ = self.calls@.push(
                            EngineCall::SetEnvironment {
                                function: function_generator,
                                environment: env,
                                result: restored,
                            },
                        );
                    }
                    if let Err(err) = answer {
                        assert(old(self)@.after_reset_with(
                            restored,
                            Err::<ScriptValueView, Seq<char>>(err@),
                            None,
                        ) == self@);
                        assert(old(self)@.reset_result(
                            restored,
                            Err::<ScriptValueView, Seq<char>>(err@),
                        ) == Err::<(), Seq<char>>(err@));
                        return Err(err);
                    }
                }
                // then fetch a new fresh function from the generator
                let fresh = engine.call(function_generator, &self.context, &ScriptValue::Nil);
                proof {
                    self.calls@ = self.calls@.push(
                        EngineCall::Call {
                            function: function_generator,
                            context: self.context@,
                            argument: ScriptValueView::Nil,
                            result: result_view(fresh),
                        },
                    );
                }
                match fresh {
                    Err(err) => {
                        assert(old(self)@.after_reset_with(
                            restored,
                            Err::<ScriptValueView, Seq<char>>(err@),
                            None,
                        ) == self@);
                        assert(old(self)@.reset_result(
                            restored,
                            Err::<ScriptValueView, Seq<char>>(err@),
                        ) == Err::<(), Seq<char>>(err@));
                        return Err(err);
                    },
                    Ok(value) => {
                        // a fresh function goes by its own name
                        let name = match value.as_function() {
                            Some(function) => {
                                let name = engine.function_name(function);
                                proof {
                                    self.calls@ = self.calls@.push(
                                        EngineCall::FunctionName {
                                            function,
                                            result: name_view(name),
                                        },
                                    );
                                }
                                name
                            },
                            None => None,
                        };
                        let ghost fresh_name = name_view(name);
                        let result = self.reset_returned(&value, name);
                        assert(old(self)@.after_reset_with(
                            restored,
                            Ok::<ScriptValueView, Seq<char>>(value@),
                            fresh_name,
                        ) == self@);
                        assert(old(self)@.reset_result(
                            restored,
                            Ok::<ScriptValueView, Seq<char>>(value@),
                        ) == done_view(result));
                        return result;
                    },
                }
            }
        }
        assert(old(self)@.after_reset_with(
            Ok::<(), Seq<char>>(()),
            Ok::<ScriptValueView, Seq<char>>(ScriptValueView::Nil),
            None,
        ) == self@);
        assert(old(self)@.reset_result(
            Ok::<(), Seq<char>>(()),
            Ok::<ScriptValueView, Seq<char>>(ScriptValueView::Nil),
        ) == Ok::<(), Seq<char>>(()));
        Ok(())
    }
}

/// A callback whose first call returned no function has no state to reset:
/// [`LuaCallback::reset`] leaves such a callback and the engine as they are,
/// so that the calls after a reset find what they would have found without
/// it.
pub proof fn lemma_reset_of_plain_function(
    callback: CallbackModel,
    value: ScriptValueView,
    environment: Option<EnvironmentHandle>,
    name: Option<Seq<char>>,
)
    requires
        !callback.initialized,
        value.as_function() is None,
    ensures
        !callback.needs_reset(),
        !callback.after_first_call(value, environment, name).needs_reset(),
        callback.after_first_call(value, environment, name).is_stateful() == Some(false),
        callback.after_first_call(value, environment, name).function == callback.function,
        callback.after_first_call(value, environment, name).name == callback.name,
{
}

/// The first call of a callback decides for good whether it is a generator:
/// a function as the first result makes it one, and the function that the
/// script defined is kept for resets.
pub proof fn lemma_first_call_decides(
    callback: CallbackModel,
    value: ScriptValueView,
    environment: Option<EnvironmentHandle>,
    name: Option<Seq<char>>,
)
    requires
        !callback.initialized,
    ensures
        callback.is_stateful() is None,
        callback.after_first_call(value, environment, name).is_stateful() == Some(
            value.as_function() is Some,
        ),
        value.as_function() is Some ==> callback.after_first_call(
            value,
            environment,
            name,
        ).generator == Some(callback.function) && callback.after_first_call(
            value,
            environment,
            name,
        ).needs_reset(),
        value.as_function() is None ==> callback.after_first_call(
            value,
            environment,
            name,
        ).function == callback.function && !callback.after_first_call(
            value,
            environment,
            name,
        ).needs_reset(),
{
}

/// A reset of a generator leaves the generator in place: whatever it returns,
/// the callback can be reset again, and a function that it returns is the one
/// to call.
pub proof fn lemma_reset_keeps_generator(
    callback: CallbackModel,
    value: ScriptValueView,
    name: Option<Seq<char>>,
)
    requires
        callback.needs_reset(),
    ensures
        callback.after_reset(value, name).needs_reset(),
        callback.after_reset(value, name).generator == callback.generator,
        value.as_function() matches Some(f) ==> callback.after_reset(value, name).function == f,
        value.as_function() is None ==> callback.after_reset(value, name) == callback,
{
}

} // verus!
