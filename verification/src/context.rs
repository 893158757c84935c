//! The context that a callback hands to its script function on every call.
//! Scripts read it by field name and cannot write to it.

use vstd::prelude::*;
use crate::event::{Event, EventView};
use crate::parameter::{
    clone_parameters, find_parameter, parameter_views, spec_find_parameter, Parameter,
    ParameterType, ParameterView,
};
use crate::script::{concat3, ScriptError, ScriptValue, ScriptValueView};
use crate::text::same_text;
use crate::time::{BeatTimeBase, MICRO};

verus! {

/// Playback state in a callback context.
#[derive(Copy, Clone, Debug, PartialEq, Eq, Structural)]
pub enum ContextPlaybackState {
    /// The engine is seeking: scripts should keep side effects to themselves.
    Seeking,
    /// The engine is playing.
    Running,
}

impl ContextPlaybackState {
    /// The name of the state, as scripts see it.
    pub open spec fn spec_name(self) -> Seq<char> {
        match self {
            ContextPlaybackState::Seeking => "seeking"@,
            ContextPlaybackState::Running => "running"@,
        }
    }

    /// The name of the state, as scripts see it.
    pub fn name(self) -> (r: &'static str)
        ensures
            r@ == self.spec_name(),
    {
        match self {
            ContextPlaybackState::Seeking => "seeking",
            ContextPlaybackState::Running => "running",
        }
    }
}

/// One pulse of a rhythm: its value and the time that it takes, in steps.
/// Both are counted in millionths.
#[derive(Copy, Clone, Debug, PartialEq, Eq, Structural)]
pub struct RhythmEvent {
    pub value: u64,
    pub step_time: u64,
}

impl Default for RhythmEvent {
    fn default() -> (r: RhythmEvent)
        ensures
            r == (RhythmEvent { value: MICRO, step_time: MICRO }),
    {
        RhythmEvent { value: MICRO, step_time: MICRO }
    }
}

/// A value that a script reads from a field of the context.
#[derive(Debug)]
pub enum ContextValue {
    /// A whole number.
    Whole(u64),
    /// A number in millionths.
    Number(u64),
    Text(&'static str),
    /// The event that triggered the pattern, if one did.
    Trigger(Option<Event>),
    /// The table of the parameter values, see [`CallbackContext::parameter`].
    Parameters,
}

/// The value of a [`ContextValue`].
pub enum ContextValueView {
    Whole(u64),
    Number(u64),
    Text(Seq<char>),
    Trigger(Option<EventView>),
    Parameters,
}

impl View for ContextValue {
    type V = ContextValueView;

    open spec fn view(&self) -> ContextValueView {
        match self {
            ContextValue::Whole(n) => ContextValueView::Whole(*n),
            ContextValue::Number(n) => ContextValueView::Number(*n),
            ContextValue::Text(t) => ContextValueView::Text(t@),
            ContextValue::Trigger(event) => ContextValueView::Trigger(
                match event {
                    Some(event) => Some(event@),
                    None => None,
                },
            ),
            ContextValue::Parameters => ContextValueView::Parameters,
        }
    }
}

/// The values that a callback passes to its script function.
#[derive(Debug)]
pub struct CallbackContext {
    playback: Option<ContextPlaybackState>,
    time_base: Option<BeatTimeBase>,
    pulse: Option<RhythmEvent>,
    pulse_step: Option<(usize, u64)>,
    step: Option<usize>,
    cycle: Option<(usize, u64)>,
    trigger: Option<Event>,
    parameters: Vec<Parameter>,
}

/// The value of a [`CallbackContext`].
pub struct CallbackContextView {
    pub playback: Option<ContextPlaybackState>,
    pub time_base: Option<BeatTimeBase>,
    pub pulse: Option<RhythmEvent>,
    /// Count of the pulses so far, and the time that they took.
    pub pulse_step: Option<(usize, u64)>,
    /// Count of the events so far.
    pub step: Option<usize>,
    /// Channel of a cycle and the length of its step.
    pub cycle: Option<(usize, u64)>,
    pub trigger: Option<EventView>,
    pub parameters: Seq<ParameterView>,
}

/// A count as scripts see it: counted from one.
pub open spec fn spec_one_based(count: usize) -> u64 {
    if count as u64 == u64::MAX {
        u64::MAX
    } else {
        (count + 1) as u64
    }
}

/// A count as scripts see it: counted from one.
pub fn one_based(count: usize) -> (r: u64)
    ensures
        r == spec_one_based(count),
{
    if count as u64 == u64::MAX {
        u64::MAX
    } else {
        count as u64 + 1
    }
}

/// The value that a script gets for a parameter.
pub open spec fn spec_parameter_value(parameter: ParameterView) -> ScriptValueView {
    match parameter.parameter_type {
        ParameterType::Boolean => ScriptValueView::Boolean(parameter.value != 0),
        ParameterType::Integer | ParameterType::Float => ScriptValueView::Number(parameter.value),
        ParameterType::Enum => {
            let index = parameter.value as int / MICRO as int;
            if 0 <= parameter.value && index < parameter.value_strings.len() {
                ScriptValueView::Text(parameter.value_strings[index])
            } else {
                ScriptValueView::Nil
            }
        },
    }
}

/// The value that a script gets for a parameter: a boolean, a number, or the
/// display string of the value of an enum.
pub fn parameter_value(parameter: &Parameter) -> (r: ScriptValue)
    ensures
        r@ == spec_parameter_value(parameter@),
{
    match parameter.parameter_type() {
        ParameterType::Boolean => ScriptValue::Boolean(parameter.value() != 0),
        ParameterType::Integer | ParameterType::Float => ScriptValue::Number(parameter.value()),
        ParameterType::Enum => {
            let value = parameter.value();
            let strings = parameter.value_strings();
            if value >= 0 && ((value / 1_000_000) as u64) < strings.len() as u64 {
                ScriptValue::Text(strings[(value / 1_000_000) as usize].clone())
            } else {
                ScriptValue::Nil
            }
        },
    }
}

impl CallbackContextView {
    /// The context of a new callback: no field is set.
    pub open spec fn empty() -> CallbackContextView {
        CallbackContextView {
            playback: None,
            time_base: None,
            pulse: None,
            pulse_step: None,
            step: None,
            cycle: None,
            trigger: None,
            parameters: Seq::empty(),
        }
    }

    /// The value of a field, if the field is set.
    pub open spec fn field(self, key: Seq<char>) -> Option<ContextValueView> {
        if key == "playback"@ {
            match self.playback {
                Some(state) => Some(ContextValueView::Text(state.spec_name())),
                None => None,
            }
        } else if key == "beats_per_min"@ {
            match self.time_base {
                Some(time_base) => Some(ContextValueView::Number(time_base.beats_per_min)),
                None => None,
            }
        } else if key == "beats_per_bar"@ {
            match self.time_base {
                Some(time_base) => Some(ContextValueView::Whole(time_base.beats_per_bar as u64)),
                None => None,
            }
        } else if key == "samples_per_sec"@ {
            match self.time_base {
                Some(time_base) => Some(ContextValueView::Whole(time_base.samples_per_sec as u64)),
                None => None,
            }
        } else if key == "pulse_value"@ {
            match self.pulse {
                Some(pulse) => Some(ContextValueView::Number(pulse.value)),
                None => None,
            }
        } else if key == "pulse_time"@ {
            match self.pulse {
                Some(pulse) => Some(ContextValueView::Number(pulse.step_time)),
                None => None,
            }
        } else if key == "pulse_step"@ {
            match self.pulse_step {
                Some(pulse_step) => Some(ContextValueView::Whole(spec_one_based(pulse_step.0))),
                None => None,
            }
        } else if key == "pulse_time_step"@ {
            match self.pulse_step {
                Some(pulse_step) => Some(ContextValueView::Number(pulse_step.1)),
                None => None,
            }
        } else if key == "step"@ {
            match self.step {
                Some(step) => Some(ContextValueView::Whole(spec_one_based(step))),
                None => None,
            }
        } else if key == "channel"@ {
            match self.cycle {
                Some(cycle) => Some(ContextValueView::Whole(spec_one_based(cycle.0))),
                None => None,
            }
        } else if key == "step_length"@ {
            match self.cycle {
                Some(cycle) => Some(ContextValueView::Number(cycle.1)),
                None => None,
            }
        } else if key == "parameter"@ {
            Some(ContextValueView::Parameters)
        } else if key == "trigger"@ {
            Some(ContextValueView::Trigger(self.trigger))
        } else {
            None
        }
    }

    /// The value of a parameter, if the id is known.
    pub open spec fn parameter(self, id: Seq<char>) -> Option<ScriptValueView> {
        match spec_find_parameter(self.parameters, id) {
            Some(i) => Some(spec_parameter_value(self.parameters[i])),
            None => None,
        }
    }
}

impl View for CallbackContext {
    type V = CallbackContextView;

    closed spec fn view(&self) -> CallbackContextView {
        CallbackContextView {
            playback: self.playback,
            time_base: self.time_base,
            pulse: self.pulse,
            pulse_step: self.pulse_step,
            step: self.step,
            cycle: self.cycle,
            trigger: match self.trigger {
                Some(event) => Some(event@),
                None => None,
            },
            parameters: parameter_views(self.parameters@),
        }
    }
}

impl CallbackContext {
    /// A context in which no field is set.
    pub fn new() -> (r: CallbackContext)
        ensures
            r@ == CallbackContextView::empty(),
    {
        let r = CallbackContext {
            playback: None,
            time_base: None,
            pulse: None,
            pulse_step: None,
            step: None,
            cycle: None,
            trigger: None,
            parameters: Vec::new(),
        };
        assert(r@.parameters =~= Seq::empty());
        r
    }

    /// A copy of the context.
    pub fn duplicate(&self) -> (r: CallbackContext)
        ensures
            r@ == self@,
    {
        CallbackContext {
            playback: self.playback,
            time_base: self.time_base,
            pulse: self.pulse,
            pulse_step: self.pulse_step,
            step: self.step,
            cycle: self.cycle,
            trigger: match &self.trigger {
                Some(event) => Some(event.duplicate()),
                None => None,
            },
            parameters: clone_parameters(&self.parameters),
        }
    }

    pub fn set_playback_state(&mut self, playback_state: ContextPlaybackState)
        ensures
            final(self)@ == (CallbackContextView { playback: Some(playback_state), ..old(self)@ }),
    {
        self.playback = Some(playback_state);
    }

    pub fn set_time_base(&mut self, time_base: &BeatTimeBase)
        ensures
            final(self)@ == (CallbackContextView { time_base: Some(*time_base), ..old(self)@ }),
    {
        self.time_base = Some(*time_base);
    }

    pub fn set_parameters(&mut self, parameters: &Vec<Parameter>)
        ensures
            final(self)@ == (CallbackContextView {
                parameters: parameter_views(parameters@),
                ..old(self)@
            }),
    {
        self.parameters = clone_parameters(parameters);
    }

    pub fn set_trigger_event(&mut self, event: &Event)
        ensures
            final(self)@ == (CallbackContextView { trigger: Some(event@), ..old(self)@ }),
    {
        self.trigger = Some(event.duplicate());
    }

    pub fn set_pulse_value(&mut self, pulse: RhythmEvent)
        ensures
            final(self)@ == (CallbackContextView { pulse: Some(pulse), ..old(self)@ }),
    {
        self.pulse = Some(pulse);
    }

    pub fn set_pulse_step(&mut self, pulse_step: usize, pulse_time_step: u64)
        ensures
            final(self)@ == (CallbackContextView {
                pulse_step: Some((pulse_step, pulse_time_step)),
                ..old(self)@
            }),
    {
        self.pulse_step = Some((pulse_step, pulse_time_step));
    }

    pub fn set_step(&mut self, step: usize)
        ensures
            final(self)@ == (CallbackContextView { step: Some(step), ..old(self)@ }),
    {
        self.step = Some(step);
    }

    pub fn set_cycle_step(&mut self, channel: usize, step: usize, step_length: u64)
        ensures
            final(self)@ == (CallbackContextView {
                cycle: Some((channel, step_length)),
                step: Some(step),
                ..old(self)@
            }),
    {
        self.cycle = Some((channel, step_length));
        self.step = Some(step);
    }

    /// The value of a field of the context, as a script reads it.
    ///
    /// ### Errors
    /// Returns an error when the context has no such field, or when the field
    /// has not been set.
    pub fn index(&self, key: &str) -> (r: Result<ContextValue, ScriptError>)
        ensures
            match self@.field(key@) {
                Some(value) => r matches Ok(v) && v@ == value,
                None => r matches Err(e) && e@ == "undefined field '"@ + key@ + "' in context"@,
            },
    {
        let found: Option<ContextValue> = if same_text(key, "playback") {
            match self.playback {
                Some(state) => Some(ContextValue::Text(state.name())),
                None => None,
            }
        } else if same_text(key, "beats_per_min") {
            match self.time_base {
                Some(time_base) => Some(ContextValue::Number(time_base.beats_per_min)),
                None => None,
            }
        } else if same_text(key, "beats_per_bar") {
            match self.time_base {
                Some(time_base) => Some(ContextValue::Whole(time_base.beats_per_bar as u64)),
                None => None,
            }
        } else if same_text(key, "samples_per_sec") {
            match self.time_base {
                Some(time_base) => Some(ContextValue::Whole(time_base.samples_per_sec as u64)),
                None => None,
            }
        } else if same_text(key, "pulse_value") {
            match self.pulse {
                Some(pulse) => Some(ContextValue::Number(pulse.value)),
                None => None,
            }
        } else if same_text(key, "pulse_time") {
            match self.pulse {
                Some(pulse) => Some(ContextValue::Number(pulse.step_time)),
                None => None,
            }
        } else if same_text(key, "pulse_step") {
            match self.pulse_step {
                Some(pulse_step) => Some(ContextValue::Whole(one_based(pulse_step.0))),
                None => None,
            }
        } else if same_text(key, "pulse_time_step") {
            match self.pulse_step {
                Some(pulse_step) => Some(ContextValue::Number(pulse_step.1)),
                None => None,
            }
        } else if same_text(key, "step") {
            match self.step {
                Some(step) => Some(ContextValue::Whole(one_based(step))),
                None => None,
            }
        } else if same_text(key, "channel") {
            match self.cycle {
                Some(cycle) => Some(ContextValue::Whole(one_based(cycle.0))),
                None => None,
            }
        } else if same_text(key, "step_length") {
            match self.cycle {
                Some(cycle) => Some(ContextValue::Number(cycle.1)),
                None => None,
            }
        } else if same_text(key, "parameter") {
            Some(ContextValue::Parameters)
        } else if same_text(key, "trigger") {
            Some(
                ContextValue::Trigger(
                    match &self.trigger {
                        Some(event) => Some(event.duplicate()),
                        None => None,
                    },
                ),
            )
        } else {
            None
        };
        match found {
            Some(value) => Ok(value),
            None => Err(ScriptError::runtime(concat3("undefined field '", key, "' in context"))),
        }
    }

    /// What a script gets when it writes to a field of the context: an error.
    pub fn new_index(&self) -> (r: Result<(), ScriptError>)
        ensures
            r matches Err(e) && e@ == "context is read-only and thus can't be modified"@,
    {
        Err(ScriptError::runtime("context is read-only and thus can't be modified".to_owned()))
    }

    /// The value of a parameter, as a script reads it from the parameter
    /// table of the context.
    ///
    /// ### Errors
    /// Returns an error when no parameter has the id.
    pub fn parameter(&self, id: &str) -> (r: Result<ScriptValue, ScriptError>)
        ensures
            match self@.parameter(id@) {
                Some(value) => r matches Ok(v) && v@ == value,
                None => r matches Err(e) && e@ == "undefined parameter id '"@ + id@
                    + "' in inputs context"@,
            },
    {
        match find_parameter(&self.parameters, id) {
            Some(i) => Ok(parameter_value(&self.parameters[i])),
            None => Err(
                ScriptError::runtime(
                    concat3("undefined parameter id '", id, "' in inputs context"),
                ),
            ),
        }
    }

    /// What a script gets when it writes to the parameter table of the
    /// context: an error.
    pub fn new_parameter(&self) -> (r: Result<(), ScriptError>)
        ensures
            r matches Err(e) && e@
                == "context inputs are read-only and thus can't be modified"@,
    {
        Err(
            ScriptError::runtime(
                "context inputs are read-only and thus can't be modified".to_owned(),
            ),
        )
    }
}

} // verus!
