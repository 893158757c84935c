//! An emitter drives a callback once per pulse of a rhythm and turns what the
//! script returns into well-formed events.

use vstd::prelude::*;
use crate::callback::{done_view, result_view, CallbackModel, LuaCallback, ScriptEngine};
use crate::context::{CallbackContextView, ContextPlaybackState, RhythmEvent};
use crate::event::{clone_notes, Event, EventView, NoteEvent};
use crate::note::{Note, NOTE_OFF};
use crate::parameter::{parameter_views, Parameter};
use crate::script::{
    concat3, queued, CallbackErrors, ScriptError, ScriptValue, ScriptValueView,
};
use crate::time::{BeatTimeBase, MICRO};

verus! {

/// The event that turns a voice off.
pub open spec fn spec_note_off_event() -> NoteEvent {
    NoteEvent {
        note: Note(NOTE_OFF),
        instrument: None,
        glide: None,
        volume: MICRO,
        panning: 0,
        delay: 0,
    }
}

/// True when the slot holds a note that sounds.
pub open spec fn is_sounding(slot: Option<NoteEvent>) -> bool {
    slot matches Some(event) && event.note.is_note_on()
}

/// True when the slot says what becomes of its voice: a new note or a
/// note-off.
pub open spec fn is_explicit(slot: Option<NoteEvent>) -> bool {
    slot matches Some(event) && (event.note.is_note_on() || event.note.is_note_off())
}

/// The slot of a voice, or none where the vector has no such voice.
pub open spec fn slot_at(notes: Seq<Option<NoteEvent>>, voice_index: int) -> Option<NoteEvent> {
    if 0 <= voice_index < notes.len() {
        notes[voice_index]
    } else {
        None
    }
}

/// What is emitted for a voice: a note-off where a note sounded that the new
/// slot neither replaces nor turns off, else the new slot.
pub open spec fn normalize_slot(previous: Option<NoteEvent>, new: Option<NoteEvent>) -> Option<
    NoteEvent,
> {
    if is_sounding(previous) && !is_explicit(new) {
        Some(spec_note_off_event())
    } else {
        new
    }
}

/// What is emitted for a note vector that follows `previous`: every voice of
/// either vector, normalized.
pub open spec fn normalize_notes(previous: Seq<Option<NoteEvent>>, new: Seq<Option<NoteEvent>>)
    -> Seq<Option<NoteEvent>> {
    Seq::new(
        if previous.len() >= new.len() {
            previous.len()
        } else {
            new.len()
        },
        |i: int| normalize_slot(slot_at(previous, i), slot_at(new, i)),
    )
}

/// The event that a script value stands for, if it stands for one.
pub open spec fn spec_event_from_value(value: ScriptValueView) -> Option<EventView> {
    match value {
        ScriptValueView::Nil => Some(EventView::NoteEvents(Seq::empty())),
        ScriptValueView::Notes(notes) => Some(EventView::NoteEvents(notes)),
        ScriptValueView::ParameterChange(change) => Some(EventView::ParameterChangeEvent(change)),
        _ => None,
    }
}

/// The event that a script value stands for: no value stands for no notes,
/// note values and parameter changes for themselves.
///
/// ### Errors
/// Returns an error for every other value.
pub fn event_from_value(value: &ScriptValue) -> (r: Result<Event, ScriptError>)
    ensures
        match spec_event_from_value(value@) {
            Some(event) => r matches Ok(e) && e@ == event,
            None => r matches Err(e) && e@ == "Failed to convert a '"@ + value@.kind_name()
                + "' value to events"@,
        },
{
    match value {
        ScriptValue::Nil => Ok(Event::NoteEvents(Vec::new())),
        ScriptValue::Notes(notes) => Ok(Event::NoteEvents(clone_notes(notes))),
        ScriptValue::ParameterChange(change) => Ok(Event::ParameterChangeEvent(*change)),
        _ => Err(
            ScriptError::runtime(
                concat3("Failed to convert a '", value.kind_name(), "' value to events"),
            ),
        ),
    }
}

/// The event that turns a voice off.
pub fn note_off_event() -> (r: NoteEvent)
    ensures
        r == spec_note_off_event(),
{
    NoteEvent {
        note: Note(NOTE_OFF),
        instrument: None,
        glide: None,
        volume: MICRO,
        panning: 0,
        delay: 0,
    }
}

/// Normalizes the note vector of an event against the vector that was emitted
/// before it, and remembers the result as the vector to normalize against
/// next. Other events pass as they are.
pub fn normalize_event(event: &mut Event, state: &mut Vec<Option<NoteEvent>>)
    ensures
        match old(event)@ {
            EventView::NoteEvents(notes) => final(event)@ == EventView::NoteEvents(
                normalize_notes(old(state)@, notes),
            ) && final(state)@ == normalize_notes(old(state)@, notes),
            EventView::ParameterChangeEvent(_) => final(event)@ == old(event)@ && final(state)@
                == old(state)@,
        },
{
    match event {
        Event::NoteEvents(note_events) => {
            let ghost new = note_events@;
            let ghost previous = state@;
            let count: usize = if state.len() >= note_events.len() {
                state.len()
            } else {
                note_events.len()
            };
            let mut normalized: Vec<Option<NoteEvent>> = Vec::with_capacity(count);
            let mut i: usize = 0;
            while i < count
                invariant
                    i <= count,
                    note_events@ == new,
                    state@ == previous,
                    count == normalize_notes(previous, new).len(),
                    normalized@.len() == i,
                    forall|k: int|
                        0 <= k < i ==> normalized@[k] == normalize_slot(
                            slot_at(previous, k),
                            slot_at(new, k),
                        ),
                decreases count - i,
            {
                let last: Option<NoteEvent> = if i < state.len() {
                    state[i]
                } else {
                    None
                };
                let note_event: Option<NoteEvent> = if i < note_events.len() {
                    note_events[i]
                } else {
                    None
                };
                let sounding = match last {
                    Some(last) => last.note.is_note_on(),
                    None => false,
                };
                let explicit = match note_event {
                    Some(note_event) => note_event.note.is_note_on()
                        || note_event.note.is_note_off(),
                    None => false,
                };
                if sounding && !explicit {
                    normalized.push(Some(note_off_event()));
                } else {
                    normalized.push(note_event);
                }
                i += 1;
            }
            assert(normalized@ =~= normalize_notes(previous, new));
            *state = clone_notes(&normalized);
            *note_events = normalized;
        },
        Event::ParameterChangeEvent(_) => {},
    }
}

/// The value of an event that may not be there.
pub open spec fn event_view(event: Option<Event>) -> Option<EventView> {
    match event {
        Some(event) => Some(event@),
        None => None,
    }
}

/// The error of a result, if it is one.
pub open spec fn error_of<T>(result: Result<T, Seq<char>>) -> Option<Seq<char>> {
    match result {
        Ok(_) => None,
        Err(error) => Some(error),
    }
}

/// Evaluates a script function to generate new events.
pub struct ScriptedEmitter {
    callback: LuaCallback,
    note_event_state: Vec<Option<NoteEvent>>,
    pulse_step: usize,
    pulse_time_step: u64,
    step: usize,
}

/// The state of a [`ScriptedEmitter`].
pub struct EmitterModel {
    pub callback: CallbackModel,
    /// The note vector that was emitted last.
    pub note_event_state: Seq<Option<NoteEvent>>,
    /// Count of the pulses so far.
    pub pulse_step: usize,
    /// The time that the pulses so far took, in millionths of a step.
    pub pulse_time_step: u64,
    /// Count of the pulses so far that emitted an event.
    pub step: usize,
}

/// A count that went up by one, unless it is as high as it gets.
pub open spec fn spec_count_up(count: usize) -> usize {
    if count == usize::MAX {
        count
    } else {
        (count + 1) as usize
    }
}

/// The sum of two times, unless it is as high as it gets.
pub open spec fn spec_time_up(time: u64, step_time: u64) -> u64 {
    if time + step_time > u64::MAX {
        u64::MAX
    } else {
        (time + step_time) as u64
    }
}

impl EmitterModel {
    /// The context that the script sees in a call for a pulse.
    pub open spec fn pulse_context(self, playback: ContextPlaybackState, pulse: RhythmEvent)
        -> CallbackContextView {
        CallbackContextView {
            playback: Some(playback),
            pulse: Some(pulse),
            pulse_step: Some((self.pulse_step, self.pulse_time_step)),
            step: Some(self.step),
            ..self.callback.context
        }
    }

    /// The emitter with the context of a pulse in its callback.
    pub open spec fn with_pulse_context(self, playback: ContextPlaybackState, pulse: RhythmEvent)
        -> EmitterModel {
        EmitterModel {
            callback: CallbackModel {
                context: self.pulse_context(playback, pulse),
                ..self.callback
            },
            ..self
        }
    }

    /// The error that a pulse queues whose call of the callback returned
    /// `result`: the error of the call, or the error of a value that stands
    /// for no event.
    pub open spec fn run_error(result: Result<ScriptValueView, Seq<char>>) -> Option<Seq<char>> {
        match result {
            Err(error) => Some(error),
            Ok(value) => if spec_event_from_value(value) is None {
                Some("Failed to convert a '"@ + value.kind_name() + "' value to events"@)
            } else {
                None
            },
        }
    }

    /// True when `after` and `event` are what a pulse that emits makes of the
    /// emitter and gives, where the call of the callback returned `result`:
    /// the callback is called with the context of the pulse, which says that
    /// the engine is running; a value that stands for an event is emitted,
    /// normalized; and the pulse is counted.
    pub open spec fn is_run(
        self,
        pulse: RhythmEvent,
        result: Result<ScriptValueView, Seq<char>>,
        after: EmitterModel,
        event: Option<EventView>,
    ) -> bool {
        let ready = self.with_pulse_context(ContextPlaybackState::Running, pulse);
        let called = EmitterModel { callback: after.callback, ..ready };
        &&& ready.callback.calls_to(ScriptValueView::Nil, after.callback, result)
        &&& after == (match result {
            Ok(value) => called.emitted(value),
            Err(_) => called,
        }).count_pulse(pulse, true)
        &&& event == self.run_event(result)
    }

    /// The event that a pulse gives whose call of the callback returned
    /// `result`: the event that a value stands for, normalized, and none for
    /// an error.
    pub open spec fn run_event(self, result: Result<ScriptValueView, Seq<char>>) -> Option<
        EventView,
    > {
        match result {
            Ok(value) => self.emitted_event(value),
            Err(_) => None,
        }
    }

    /// True when `after` is what a pulse that would emit makes of an emitter
    /// that seeks, where the call of the callback returned `result`: the
    /// callback is called with the context of the pulse, which says that the
    /// engine is seeking, and the pulse is counted.
    pub open spec fn is_advance(
        self,
        pulse: RhythmEvent,
        result: Result<ScriptValueView, Seq<char>>,
        after: EmitterModel,
    ) -> bool {
        let ready = self.with_pulse_context(ContextPlaybackState::Seeking, pulse);
        &&& ready.callback.calls_to(ScriptValueView::Nil, after.callback, result)
        &&& after == (EmitterModel { callback: after.callback, ..ready }).count_pulse(pulse, true)
    }

    /// True when a pulse of an emitter that seeks calls the script: the pulse
    /// would emit, and the script is not known to have no state.
    pub open spec fn seek_calls(self, emit_event: bool) -> bool {
        emit_event && self.callback.is_stateful() != Some(false)
    }

    /// True when `after` is what a pulse makes of an emitter that seeks,
    /// where the call of the callback, if the pulse makes one, returned
    /// `result`: a pulse that makes no call is counted, and nothing else
    /// changes.
    pub open spec fn is_sought(
        self,
        pulse: RhythmEvent,
        emit_event: bool,
        result: Result<ScriptValueView, Seq<char>>,
        after: EmitterModel,
    ) -> bool {
        if self.seek_calls(emit_event) {
            self.is_advance(pulse, result, after)
        } else {
            after == self.count_pulse(pulse, emit_event)
        }
    }

    /// The error that a pulse of an emitter that seeks queues: the error of
    /// the call of the callback, if the pulse makes one.
    pub open spec fn seek_error(self, emit_event: bool, result: Result<ScriptValueView, Seq<char>>)
        -> Option<Seq<char>> {
        if self.seek_calls(emit_event) {
            error_of(result)
        } else {
            None
        }
    }

    /// The emitter at its start: the counters are at zero, in the emitter and
    /// in the context of its callback, and no notes are remembered.
    pub open spec fn cleared(self) -> EmitterModel {
        EmitterModel {
            callback: CallbackModel {
                context: CallbackContextView {
                    step: Some(0usize),
                    pulse_step: Some((0usize, 0u64)),
                    ..self.callback.context
                },
                ..self.callback
            },
            note_event_state: Seq::empty(),
            pulse_step: 0,
            pulse_time_step: 0,
            step: 0,
        }
    }

    /// True when `after` is what a reset makes of the emitter, where the
    /// reset of the callback returned `result`: the emitter is at its start,
    /// and the callback is reset.
    pub open spec fn is_reset(self, result: Result<(), Seq<char>>, after: EmitterModel) -> bool {
        &&& self.cleared().callback.resets_to(after.callback, result)
        &&& after == (EmitterModel { callback: after.callback, ..self.cleared() })
    }

    /// The counters after a pulse.
    pub open spec fn count_pulse(self, pulse: RhythmEvent, emit_event: bool) -> EmitterModel {
        EmitterModel {
            pulse_step: spec_count_up(self.pulse_step),
            pulse_time_step: spec_time_up(self.pulse_time_step, pulse.step_time),
            step: if emit_event {
                spec_count_up(self.step)
            } else {
                self.step
            },
            ..self
        }
    }

    /// The state after the script returned `value` for a pulse: an event that
    /// holds notes is normalized and remembered.
    pub open spec fn emitted(self, value: ScriptValueView) -> EmitterModel {
        match spec_event_from_value(value) {
            Some(EventView::NoteEvents(notes)) => EmitterModel {
                note_event_state: normalize_notes(self.note_event_state, notes),
                ..self
            },
            _ => self,
        }
    }

    /// The event that is emitted when the script returned `value` for a pulse.
    pub open spec fn emitted_event(self, value: ScriptValueView) -> Option<EventView> {
        match spec_event_from_value(value) {
            Some(EventView::NoteEvents(notes)) => Some(
                EventView::NoteEvents(normalize_notes(self.note_event_state, notes)),
            ),
            other => other,
        }
    }
}

impl View for ScriptedEmitter {
    type V = EmitterModel;

    closed spec fn view(&self) -> EmitterModel {
        EmitterModel {
            callback: self.callback@,
            note_event_state: self.note_event_state@,
            pulse_step: self.pulse_step,
            pulse_time_step: self.pulse_time_step,
            step: self.step,
        }
    }
}

/// A count that went up by one, unless it is as high as it gets.
fn count_up(count: usize) -> (r: usize)
    ensures
        r == spec_count_up(count),
{
    if count == usize::MAX {
        count
    } else {
        count + 1
    }
}

/// The sum of two times, unless it is as high as it gets.
fn time_up(time: u64, step_time: u64) -> (r: u64)
    ensures
        r == spec_time_up(time, step_time),
{
    if time > u64::MAX - step_time {
        u64::MAX
    } else {
        time + step_time
    }
}

impl ScriptedEmitter {
    /// An emitter for a callback, whose context is set up for the first
    /// pulse.
    pub fn new(callback: LuaCallback, time_base: &BeatTimeBase) -> (r: ScriptedEmitter)
        ensures
            r@ == (EmitterModel {
                callback: CallbackModel {
                    context: CallbackContextView {
                        playback: Some(ContextPlaybackState::Running),
                        time_base: Some(*time_base),
                        pulse: Some(RhythmEvent { value: MICRO, step_time: MICRO }),
                        pulse_step: Some((0usize, 0u64)),
                        step: Some(0usize),
                        ..callback@.context
                    },
                    ..callback@
                },
                note_event_state: Seq::empty(),
                pulse_step: 0,
                pulse_time_step: 0,
                step: 0,
            }),
    {
        // initialize emitter context for the function
        let mut callback = callback;
        let note_event_state: Vec<Option<NoteEvent>> = Vec::new();
        let playback_state = ContextPlaybackState::Running;
        let pulse = RhythmEvent::default();
        let pulse_step: usize = 0;
        let pulse_time_step: u64 = 0;
        let step: usize = 0;
        callback.set_emitter_context(
            playback_state,
            time_base,
            pulse,
            pulse_step,
            pulse_time_step,
            step,
        );
        ScriptedEmitter { callback, note_event_state, pulse_step, pulse_time_step, step }
    }

    /// Takes in what the script returned for a pulse: the event that the value
    /// stands for, normalized against the notes that were emitted before.
    ///
    /// ### Errors
    /// Returns an error, and changes nothing, when the value stands for no
    /// event.
    pub fn emit(&mut self, value: &ScriptValue) -> (r: Result<Event, ScriptError>)
        ensures
            final(self)@ == old(self)@.emitted(value@),
            match old(self)@.emitted_event(value@) {
                Some(event) => r matches Ok(e) && e@ == event,
                None => r matches Err(e) && e@ == "Failed to convert a '"@ + value@.kind_name()
                    + "' value to events"@,
            },
    {
        match event_from_value(value) {
            Ok(event) => {
                // normalize event
                let mut event = event;
                normalize_event(&mut event, &mut self.note_event_state);
                Ok(event)
            },
            Err(err) => Err(err),
        }
    }

    fn set_pulse_context(&mut self, playback_state: ContextPlaybackState, pulse: RhythmEvent)
        ensures
            final(self)@ == (EmitterModel {
                callback: CallbackModel {
                    context: old(self)@.pulse_context(playback_state, pulse),
                    ..old(self)@.callback
                },
                ..old(self)@
            }),
    {
        self.callback.set_context_playback_state(playback_state);
        self.callback.set_context_pulse_value(pulse);
        self.callback.set_context_pulse_step(self.pulse_step, self.pulse_time_step);
        self.callback.set_context_step(self.step);
    }

    fn count_pulse(&mut self, pulse: RhythmEvent, emit_event: bool)
        ensures
            final(self)@ == old(self)@.count_pulse(pulse, emit_event),
    {
        if emit_event {
            self.step = count_up(self.step);
        }
        self.pulse_step = count_up(self.pulse_step);
        self.pulse_time_step = time_up(self.pulse_time_step, pulse.step_time);
    }

    /// Runs the emitter for one pulse. A pulse that emits calls the script,
    /// with a context that says that the engine is running, and gives the
    /// event that the script returned, normalized. An error of the script is
    /// queued, and the pulse gives no event.
    pub fn run<E: ScriptEngine>(
        &mut self,
        engine: &mut E,
        errors: &mut CallbackErrors,
        pulse: RhythmEvent,
        emit_event: bool,
    ) -> (r: Option<Event>)
        ensures
            !emit_event ==> r is None && final(self)@ == old(self)@.count_pulse(pulse, false)
                && *final(engine) == *old(engine) && final(errors)@ == old(errors)@,
            emit_event ==> exists|result: Result<ScriptValueView, Seq<char>>| #[trigger]
                old(self)@.is_run(pulse, result, final(self)@, event_view(r)) && queued(
                    old(errors)@,
                    final(errors)@,
                    EmitterModel::run_error(result),
                ),
            final(self)@.pulse_step == spec_count_up(old(self)@.pulse_step),
            final(self)@.pulse_time_step == spec_time_up(
                old(self)@.pulse_time_step,
                pulse.step_time,
            ),
            final(self)@.step == (if emit_event {
                spec_count_up(old(self)@.step)
            } else {
                old(self)@.step
            }),
            emit_event ==> final(self)@.callback.context == old(self)@.pulse_context(
                ContextPlaybackState::Running,
                pulse,
            ),
            r is None ==> final(self)@.note_event_state == old(self)@.note_event_state,
    {
        // generate a new event and move or only update pulse counters
        if emit_event {
            // update function context
            self.set_pulse_context(ContextPlaybackState::Running, pulse);
            // invoke callback and evaluate the result
            let answer = self.callback.call(engine);
            let ghost result = result_view(answer);
            let event = match answer {
                Ok(value) => {
                    let ghost before = self@;
                    match self.emit(&value) {
                        Ok(event) => {
                            assert(old(self)@.emitted_event(value@) == before.emitted_event(
                                value@,
                            ));
                            Some(event)
                        },
                        Err(err) => {
                            self.callback.handle_error(errors, &err);
                            None
                        },
                    }
                },
                Err(err) => {
                    self.callback.handle_error(errors, &err);
                    None
                },
            };
            self.count_pulse(pulse, true);
            assert(old(self)@.is_run(pulse, result, self@, event_view(event)));
            event
        } else {
            self.count_pulse(pulse, false);
            None
        }
    }

    /// Moves the emitter over one pulse without emitting. A pulse that would
    /// emit calls the script, with a context that says that the engine is
    /// seeking, unless the script is known to have no state; what it returns
    /// is dropped. An error of the script is queued.
    pub fn advance<E: ScriptEngine>(
        &mut self,
        engine: &mut E,
        errors: &mut CallbackErrors,
        pulse: RhythmEvent,
        emit_event: bool,
    )
        ensures
            final(self)@.pulse_step == spec_count_up(old(self)@.pulse_step),
            final(self)@.pulse_time_step == spec_time_up(
                old(self)@.pulse_time_step,
                pulse.step_time,
            ),
            final(self)@.step == (if emit_event {
                spec_count_up(old(self)@.step)
            } else {
                old(self)@.step
            }),
            final(self)@.note_event_state == old(self)@.note_event_state,
            !emit_event || old(self)@.callback.is_stateful() == Some(false) ==> final(self)@
                == old(self)@.count_pulse(pulse, emit_event) && *final(engine) == *old(engine)
                && final(errors)@ == old(errors)@,
            exists|result: Result<ScriptValueView, Seq<char>>| #[trigger]
                old(self)@.is_sought(pulse, emit_event, result, final(self)@) && queued(
                    old(errors)@,
                    final(errors)@,
                    old(self)@.seek_error(emit_event, result),
                ),
            emit_event && old(self)@.callback.is_stateful() != Some(false)
                ==> final(self)@.callback.context == old(self)@.pulse_context(
                ContextPlaybackState::Seeking,
                pulse,
            ),
    {
        let ghost mut result: Result<ScriptValueView, Seq<char>> = Ok(ScriptValueView::Nil);
        // generate a new event and move or only update pulse counters
        if emit_event {
            let stateful = match self.callback.is_stateful() {
                Some(stateful) => stateful,
                None => true,
            };
            if stateful {
                // update function context
                self.set_pulse_context(ContextPlaybackState::Seeking, pulse);
                // invoke callback and ignore the result
                let answer = self.callback.call(engine);
                proof {
                    result = result_view(answer);
                }
                if let Err(err) = answer {
                    self.callback.handle_error(errors, &err);
                }
            }
        }
        self.count_pulse(pulse, emit_event);
        proof {
            if emit_event && old(self)@.callback.is_stateful() != Some(false) {
                assert(old(self)@.is_advance(pulse, result, self@));
            }
            assert(old(self)@.is_sought(pulse, emit_event, result, self@));
        }
    }

    /// A copy of the counters and of the notes that were emitted last, with a
    /// callback of its own.
    pub fn duplicate(&self) -> (r: ScriptedEmitter)
        ensures
            r@ == (EmitterModel {
                callback: CallbackModel {
                    context: CallbackContextView::empty(),
                    ..self@.callback
                },
                ..self@
            }),
    {
        ScriptedEmitter {
            callback: self.callback.duplicate(),
            note_event_state: clone_notes(&self.note_event_state),
            pulse_step: self.pulse_step,
            pulse_time_step: self.pulse_time_step,
            step: self.step,
        }
    }

    pub fn set_time_base(&mut self, time_base: &BeatTimeBase)
        ensures
            final(self)@ == (EmitterModel {
                callback: CallbackModel {
                    context: CallbackContextView {
                        time_base: Some(*time_base),
                        ..old(self)@.callback.context
                    },
                    ..old(self)@.callback
                },
                ..old(self)@
            }),
    {
        // update function context with the new time base
        self.callback.set_context_time_base(time_base);
    }

    pub fn set_trigger_event(&mut self, event: &Event)
        ensures
            final(self)@ == (EmitterModel {
                callback: CallbackModel {
                    context: CallbackContextView {
                        trigger: Some(event@),
                        ..old(self)@.callback.context
                    },
                    ..old(self)@.callback
                },
                ..old(self)@
            }),
    {
        self.callback.set_context_trigger_event(event);
    }

    /// Hands the parameters of the pattern to the script. The context of the
    /// callback holds a copy of them as they are now: a script reads a value
    /// that is set later only once the parameters are handed over again, as
    /// [`crate::pattern::Pattern::set_parameter_value`] does.
    pub fn set_parameters(&mut self, parameters: &Vec<Parameter>)
        ensures
            final(self)@ == (EmitterModel {
                callback: CallbackModel {
                    context: CallbackContextView {
                        parameters: parameter_views(parameters@),
                        ..old(self)@.callback.context
                    },
                    ..old(self)@.callback
                },
                ..old(self)@
            }),
    {
        // update function context with the new parameters
        self.callback.set_context_parameters(parameters);
    }

    /// Sets the counters back to zero, forgets the notes that were emitted
    /// last and resets the callback. An error of the script is queued.
    pub fn reset<E: ScriptEngine>(&mut self, engine: &mut E, errors: &mut CallbackErrors)
        ensures
            exists|result: Result<(), Seq<char>>| #[trigger]
                old(self)@.is_reset(result, final(self)@) && queued(
                    old(errors)@,
                    final(errors)@,
                    error_of(result),
                ),
            final(self)@.step == 0,
            final(self)@.pulse_step == 0,
            final(self)@.pulse_time_step == 0,
            final(self)@.note_event_state == Seq::<Option<NoteEvent>>::empty(),
            final(self)@.callback.context == (CallbackContextView {
                step: Some(0usize),
                pulse_step: Some((0usize, 0u64)),
                ..old(self)@.callback.context
            }),
            final(self)@.callback.generator == old(self)@.callback.generator,
            final(self)@.callback.environment == old(self)@.callback.environment,
            final(self)@.callback.initialized == old(self)@.callback.initialized,
            !old(self)@.callback.needs_reset() ==> final(self)@.callback.function
                == old(self)@.callback.function && *final(engine) == *old(engine)
                && final(errors)@ == old(errors)@,
    {
        // reset step counter
        self.step = 0;
        self.callback.set_context_step(self.step);
        // reset pulse counter
        self.pulse_step = 0;
        self.pulse_time_step = 0;
        self.callback.set_context_pulse_step(self.pulse_step, self.pulse_time_step);
        // restore function
        let answer = self.callback.reset(engine);
        let ghost result = done_view(answer);
        if let Err(err) = answer {
            self.callback.handle_error(errors, &err);
        }
        // reset last event
        self.note_event_state.clear();
        assert(old(self)@.is_reset(result, self@));
    }

    /// Whether the script is a generator: unknown before the first call.
    pub fn is_stateful(&self) -> (r: Option<bool>)
        ensures
            r == self@.callback.is_stateful(),
    {
        self.callback.is_stateful()
    }
}

/// Every note that sounded in the vector emitted before is answered in the
/// vector emitted now: by a new note, or by a note-off.
pub proof fn lemma_normalize_closes_notes(
    previous: Seq<Option<NoteEvent>>,
    new: Seq<Option<NoteEvent>>,
    voice_index: int,
)
    requires
        0 <= voice_index < previous.len(),
        is_sounding(previous[voice_index]),
    ensures
        voice_index < normalize_notes(previous, new).len(),
        is_explicit(normalize_notes(previous, new)[voice_index]),
        !is_explicit(slot_at(new, voice_index)) ==> normalize_notes(previous, new)[voice_index]
            == Some(spec_note_off_event()),
        is_explicit(slot_at(new, voice_index)) ==> normalize_notes(previous, new)[voice_index]
            == new[voice_index],
{
}

/// Normalizing keeps every slot that says what becomes of its voice, and
/// every slot of a voice in which no note sounded.
pub proof fn lemma_normalize_keeps_notes(
    previous: Seq<Option<NoteEvent>>,
    new: Seq<Option<NoteEvent>>,
    voice_index: int,
)
    requires
        0 <= voice_index < new.len(),
        is_explicit(new[voice_index]) || !is_sounding(slot_at(previous, voice_index)),
    ensures
        voice_index < normalize_notes(previous, new).len(),
        normalize_notes(previous, new)[voice_index] == new[voice_index],
{
}

} // verus!
