//! A pattern steps through a rhythm at the pace of a time base and asks its
//! emitter for an event on every pulse that is not a rest.

use vstd::prelude::*;
use crate::callback::ScriptEngine;
use crate::context::RhythmEvent;
use crate::emitter::{spec_count_up, EmitterModel, ScriptedEmitter};
use crate::event::{Event, InstrumentId, NoteEvent, PatternEvent};
use crate::note::{Note, MAX_NOTE};
use crate::parameter::{
    clone_parameters, parameter_views, set_parameter_value, spec_find_parameter, Parameter,
    ParameterError, ParameterView,
};
use crate::script::{queued, CallbackErrors};
use crate::time::{
    mul_div, mul_div_ceil, saturated, spec_mul_div, spec_mul_div_ceil, BeatTimeBase, SampleTime,
    MICRO,
};

verus! {

/// The unit in which a pattern counts its steps.
#[derive(Copy, Clone, Debug, PartialEq, Eq, Structural)]
pub enum TimeUnit {
    /// Steps are counted in beats.
    Beats,
    /// Steps are counted in seconds.
    Seconds,
}

/// Changes the events that a pattern emits.
#[derive(Copy, Clone, Debug, PartialEq, Eq, Structural)]
pub enum EventTransform {
    /// Gives every note that names no instrument the given one.
    SetInstrument(InstrumentId),
    /// Moves every pitched note by the given count of semitones, within the
    /// range of the keys.
    Transpose(i8),
    /// Multiplies the volume of every note by the given factor, in
    /// millionths.
    ScaleVolume(u64),
}

impl EventTransform {
    /// What the transform makes of a note.
    pub open spec fn spec_apply_note(self, note_event: NoteEvent) -> NoteEvent {
        match self {
            EventTransform::SetInstrument(instrument) => NoteEvent {
                instrument: match note_event.instrument {
                    Some(own) => Some(own),
                    None => Some(instrument),
                },
                ..note_event
            },
            EventTransform::Transpose(semitones) => if note_event.note.is_note_on() {
                NoteEvent {
                    note: Note(
                        crate::event::spec_clamp(
                            note_event.note.0 + semitones,
                            0,
                            MAX_NOTE as int,
                        ) as u8,
                    ),
                    ..note_event
                }
            } else {
                note_event
            },
            EventTransform::ScaleVolume(factor) => NoteEvent {
                volume: saturated(spec_mul_div(note_event.volume, factor, MICRO)),
                ..note_event
            },
        }
    }

    /// What the transform makes of a note.
    pub fn apply_note(&self, note_event: NoteEvent) -> (r: NoteEvent)
        ensures
            r == self.spec_apply_note(note_event),
    {
        match self {
            EventTransform::SetInstrument(instrument) => NoteEvent {
                note: note_event.note,
                instrument: match note_event.instrument {
                    Some(own) => Some(own),
                    None => Some(*instrument),
                },
                glide: note_event.glide,
                volume: note_event.volume,
                panning: note_event.panning,
                delay: note_event.delay,
            },
            EventTransform::Transpose(semitones) => {
                if note_event.note.is_note_on() {
                    let key: i32 = note_event.note.0 as i32 + *semitones as i32;
                    let key: u8 = if key < 0 {
                        0
                    } else if key > 127 {
                        127
                    } else {
                        key as u8
                    };
                    NoteEvent {
                        note: Note(key),
                        instrument: note_event.instrument,
                        glide: note_event.glide,
                        volume: note_event.volume,
                        panning: note_event.panning,
                        delay: note_event.delay,
                    }
                } else {
                    note_event
                }
            },
            EventTransform::ScaleVolume(factor) => NoteEvent {
                note: note_event.note,
                instrument: note_event.instrument,
                glide: note_event.glide,
                volume: mul_div(note_event.volume, *factor, MICRO),
                panning: note_event.panning,
                delay: note_event.delay,
            },
        }
    }

    /// What the transform makes of the slot of a voice.
    pub open spec fn spec_apply_slot(self, slot: Option<NoteEvent>) -> Option<NoteEvent> {
        match slot {
            Some(note_event) => Some(self.spec_apply_note(note_event)),
            None => None,
        }
    }

    /// What the transform makes of an event: every note is transformed,
    /// parameter changes pass.
    pub open spec fn spec_apply(self, event: crate::event::EventView) -> crate::event::EventView {
        match event {
            crate::event::EventView::NoteEvents(notes) => crate::event::EventView::NoteEvents(
                Seq::new(notes.len(), |i: int| self.spec_apply_slot(notes[i])),
            ),
            crate::event::EventView::ParameterChangeEvent(change) => event,
        }
    }

    /// Transforms an event in place.
    pub fn apply(&self, event: &mut Event)
        ensures
            final(event)@ == self.spec_apply(old(event)@),
    {
        match event {
            Event::NoteEvents(notes) => {
                let ghost before = notes@;
                let mut i: usize = 0;
                while i < notes.len()
                    invariant
                        i <= notes@.len(),
                        notes@.len() == before.len(),
                        forall|k: int| 0 <= k < i ==> notes@[k] == self.spec_apply_slot(before[k]),
                        forall|k: int| i <= k < notes@.len() ==> notes@[k] == before[k],
                    decreases notes@.len() - i,
                {
                    if let Some(note_event) = notes[i] {
                        notes[i] = Some(self.apply_note(note_event));
                    }
                    i += 1;
                }
                assert(notes@ =~= Seq::new(before.len(), |i: int| self.spec_apply_slot(before[i])));
            },
            Event::ParameterChangeEvent(_) => {},
        }
    }
}

/// What an optional transform makes of an optional event.
pub open spec fn spec_transformed(
    transform: Option<EventTransform>,
    event: Option<crate::event::EventView>,
) -> Option<crate::event::EventView> {
    match (transform, event) {
        (Some(transform), Some(event)) => Some(transform.spec_apply(event)),
        _ => event,
    }
}

/// A pattern: a rhythm, an emitter, and the place that it has played to.
pub struct Pattern {
    time_base: BeatTimeBase,
    unit: TimeUnit,
    step: u64,
    pulses: Vec<u64>,
    emitter: ScriptedEmitter,
    parameters: Vec<Parameter>,
    transform: Option<EventTransform>,
    sample_offset: SampleTime,
    position: u64,
    pulse_index: usize,
}

/// The state of a [`Pattern`].
pub struct PatternModel {
    pub time_base: BeatTimeBase,
    pub unit: TimeUnit,
    /// Length of a step in millionths of the unit.
    pub step: u64,
    /// The values of the pulses of one cycle of the rhythm, in millionths. A
    /// pulse of zero is a rest.
    pub pulses: Seq<u64>,
    pub emitter: EmitterModel,
    pub parameters: Seq<ParameterView>,
    pub transform: Option<EventTransform>,
    /// Sample position at which the pattern starts.
    pub sample_offset: SampleTime,
    /// The time that the pattern has played to, in millionths of the unit.
    pub position: u64,
    /// The pulse of the cycle that is next.
    pub pulse_index: usize,
}

/// The sample count that a time in millionths of a unit stands for.
pub open spec fn spec_unit_to_samples(time_base: BeatTimeBase, unit: TimeUnit, time: u64) -> u64 {
    match unit {
        TimeUnit::Beats => saturated(time_base.spec_beats_to_samples(time)),
        TimeUnit::Seconds => saturated(time_base.spec_seconds_to_samples(time)),
    }
}

/// The sample count that a time in millionths of a unit takes, rounded up to
/// a whole sample.
pub open spec fn spec_unit_to_samples_ceil(time_base: BeatTimeBase, unit: TimeUnit, time: u64)
    -> u64 {
    match unit {
        TimeUnit::Beats => saturated(
            spec_mul_div_ceil(time, time_base.spec_samples_per_min(), time_base.beats_per_min),
        ),
        TimeUnit::Seconds => saturated(
            spec_mul_div_ceil(time, time_base.samples_per_sec as u64, MICRO),
        ),
    }
}

impl PatternModel {
    /// The rates are positive, the step has a length, and the rhythm has a
    /// pulse that is next.
    pub open spec fn wf(self) -> bool {
        &&& self.time_base.is_valid()
        &&& self.step > 0
        &&& self.pulses.len() > 0
        &&& self.pulse_index < self.pulses.len()
    }

    /// The sample position of a time of the pattern.
    pub open spec fn time_at(self, position: u64) -> SampleTime {
        saturated(self.sample_offset + spec_unit_to_samples(self.time_base, self.unit, position))
    }

    /// The sample position of the next pulse.
    pub open spec fn next_time(self) -> SampleTime {
        self.time_at(self.position)
    }

    /// True when the pattern has a next pulse: one more step does not lead
    /// beyond the times that the pattern can count.
    pub open spec fn has_next(self) -> bool {
        self.position + self.step <= u64::MAX
    }

    /// True when the next pulse is due before `time`.
    pub open spec fn is_due(self, time: SampleTime) -> bool {
        self.has_next() && self.next_time() < time
    }

    /// The next pulse.
    pub open spec fn next_pulse(self) -> RhythmEvent {
        RhythmEvent { value: self.pulses[self.pulse_index as int], step_time: MICRO }
    }

    /// True when the next pulse is no rest.
    pub open spec fn next_emits(self) -> bool {
        self.pulses[self.pulse_index as int] > 0
    }

    /// True when `after` and `event` are what the next pulse makes of the
    /// pattern and gives, where the call of the script returned `result`: the
    /// event is due at the place of the pattern and lasts up to its next
    /// place; a pulse that is no rest runs the emitter, whose event is
    /// transformed; a rest is counted and gives no event.
    pub open spec fn is_run(
        self,
        result: Result<crate::script::ScriptValueView, Seq<char>>,
        after: PatternModel,
        event: crate::event::PatternEventView,
    ) -> bool {
        &&& after == (PatternModel { emitter: after.emitter, ..self.stepped() })
        &&& event.time == self.next_time()
        &&& event.time + event.duration == after.next_time()
        &&& if self.next_emits() {
            &&& self.emitter.is_run(
                self.next_pulse(),
                result,
                after.emitter,
                self.emitter.run_event(result),
            )
            &&& event.event == spec_transformed(self.transform, self.emitter.run_event(result))
        } else {
            &&& after.emitter == self.emitter.count_pulse(self.next_pulse(), false)
            &&& event.event is None
        }
    }

    /// The error that the next pulse queues where the call of the script
    /// returned `result`: none for a rest.
    pub open spec fn run_error(self, result: Result<crate::script::ScriptValueView, Seq<char>>)
        -> Option<Seq<char>> {
        if self.next_emits() {
            EmitterModel::run_error(result)
        } else {
            None
        }
    }

    /// The place of the pattern after its next pulse.
    pub open spec fn stepped(self) -> PatternModel {
        PatternModel {
            position: (self.position + self.step) as u64,
            pulse_index: if self.pulse_index + 1 < self.pulses.len() {
                (self.pulse_index + 1) as usize
            } else {
                0
            },
            ..self
        }
    }

    /// The pulses that the pattern can still play.
    pub open spec fn remaining(self) -> nat {
        (u64::MAX - self.position) as nat
    }

    /// The place of the pattern after every pulse that is due before `time`.
    pub open spec fn seek(self, time: SampleTime) -> PatternModel
        decreases u64::MAX - self.position,
        when self.step > 0
    {
        if self.is_due(time) {
            self.stepped().seek(time)
        } else {
            self
        }
    }

    /// True when `after` is what the next pulse makes of a pattern that
    /// seeks, where the call of the script, if the pulse makes one, returned
    /// `result`: the emitter is moved over the pulse, and the pattern is at
    /// its next place.
    pub open spec fn is_sought_pulse(
        self,
        result: Result<crate::script::ScriptValueView, Seq<char>>,
        after: PatternModel,
    ) -> bool {
        &&& after == (PatternModel { emitter: after.emitter, ..self.stepped() })
        &&& self.emitter.is_sought(self.next_pulse(), self.next_emits(), result, after.emitter)
    }

    /// The pattern before the pulse with the given number of a seek.
    pub open spec fn before_pulse(self, steps: Seq<SeekStep>, number: int) -> PatternModel {
        if number <= 0 {
            self
        } else {
            steps[number - 1].after
        }
    }

    /// True when the first `count` of the given steps are a seek of the
    /// pattern towards `time`: every step moves the pattern that the step
    /// before it left over its next pulse, which is due before `time`, and
    /// queues its error behind the errors that were queued before.
    pub open spec fn is_seek_of(
        self,
        errors: Seq<(Seq<char>, Seq<char>)>,
        time: SampleTime,
        steps: Seq<SeekStep>,
        count: int,
    ) -> bool
        decreases count,
    {
        if count <= 0 {
            true
        } else {
            let step = steps[count - 1];
            let before = self.before_pulse(steps, count - 1);
            &&& self.is_seek_of(errors, time, steps, count - 1)
            &&& before.is_due(time)
            &&& before.is_sought_pulse(step.result, step.after)
            &&& queued(
                seek_errors(errors, steps.take(count - 1)),
                step.errors,
                before.emitter.seek_error(before.next_emits(), step.result),
            )
        }
    }

    /// True when the given steps are the seek of the pattern over every pulse
    /// that is due before `time`, which leaves the pattern `after` and the
    /// errors `errors_after`.
    pub open spec fn seeks_to(
        self,
        errors: Seq<(Seq<char>, Seq<char>)>,
        time: SampleTime,
        steps: Seq<SeekStep>,
        after: PatternModel,
        errors_after: Seq<(Seq<char>, Seq<char>)>,
    ) -> bool {
        &&& self.is_seek_of(errors, time, steps, steps.len() as int)
        &&& after == self.before_pulse(steps, steps.len() as int)
        &&& errors_after == seek_errors(errors, steps)
        &&& !after.is_due(time)
    }

    /// Length in samples of the cycles that make up at least `min_steps`
    /// steps, rounded up to a whole sample: a whole length is as it is.
    pub open spec fn cycle_length(self, min_steps: usize) -> SampleTime {
        let steps = if self.pulses.len() >= min_steps {
            self.pulses.len()
        } else {
            min_steps as nat
        };
        if steps * self.step > u64::MAX {
            u64::MAX
        } else {
            spec_unit_to_samples_ceil(self.time_base, self.unit, (steps * self.step) as u64)
        }
    }
}

impl View for Pattern {
    type V = PatternModel;

    closed spec fn view(&self) -> PatternModel {
        PatternModel {
            time_base: self.time_base,
            unit: self.unit,
            step: self.step,
            pulses: self.pulses@,
            emitter: self.emitter@,
            parameters: parameter_views(self.parameters@),
            transform: self.transform,
            sample_offset: self.sample_offset,
            position: self.position,
            pulse_index: self.pulse_index,
        }
    }
}

/// One pulse of a seek of a pattern.
pub struct SeekStep {
    /// What the call of the script returned, if the pulse called it.
    pub result: Result<crate::script::ScriptValueView, Seq<char>>,
    /// The pattern after the pulse.
    pub after: PatternModel,
    /// The errors that are queued after the pulse.
    pub errors: Seq<(Seq<char>, Seq<char>)>,
}

/// The errors that are queued after the given steps of a seek that found the
/// errors `errors` queued.
pub open spec fn seek_errors(errors: Seq<(Seq<char>, Seq<char>)>, steps: Seq<SeekStep>) -> Seq<
    (Seq<char>, Seq<char>),
> {
    if steps.len() == 0 {
        errors
    } else {
        steps.last().errors
    }
}

/// The first steps of a seek are a seek, whatever steps follow them.
pub proof fn lemma_seek_prefix(
    pattern: PatternModel,
    errors: Seq<(Seq<char>, Seq<char>)>,
    time: SampleTime,
    steps: Seq<SeekStep>,
    longer: Seq<SeekStep>,
    count: int,
)
    requires
        0 <= count <= steps.len() <= longer.len(),
        forall|i: int| 0 <= i < steps.len() ==> steps[i] == longer[i],
    ensures
        pattern.is_seek_of(errors, time, longer, count) == pattern.is_seek_of(
            errors,
            time,
            steps,
            count,
        ),
    decreases count,
{
    if count > 0 {
        lemma_seek_prefix(pattern, errors, time, steps, longer, count - 1);
        assert(longer.take(count - 1) =~= steps.take(count - 1));
    }
}

/// A later time of a pattern lies at a later sample position, or at the same.
pub proof fn lemma_time_at_monotonic(pattern: PatternModel, earlier: u64, later: u64)
    requires
        pattern.time_base.is_valid(),
        earlier <= later,
    ensures
        pattern.time_at(earlier) <= pattern.time_at(later),
{
    let tb = pattern.time_base;
    match pattern.unit {
        TimeUnit::Beats => {
            let b = tb.spec_samples_per_min() as int;
            let d = tb.beats_per_min as int;
            assert(earlier as int * b <= later as int * b) by (nonlinear_arith)
                requires
                    earlier <= later,
                    0 <= b,
            ;
            vstd::arithmetic::div_mod::lemma_div_is_ordered(earlier as int * b, later as int * b, d);
        },
        TimeUnit::Seconds => {
            let b = tb.samples_per_sec as int;
            let d = MICRO as int;
            assert(earlier as int * b <= later as int * b) by (nonlinear_arith)
                requires
                    earlier <= later,
                    0 <= b,
            ;
            vstd::arithmetic::div_mod::lemma_div_is_ordered(earlier as int * b, later as int * b, d);
        },
    }
}

impl Pattern {
    /// A pattern that plays the given pulses, one per step, over and over.
    /// The script of the emitter sees the time base and the parameters.
    /// Returns nothing when the time base is not valid, when the step has no
    /// length or when there is no pulse.
    pub fn new(
        time_base: BeatTimeBase,
        unit: TimeUnit,
        step: u64,
        pulses: Vec<u64>,
        emitter: ScriptedEmitter,
        parameters: Vec<Parameter>,
    ) -> (r: Option<Pattern>)
        ensures
            r is Some <==> time_base.is_valid() && step > 0 && pulses@.len() > 0,
            r matches Some(p) ==> p@.wf() && p@ == (PatternModel {
                time_base,
                unit,
                step,
                pulses: pulses@,
                emitter: EmitterModel {
                    callback: crate::callback::CallbackModel {
                        context: crate::context::CallbackContextView {
                            time_base: Some(time_base),
                            parameters: parameter_views(parameters@),
                            ..emitter@.callback.context
                        },
                        ..emitter@.callback
                    },
                    ..emitter@
                },
                parameters: parameter_views(parameters@),
                transform: None,
                sample_offset: 0,
                position: 0,
                pulse_index: 0,
            }),
    {
        if time_base.is_valid() && step > 0 && pulses.len() > 0 {
            let mut emitter = emitter;
            emitter.set_time_base(&time_base);
            emitter.set_parameters(&parameters);
            Some(
                Pattern {
                    time_base,
                    unit,
                    step,
                    pulses,
                    emitter,
                    parameters,
                    transform: None,
                    sample_offset: 0,
                    position: 0,
                    pulse_index: 0,
                },
            )
        } else {
            None
        }
    }

    fn unit_to_samples(&self, time: u64) -> (r: SampleTime)
        requires
            self@.wf(),
        ensures
            r == spec_unit_to_samples(self@.time_base, self@.unit, time),
    {
        match self.unit {
            TimeUnit::Beats => self.time_base.beats_to_samples(time),
            TimeUnit::Seconds => self.time_base.seconds_to_samples(time),
        }
    }

    fn time_at(&self, position: u64) -> (r: SampleTime)
        requires
            self@.wf(),
        ensures
            r == self@.time_at(position),
    {
        let samples = self.unit_to_samples(position);
        if self.sample_offset > u64::MAX - samples {
            u64::MAX
        } else {
            self.sample_offset + samples
        }
    }

    /// The sample position of the next pulse, if there is one.
    pub fn next_time(&self) -> (r: Option<SampleTime>)
        requires
            self@.wf(),
        ensures
            r == (if self@.has_next() {
                Some(self@.next_time())
            } else {
                None
            }),
    {
        if self.position > u64::MAX - self.step {
            None
        } else {
            Some(self.time_at(self.position))
        }
    }

    /// Count of the steps in one cycle of the rhythm.
    pub fn step_count(&self) -> (r: usize)
        ensures
            r == self@.pulses.len(),
    {
        self.pulses.len()
    }

    /// Length of a step in sample frames, rounded down.
    pub fn step_length(&self) -> (r: SampleTime)
        requires
            self@.wf(),
        ensures
            r == spec_unit_to_samples(self@.time_base, self@.unit, self@.step),
    {
        self.unit_to_samples(self.step)
    }

    /// Length in samples of the cycles that make up at least `min_steps`
    /// steps, rounded up to a whole sample.
    pub fn cycle_length(&self, min_steps: usize) -> (r: SampleTime)
        requires
            self@.wf(),
        ensures
            r == self@.cycle_length(min_steps),
    {
        let steps: usize = if self.pulses.len() >= min_steps {
            self.pulses.len()
        } else {
            min_steps
        };
        assert(steps as int * self.step as int <= u64::MAX as int * u64::MAX as int)
            by (nonlinear_arith)
            requires
                0 <= steps as int <= u64::MAX as int,
                0 <= self.step as int <= u64::MAX as int,
        ;
        assert(0 <= steps as int * self.step as int) by (nonlinear_arith)
            requires
                0 <= steps as int,
                0 <= self.step as int,
        ;
        let units: u128 = steps as u128 * self.step as u128;
        if units > u64::MAX as u128 {
            return u64::MAX;
        }
        match self.unit {
            TimeUnit::Beats => mul_div_ceil(
                units as u64,
                self.time_base.samples_per_min(),
                self.time_base.beats_per_min,
            ),
            TimeUnit::Seconds => mul_div_ceil(
                units as u64,
                self.time_base.samples_per_sec as u64,
                MICRO,
            ),
        }
    }

    pub fn time_base(&self) -> (r: &BeatTimeBase)
        ensures
            *r == self@.time_base,
    {
        &self.time_base
    }

    /// The parameters that the pattern declares.
    pub fn parameters(&self) -> (r: &Vec<Parameter>)
        ensures
            parameter_views(r@) == self@.parameters,
    {
        &self.parameters
    }

    /// Sets the value of a parameter, for the host and for the script.
    ///
    /// ### Errors
    /// Returns an error, and changes nothing, when no parameter has the id or
    /// when the value lies outside the range of the parameter.
    pub fn set_parameter_value(&mut self, id: &str, value: i64) -> (r: Result<(), ParameterError>)
        ensures
            match spec_find_parameter(old(self)@.parameters, id@) {
                None => r == Err::<(), ParameterError>(ParameterError::UnknownId) && final(self)@
                    == old(self)@,
                Some(i) => match old(self)@.parameters[i].set_value(value) {
                    Err(e) => r == Err::<(), ParameterError>(e) && final(self)@ == old(self)@,
                    Ok(p) => r is Ok && final(self)@ == old(self)@.with_parameters(
                        old(self)@.parameters.update(i, p),
                    ),
                },
            },
    {
        proof {
            crate::parameter::lemma_find_parameter(
                self@.parameters,
                self@.parameters.len() as int,
                id@,
            );
        }
        let r = set_parameter_value(&mut self.parameters, id, value);
        if r.is_ok() {
            self.emitter.set_parameters(&self.parameters);
        }
        r
    }

    /// Sets the time base of the pattern and of its script. A time base that
    /// is not valid is not taken.
    pub fn set_time_base(&mut self, time_base: &BeatTimeBase)
        ensures
            time_base.is_valid() ==> final(self)@ == old(self)@.with_time_base(*time_base),
            !time_base.is_valid() ==> final(self)@ == old(self)@,
            old(self)@.wf() ==> final(self)@.wf(),
    {
        if time_base.is_valid() {
            self.time_base = *time_base;
            self.emitter.set_time_base(time_base);
        }
    }

    /// Sets the event that triggered the pattern, for its script to read.
    pub fn set_trigger_event(&mut self, event: &Event)
        ensures
            final(self)@ == old(self)@.with_trigger_event(event@),
            old(self)@.wf() ==> final(self)@.wf(),
    {
        self.emitter.set_trigger_event(event);
    }

    /// Sets or removes the transform of the events that the pattern emits.
    pub fn set_event_transform(&mut self, transform: Option<EventTransform>)
        ensures
            final(self)@ == (PatternModel { transform, ..old(self)@ }),
    {
        self.transform = transform;
    }

    /// Sets the sample position at which the pattern starts.
    pub fn set_sample_offset(&mut self, sample_offset: SampleTime)
        ensures
            final(self)@ == (PatternModel { sample_offset, ..old(self)@ }),
    {
        self.sample_offset = sample_offset;
    }

    /// A new instance of the pattern, at the same place, with a script
    /// context of its own that holds the time base and the parameters.
    pub fn duplicate(&self) -> (r: Pattern)
        ensures
            r@ == (PatternModel {
                emitter: EmitterModel {
                    callback: crate::callback::CallbackModel {
                        context: crate::context::CallbackContextView {
                            time_base: Some(self@.time_base),
                            parameters: self@.parameters,
                            ..crate::context::CallbackContextView::empty()
                        },
                        ..self@.emitter.callback
                    },
                    ..self@.emitter
                },
                ..self@
            }),
    {
        let mut emitter = self.emitter.duplicate();
        let parameters = clone_parameters(&self.parameters);
        emitter.set_time_base(&self.time_base);
        emitter.set_parameters(&parameters);
        let mut pulses: Vec<u64> = Vec::with_capacity(self.pulses.len());
        let mut i: usize = 0;
        while i < self.pulses.len()
            invariant
                i <= self.pulses@.len(),
                pulses@ == self.pulses@.take(i as int),
            decreases self.pulses@.len() - i,
        {
            pulses.push(self.pulses[i]);
            assert(self.pulses@.take(i as int).push(self.pulses@[i as int])
                =~= self.pulses@.take(i as int + 1));
            i += 1;
        }
        assert(self.pulses@.take(self.pulses@.len() as int) =~= self.pulses@);
        Pattern {
            time_base: self.time_base,
            unit: self.unit,
            step: self.step,
            pulses,
            emitter,
            parameters,
            transform: self.transform,
            sample_offset: self.sample_offset,
            position: self.position,
            pulse_index: self.pulse_index,
        }
    }

    fn step_forward(&mut self)
        requires
            old(self)@.wf(),
            old(self)@.has_next(),
        ensures
            final(self)@ == old(self)@.stepped(),
            final(self)@.wf(),
    {
        self.position = self.position + self.step;
        self.pulse_index = if self.pulse_index < self.pulses.len() - 1 {
            self.pulse_index + 1
        } else {
            0
        };
    }

    /// Runs the pattern for its next pulse, if that is due before `time`, and
    /// gives the event of the pulse: what the emitter made of it, transformed,
    /// or nothing for a rest or a failed script.
    pub fn run_until_time<E: ScriptEngine>(
        &mut self,
        engine: &mut E,
        errors: &mut CallbackErrors,
        time: SampleTime,
    ) -> (r: Option<PatternEvent>)
        requires
            old(self)@.wf(),
        ensures
            final(self)@.wf(),
            r is Some <==> old(self)@.is_due(time),
            !old(self)@.is_due(time) ==> final(self)@ == old(self)@ && *final(engine) == *old(
                engine,
            ) && final(errors)@ == old(errors)@,
            old(self)@.is_due(time) ==> final(self)@ == (PatternModel {
                emitter: final(self)@.emitter,
                ..old(self)@.stepped()
            }),
            r matches Some(event) ==> exists|
                result: Result<crate::script::ScriptValueView, Seq<char>>,
            | #[trigger]
                old(self)@.is_run(result, final(self)@, event@) && crate::script::queued(
                    old(errors)@,
                    final(errors)@,
                    old(self)@.run_error(result),
                ),
            r matches Some(event) ==> event.time == old(self)@.next_time() && event.time
                + event.duration == final(self)@.next_time(),
            r is Some && !old(self)@.next_emits() ==> *final(engine) == *old(engine),
            final(self)@.emitter.pulse_step == (if old(self)@.is_due(time) {
                spec_count_up(old(self)@.emitter.pulse_step)
            } else {
                old(self)@.emitter.pulse_step
            }),
            final(self)@.emitter.callback.context.time_base == old(
                self,
            )@.emitter.callback.context.time_base,
            final(self)@.emitter.callback.context.trigger == old(
                self,
            )@.emitter.callback.context.trigger,
            final(self)@.emitter.callback.context.parameters == old(
                self,
            )@.emitter.callback.context.parameters,
    {
        let start = match self.next_time() {
            Some(start) => start,
            None => {
                return None;
            },
        };
        if start >= time {
            return None;
        }
        let value = self.pulses[self.pulse_index];
        let pulse = RhythmEvent { value, step_time: MICRO };
        let mut event = self.emitter.run(engine, errors, pulse, value > 0);
        let ghost emitted = crate::emitter::event_view(event);
        let ghost emitter_after = self.emitter@;
        let ghost errors_after = errors@;
        if let Some(transform) = self.transform {
            if let Some(inner) = &mut event {
                transform.apply(inner);
            }
        }
        self.step_forward();
        let end = self.time_at(self.position);
        proof {
            lemma_time_at_monotonic(old(self)@, old(self)@.position, self@.position);
        }
        let pattern_event = PatternEvent { time: start, duration: end - start, event };
        proof {
            if value > 0 {
                let result = choose|result: Result<crate::script::ScriptValueView, Seq<char>>|
                    #[trigger] old(self)@.emitter.is_run(pulse, result, emitter_after, emitted)
                        && crate::script::queued(
                        old(errors)@,
                        errors_after,
                        EmitterModel::run_error(result),
                    );
                assert(old(self)@.is_run(result, self@, pattern_event@));
            } else {
                let result = Ok::<crate::script::ScriptValueView, Seq<char>>(
                    crate::script::ScriptValueView::Nil,
                );
                assert(old(self)@.is_run(result, self@, pattern_event@));
            }
        }
        Some(pattern_event)
    }

    /// Moves the pattern over every pulse that is due before `time`, without
    /// emitting.
    pub fn advance_until_time<E: ScriptEngine>(
        &mut self,
        engine: &mut E,
        errors: &mut CallbackErrors,
        time: SampleTime,
    )
        requires
            old(self)@.wf(),
        ensures
            final(self)@.wf(),
            !final(self)@.is_due(time),
            final(self)@.position >= old(self)@.position,
            !old(self)@.is_due(time) ==> final(self)@ == old(self)@ && *final(engine) == *old(
                engine,
            ) && final(errors)@ == old(errors)@,
            final(self)@ == (PatternModel {
                emitter: final(self)@.emitter,
                ..old(self)@.seek(time)
            }),
            final(self)@.emitter.note_event_state == old(self)@.emitter.note_event_state,
            old(errors)@.is_prefix_of(final(errors)@),
            exists|steps: Seq<SeekStep>| #[trigger]
                old(self)@.seeks_to(old(errors)@, time, steps, final(self)@, final(errors)@),
    {
        let ghost mut steps: Seq<SeekStep> = Seq::empty();
        loop
            invariant
                old(self)@.is_seek_of(old(errors)@, time, steps, steps.len() as int),
                self@ == old(self)@.before_pulse(steps, steps.len() as int),
                errors@ == seek_errors(old(errors)@, steps),
                self@.wf(),
                self@.position >= old(self)@.position,
                self@ == (PatternModel {
                    emitter: self@.emitter,
                    position: self@.position,
                    pulse_index: self@.pulse_index,
                    ..old(self)@
                }),
                (PatternModel { emitter: old(self)@.emitter, ..self@ }).seek(time) == old(
                    self,
                )@.seek(time),
                self@.emitter.note_event_state == old(self)@.emitter.note_event_state,
                old(errors)@.is_prefix_of(errors@),
                !old(self)@.is_due(time) ==> self@ == old(self)@ && *engine == *old(engine)
                    && errors@ == old(errors)@,
            ensures
                !self@.is_due(time),
                self@ == (PatternModel { emitter: self@.emitter, ..old(self)@.seek(time) }),
                old(self)@.is_seek_of(old(errors)@, time, steps, steps.len() as int),
                self@ == old(self)@.before_pulse(steps, steps.len() as int),
                errors@ == seek_errors(old(errors)@, steps),
            decreases self@.remaining(),
        {
            let due = match self.next_time() {
                Some(start) => start < time,
                None => false,
            };
            if !due {
                break ;
            }
            let value = self.pulses[self.pulse_index];
            let pulse = RhythmEvent { value, step_time: MICRO };
            let ghost before = self@;
            let ghost errors_before = errors@;
            let emits = value > 0;
            self.emitter.advance(engine, errors, pulse, emits);
            self.step_forward();
            proof {
                let result = choose|result: Result<crate::script::ScriptValueView, Seq<char>>|
                    #[trigger] before.emitter.is_sought(pulse, emits, result, self@.emitter)
                        && queued(errors_before, errors@, before.emitter.seek_error(emits, result));
                let step = SeekStep { result, after: self@, errors: errors@ };
                let longer = steps.push(step);
                lemma_seek_prefix(
                    old(self)@,
                    old(errors)@,
                    time,
                    steps,
                    longer,
                    steps.len() as int,
                );
                assert(longer.take(longer.len() - 1) =~= steps);
                assert(old(self)@.before_pulse(longer, longer.len() - 1) == before);
                assert(before.is_sought_pulse(result, self@));
                assert(old(self)@.is_seek_of(old(errors)@, time, longer, longer.len() as int));
                steps = longer;
            }
        }
        assert(old(self)@.seeks_to(old(errors)@, time, steps, self@, errors@));
    }

    /// Sets the pattern back to its start and resets its emitter.
    pub fn reset<E: ScriptEngine>(&mut self, engine: &mut E, errors: &mut CallbackErrors)
        requires
            old(self)@.wf(),
        ensures
            final(self)@.wf(),
            final(self)@ == (PatternModel {
                emitter: final(self)@.emitter,
                position: 0,
                pulse_index: 0,
                ..old(self)@
            }),
            exists|result: Result<(), Seq<char>>| #[trigger]
                old(self)@.emitter.is_reset(result, final(self)@.emitter) && crate::script::queued(
                    old(errors)@,
                    final(errors)@,
                    crate::emitter::error_of(result),
                ),
            final(self)@.emitter.step == 0,
            final(self)@.emitter.pulse_step == 0,
            final(self)@.emitter.pulse_time_step == 0,
            final(self)@.emitter.note_event_state == Seq::<Option<NoteEvent>>::empty(),
    {
        self.position = 0;
        self.pulse_index = 0;
        self.emitter.reset(engine, errors);
    }
}

impl PatternModel {
    /// The pattern with other parameters, which its script sees.
    pub open spec fn with_parameters(self, parameters: Seq<ParameterView>) -> PatternModel {
        PatternModel {
            parameters,
            emitter: EmitterModel {
                callback: crate::callback::CallbackModel {
                    context: crate::context::CallbackContextView {
                        parameters,
                        ..self.emitter.callback.context
                    },
                    ..self.emitter.callback
                },
                ..self.emitter
            },
            ..self
        }
    }

    /// The pattern with another time base, which its script sees.
    pub open spec fn with_time_base(self, time_base: BeatTimeBase) -> PatternModel {
        PatternModel {
            time_base,
            emitter: EmitterModel {
                callback: crate::callback::CallbackModel {
                    context: crate::context::CallbackContextView {
                        time_base: Some(time_base),
                        ..self.emitter.callback.context
                    },
                    ..self.emitter.callback
                },
                ..self.emitter
            },
            ..self
        }
    }

    /// The pattern with a trigger event, which its script sees.
    pub open spec fn with_trigger_event(self, event: crate::event::EventView) -> PatternModel {
        PatternModel {
            emitter: EmitterModel {
                callback: crate::callback::CallbackModel {
                    context: crate::context::CallbackContextView {
                        trigger: Some(event),
                        ..self.emitter.callback.context
                    },
                    ..self.emitter.callback
                },
                ..self.emitter
            },
            ..self
        }
    }
}

} // verus!
