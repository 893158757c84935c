//! A sequence plays the patterns of its slots side by side and hands out
//! their events in the order of their times.

use vstd::prelude::*;
use crate::callback::ScriptEngine;
use crate::event::{PatternEvent, PatternEventView};
use crate::pattern::{seek_errors, Pattern, PatternModel, SeekStep};
use crate::script::{queued, CallbackErrors, ScriptValueView};
use crate::time::{BeatTimeBase, SampleTime};

verus! {

/// One slot of a sequence.
pub enum PatternSlot {
    /// Nothing plays in the slot.
    Stop,
    /// What played in the slot before goes on.
    Continue,
    /// A pattern plays in the slot.
    Pattern(Pattern),
}

/// The state of a [`PatternSlot`].
pub enum PatternSlotView {
    Stop,
    Continue,
    Pattern(PatternModel),
}

impl View for PatternSlot {
    type V = PatternSlotView;

    open spec fn view(&self) -> PatternSlotView {
        match self {
            PatternSlot::Stop => PatternSlotView::Stop,
            PatternSlot::Continue => PatternSlotView::Continue,
            PatternSlot::Pattern(pattern) => PatternSlotView::Pattern(pattern@),
        }
    }
}

impl PatternSlotView {
    pub open spec fn wf(self) -> bool {
        match self {
            PatternSlotView::Pattern(pattern) => pattern.wf(),
            _ => true,
        }
    }

    /// True when the slot holds a pattern whose next pulse is due before
    /// `time`.
    pub open spec fn is_due(self, time: SampleTime) -> bool {
        match self {
            PatternSlotView::Pattern(pattern) => pattern.is_due(time),
            _ => false,
        }
    }

    /// The sample position of the next pulse of the pattern in the slot.
    pub open spec fn next_time(self) -> SampleTime {
        match self {
            PatternSlotView::Pattern(pattern) => pattern.next_time(),
            _ => 0,
        }
    }

    /// True when this slot is the slot `before` after its pattern has run or
    /// was moved over every pulse that is due before `time`: the pattern is
    /// at the place that it seeks to, and a slot without a pattern is as it
    /// was.
    pub open spec fn is_played(self, before: PatternSlotView, time: SampleTime) -> bool {
        match before {
            PatternSlotView::Pattern(pattern) => self is Pattern && self->Pattern_0 == (
            PatternModel { emitter: self->Pattern_0.emitter, ..pattern.seek(time) }),
            _ => self == before,
        }
    }

    /// True when this slot is the slot `before` after its pattern was moved
    /// over every pulse that is due before `time`, without emitting: the
    /// pattern is at the place that it seeks to, and the notes that its
    /// emitter remembers are the same.
    pub open spec fn is_sought(self, before: PatternSlotView, time: SampleTime) -> bool {
        &&& self.is_played(before, time)
        &&& before matches PatternSlotView::Pattern(pattern)
            ==> self->Pattern_0.emitter.note_event_state == pattern.emitter.note_event_state
    }

    /// True when the given steps are the seek of the pattern in the slot over
    /// every pulse that is due before `time`, which leaves the slot `after`
    /// and the errors `errors_after`. A slot without a pattern stays as it
    /// is, without a step.
    pub open spec fn seeks_to(
        self,
        errors: Seq<(Seq<char>, Seq<char>)>,
        time: SampleTime,
        steps: Seq<SeekStep>,
        after: PatternSlotView,
        errors_after: Seq<(Seq<char>, Seq<char>)>,
    ) -> bool {
        match self {
            PatternSlotView::Pattern(pattern) => after is Pattern && pattern.seeks_to(
                errors,
                time,
                steps,
                after->Pattern_0,
                errors_after,
            ),
            _ => after == self && steps.len() == 0 && errors_after == errors,
        }
    }

    /// True when this slot is the slot `before` after its pattern has run or
    /// was moved over some of the pulses that are due before `time`: of the
    /// pattern, the place alone and the emitter may differ, and what is left
    /// of the way leads to the same place.
    pub open spec fn is_on_the_way(self, before: PatternSlotView, time: SampleTime) -> bool {
        match before {
            PatternSlotView::Pattern(pattern) => self is Pattern && self->Pattern_0 == (
            PatternModel {
                emitter: self->Pattern_0.emitter,
                position: self->Pattern_0.position,
                pulse_index: self->Pattern_0.pulse_index,
                ..pattern
            }) && (PatternModel { emitter: pattern.emitter, ..self->Pattern_0 }).seek(time)
                == pattern.seek(time),
            _ => self == before,
        }
    }

    /// The pulses that the pattern in the slot can still play.
    pub open spec fn remaining(self) -> nat {
        match self {
            PatternSlotView::Pattern(pattern) => pattern.remaining(),
            _ => 0,
        }
    }

    /// Length in samples of the cycles of the pattern in the slot that make up
    /// at least `min_steps` steps.
    pub open spec fn cycle_length(self, min_steps: usize) -> SampleTime {
        match self {
            PatternSlotView::Pattern(pattern) => pattern.cycle_length(min_steps),
            _ => 0,
        }
    }
}

/// The slot among the first `count` whose pulse is due before `time` and
/// comes first: the earliest one, and of several at the same time the one in
/// the lowest slot.
pub open spec fn spec_next_due(slots: Seq<PatternSlotView>, count: int, time: SampleTime)
    -> Option<int>
    decreases count,
{
    if count <= 0 {
        None
    } else {
        let before = spec_next_due(slots, count - 1, time);
        if slots[count - 1].is_due(time) && (before matches Some(i) ==> slots[count
            - 1].next_time() < slots[i].next_time()) {
            Some(count - 1)
        } else {
            before
        }
    }
}

/// The pulses that the patterns of the first `count` slots can still play.
pub open spec fn spec_remaining(slots: Seq<PatternSlotView>, count: int) -> nat
    decreases count,
{
    if count <= 0 {
        0
    } else {
        spec_remaining(slots, count - 1) + slots[count - 1].remaining()
    }
}

/// The longest of the cycle lengths of the first `count` slots.
pub open spec fn spec_max_cycle_length(slots: Seq<PatternSlotView>, count: int, min_steps: usize)
    -> SampleTime
    decreases count,
{
    if count <= 0 {
        0
    } else {
        let before = spec_max_cycle_length(slots, count - 1, min_steps);
        let length = slots[count - 1].cycle_length(min_steps);
        if length > before {
            length
        } else {
            before
        }
    }
}

/// The slot that [`spec_next_due`] finds is due, no due slot is earlier, and
/// no due slot before it is as early.
pub proof fn lemma_next_due(slots: Seq<PatternSlotView>, count: int, time: SampleTime)
    requires
        0 <= count <= slots.len(),
    ensures
        match spec_next_due(slots, count, time) {
            Some(i) => 0 <= i < count && slots[i].is_due(time) && (forall|j: int|
                0 <= j < count && (#[trigger] slots[j]).is_due(time) ==> slots[i].next_time()
                    <= slots[j].next_time()) && (forall|j: int|
                0 <= j < i && (#[trigger] slots[j]).is_due(time) ==> slots[i].next_time()
                    < slots[j].next_time()),
            None => forall|j: int| 0 <= j < count ==> !(#[trigger] slots[j]).is_due(time),
        },
    decreases count,
{
    if count > 0 {
        lemma_next_due(slots, count - 1, time);
    }
}

/// Slots that are the same but for one, which has fewer pulses left, have
/// fewer pulses left together. Slots that are the same have as many.
pub proof fn lemma_remaining_update(
    before: Seq<PatternSlotView>,
    after: Seq<PatternSlotView>,
    count: int,
    changed: int,
)
    requires
        before.len() == after.len(),
        0 <= count <= before.len(),
        forall|j: int| 0 <= j < count && j != changed ==> before[j] == after[j],
        0 <= changed < before.len() ==> after[changed].remaining() <= before[changed].remaining(),
    ensures
        spec_remaining(after, count) <= spec_remaining(before, count),
        0 <= changed < count && after[changed].remaining() < before[changed].remaining()
            ==> spec_remaining(after, count) < spec_remaining(before, count),
        !(0 <= changed < count) ==> spec_remaining(after, count) == spec_remaining(before, count),
    decreases count,
{
    if count > 0 {
        lemma_remaining_update(before, after, count - 1, changed);
    }
}

/// A set of pattern slots that play side by side.
pub struct Sequence {
    time_base: BeatTimeBase,
    slots: Vec<PatternSlot>,
}

/// The state of a [`Sequence`].
pub struct SequenceModel {
    pub time_base: BeatTimeBase,
    pub slots: Seq<PatternSlotView>,
}

impl SequenceModel {
    /// The time base is valid, and so is every pattern.
    pub open spec fn wf(self) -> bool {
        &&& self.time_base.is_valid()
        &&& forall|i: int| 0 <= i < self.slots.len() ==> (#[trigger] self.slots[i]).wf()
    }

    /// The slot whose event is next, if an event is due before `time`.
    pub open spec fn next_due(self, time: SampleTime) -> Option<int> {
        spec_next_due(self.slots, self.slots.len() as int, time)
    }

    /// The pulses that the patterns can still play.
    pub open spec fn remaining(self) -> nat {
        spec_remaining(self.slots, self.slots.len() as int)
    }

    /// The longest of the cycle lengths of the patterns.
    pub open spec fn max_cycle_length(self, min_steps: usize) -> SampleTime {
        spec_max_cycle_length(self.slots, self.slots.len() as int, min_steps)
    }

    /// True when `after`, `index` and `event` are what running the sequence
    /// for its next event before `time` makes of it and gives, where the call
    /// of the script returned `result`: the pattern whose event is next runs
    /// for its next pulse, and the other slots are as they were.
    pub open spec fn is_run(
        self,
        time: SampleTime,
        result: Result<ScriptValueView, Seq<char>>,
        after: SequenceModel,
        index: int,
        event: PatternEventView,
    ) -> bool {
        &&& self.next_due(time) == Some(index)
        &&& 0 <= index < self.slots.len()
        &&& after.time_base == self.time_base
        &&& after.slots.len() == self.slots.len()
        &&& forall|j: int|
            0 <= j < self.slots.len() && j != index ==> #[trigger] after.slots[j] == self.slots[j]
        &&& self.slots[index] is Pattern
        &&& after.slots[index] is Pattern
        &&& self.slots[index]->Pattern_0.is_run(result, after.slots[index]->Pattern_0, event)
    }

    /// The error that running the sequence for its next event queues, where
    /// the call of the script returned `result`.
    pub open spec fn run_error(self, time: SampleTime, result: Result<ScriptValueView, Seq<char>>)
        -> Option<Seq<char>> {
        match self.next_due(time) {
            Some(index) => if self.slots[index] is Pattern {
                self.slots[index]->Pattern_0.run_error(result)
            } else {
                None
            },
            None => None,
        }
    }

    /// The sequence before the step with the given number of a run.
    pub open spec fn before_step(self, steps: Seq<RunStep>, number: int) -> SequenceModel {
        if number <= 0 {
            self
        } else {
            steps[number - 1].after
        }
    }

    /// True when the first `count` of the given steps are a run of the
    /// sequence for the events that are due before `time`: every step runs
    /// the sequence that the step before it left for its next event, and
    /// queues its error behind the errors that were queued before.
    pub open spec fn is_run_of(
        self,
        errors: Seq<(Seq<char>, Seq<char>)>,
        time: SampleTime,
        steps: Seq<RunStep>,
        count: int,
    ) -> bool
        decreases count,
    {
        if count <= 0 {
            true
        } else {
            let step = steps[count - 1];
            let before = self.before_step(steps, count - 1);
            let errors_before = if count == 1 {
                errors
            } else {
                steps[count - 2].errors
            };
            &&& self.is_run_of(errors, time, steps, count - 1)
            &&& before.is_run(time, step.result, step.after, step.index, step.event)
            &&& queued(errors_before, step.errors, before.run_error(time, step.result))
        }
    }
}

/// One step of a run of a sequence: the event that came out, and what the
/// step left.
pub struct RunStep {
    /// What the call of the script returned, if the step called it.
    pub result: Result<ScriptValueView, Seq<char>>,
    /// The slot of the pattern that ran.
    pub index: int,
    /// The event that came out.
    pub event: PatternEventView,
    /// The sequence after the step.
    pub after: SequenceModel,
    /// The errors that are queued after the step.
    pub errors: Seq<(Seq<char>, Seq<char>)>,
}

impl SequenceModel {
    /// True when the given steps are the run of the sequence for every event
    /// that is due before `time`, which leaves the sequence `after` and the
    /// errors `errors_after`.
    pub open spec fn runs_to(
        self,
        errors: Seq<(Seq<char>, Seq<char>)>,
        time: SampleTime,
        steps: Seq<RunStep>,
        after: SequenceModel,
        errors_after: Seq<(Seq<char>, Seq<char>)>,
    ) -> bool {
        &&& self.is_run_of(errors, time, steps, steps.len() as int)
        &&& after == self.before_step(steps, steps.len() as int)
        &&& errors_after == run_errors(errors, steps)
        &&& after.next_due(time) is None
    }
}

/// The errors that are queued after the seeks of the first `count` slots of a
/// sequence, one slot after the other, where `errors` were queued before.
pub open spec fn errors_after_seeks(
    errors: Seq<(Seq<char>, Seq<char>)>,
    seeks: Seq<Seq<SeekStep>>,
    count: int,
) -> Seq<(Seq<char>, Seq<char>)>
    decreases count,
{
    if count <= 0 {
        errors
    } else {
        seek_errors(errors_after_seeks(errors, seeks, count - 1), seeks[count - 1])
    }
}

/// The errors after the seeks of the first slots do not depend on the seeks
/// that follow them.
pub proof fn lemma_errors_after_seeks_prefix(
    errors: Seq<(Seq<char>, Seq<char>)>,
    seeks: Seq<Seq<SeekStep>>,
    longer: Seq<Seq<SeekStep>>,
    count: int,
)
    requires
        0 <= count <= seeks.len() <= longer.len(),
        forall|i: int| 0 <= i < seeks.len() ==> seeks[i] == longer[i],
    ensures
        errors_after_seeks(errors, longer, count) == errors_after_seeks(errors, seeks, count),
    decreases count,
{
    if count > 0 {
        lemma_errors_after_seeks_prefix(errors, seeks, longer, count - 1);
    }
}

impl SequenceModel {
    /// True when the given seeks are the seeks of the patterns of the
    /// sequence over every pulse that is due before `time`, one slot after
    /// the other, which leave the sequence `after` and the errors
    /// `errors_after`.
    pub open spec fn seeks_to(
        self,
        errors: Seq<(Seq<char>, Seq<char>)>,
        time: SampleTime,
        seeks: Seq<Seq<SeekStep>>,
        after: SequenceModel,
        errors_after: Seq<(Seq<char>, Seq<char>)>,
    ) -> bool {
        &&& seeks.len() == self.slots.len()
        &&& after.time_base == self.time_base
        &&& after.slots.len() == self.slots.len()
        &&& forall|j: int|
            0 <= j < self.slots.len() ==> (#[trigger] self.slots[j]).seeks_to(
                errors_after_seeks(errors, seeks, j),
                time,
                seeks[j],
                after.slots[j],
                errors_after_seeks(errors, seeks, j + 1),
            )
        &&& errors_after == errors_after_seeks(errors, seeks, seeks.len() as int)
    }
}

/// The values of a list of events, each with its pattern slot.
pub open spec fn event_views(events: Seq<(usize, PatternEvent)>) -> Seq<
    (usize, PatternEventView),
> {
    Seq::new(events.len(), |i: int| (events[i].0, events[i].1@))
}

/// The errors that are queued after the given steps of a run that found the
/// errors `errors` queued.
pub open spec fn run_errors(errors: Seq<(Seq<char>, Seq<char>)>, steps: Seq<RunStep>) -> Seq<
    (Seq<char>, Seq<char>),
> {
    if steps.len() == 0 {
        errors
    } else {
        steps.last().errors
    }
}

/// The events that came out of the steps of a run, each with its slot.
pub open spec fn step_events(steps: Seq<RunStep>) -> Seq<(usize, PatternEventView)> {
    Seq::new(steps.len(), |i: int| (steps[i].index as usize, steps[i].event))
}

/// The first steps of a run are a run, whatever steps follow them.
pub proof fn lemma_run_prefix(
    sequence: SequenceModel,
    errors: Seq<(Seq<char>, Seq<char>)>,
    time: SampleTime,
    steps: Seq<RunStep>,
    longer: Seq<RunStep>,
    count: int,
)
    requires
        0 <= count <= steps.len() <= longer.len(),
        forall|i: int| 0 <= i < steps.len() ==> steps[i] == longer[i],
    ensures
        sequence.is_run_of(errors, time, longer, count) == sequence.is_run_of(
            errors,
            time,
            steps,
            count,
        ),
    decreases count,
{
    if count > 0 {
        lemma_run_prefix(sequence, errors, time, steps, longer, count - 1);
    }
}

impl View for Sequence {
    type V = SequenceModel;

    closed spec fn view(&self) -> SequenceModel {
        SequenceModel {
            time_base: self.time_base,
            slots: Seq::new(self.slots@.len(), |i: int| self.slots@[i]@),
        }
    }
}

impl Sequence {
    /// A sequence of the given slots. Returns nothing when the time base is
    /// not valid.
    pub fn new(time_base: BeatTimeBase, slots: Vec<PatternSlot>) -> (r: Option<Sequence>)
        requires
            forall|i: int| 0 <= i < slots@.len() ==> (#[trigger] slots@[i])@.wf(),
        ensures
            r is Some <==> time_base.is_valid(),
            r matches Some(s) ==> s@.wf() && s@ == (SequenceModel {
                time_base,
                slots: Seq::new(slots@.len(), |i: int| slots@[i]@),
            }),
    {
        if time_base.is_valid() {
            Some(Sequence { time_base, slots })
        } else {
            None
        }
    }

    pub fn time_base(&self) -> (r: &BeatTimeBase)
        ensures
            *r == self@.time_base,
    {
        &self.time_base
    }

    /// Count of the pattern slots.
    pub fn phrase_pattern_slot_count(&self) -> (r: usize)
        ensures
            r == self@.slots.len(),
    {
        self.slots.len()
    }

    /// The pattern slots.
    pub fn pattern_slots(&self) -> (r: &Vec<PatternSlot>)
        ensures
            r@.len() == self@.slots.len(),
            forall|i: int| 0 <= i < r@.len() ==> (#[trigger] r@[i])@ == self@.slots[i],
    {
        &self.slots
    }

    /// The longest of the cycle lengths of the patterns, each made up of at
    /// least `min_steps` steps.
    pub fn max_cycle_length(&self, min_steps: usize) -> (r: SampleTime)
        requires
            self@.wf(),
        ensures
            r == self@.max_cycle_length(min_steps),
    {
        let mut longest: SampleTime = 0;
        let mut i: usize = 0;
        while i < self.slots.len()
            invariant
                self@.wf(),
                i <= self.slots@.len(),
                longest == spec_max_cycle_length(self@.slots, i as int, min_steps),
            decreases self.slots@.len() - i,
        {
            if let PatternSlot::Pattern(pattern) = &self.slots[i] {
                assert(self@.slots[i as int].wf());
                let length = pattern.cycle_length(min_steps);
                if length > longest {
                    longest = length;
                }
            }
            i += 1;
        }
        longest
    }

    /// The slot whose event is next, if an event is due before `time`.
    pub fn next_due(&self, time: SampleTime) -> (r: Option<usize>)
        requires
            self@.wf(),
        ensures
            match r {
                Some(i) => self@.next_due(time) == Some(i as int) && i < self@.slots.len(),
                None => self@.next_due(time) is None,
            },
    {
        let mut best: Option<(usize, SampleTime)> = None;
        let mut i: usize = 0;
        while i < self.slots.len()
            invariant
                self@.wf(),
                i <= self.slots@.len(),
                match best {
                    Some((index, next)) => spec_next_due(self@.slots, i as int, time) == Some(
                        index as int,
                    ) && index < i && next == self@.slots[index as int].next_time(),
                    None => spec_next_due(self@.slots, i as int, time) is None,
                },
            decreases self.slots@.len() - i,
        {
            if let PatternSlot::Pattern(pattern) = &self.slots[i] {
                assert(self@.slots[i as int].wf());
                if let Some(next) = pattern.next_time() {
                    if next < time {
                        let earlier = match best {
                            Some((_, best_next)) => next < best_next,
                            None => true,
                        };
                        if earlier {
                            best = Some((i, next));
                        }
                    }
                }
            }
            i += 1;
        }
        match best {
            Some((index, _)) => Some(index),
            None => None,
        }
    }

    /// Runs the pattern whose event is next, if an event is due before
    /// `time`, and gives the slot of the pattern and the event. Of the events
    /// that are due, the earliest is next, and of several at the same time
    /// the one in the lowest slot.
    pub fn run_until_time<E: ScriptEngine>(
        &mut self,
        engine: &mut E,
        errors: &mut CallbackErrors,
        time: SampleTime,
    ) -> (r: Option<(usize, PatternEvent)>)
        requires
            old(self)@.wf(),
        ensures
            final(self)@.wf(),
            final(self)@.time_base == old(self)@.time_base,
            final(self)@.slots.len() == old(self)@.slots.len(),
            r is None ==> old(self)@.next_due(time) is None && final(self)@ == old(self)@
                && *final(engine) == *old(engine) && final(errors)@ == old(errors)@,
            r matches Some((index, event)) ==> ({
                let before = old(self)@;
                let after = final(self)@;
                &&& before.next_due(time) == Some(index as int)
                &&& index < before.slots.len()
                &&& event.time == before.slots[index as int].next_time()
                &&& event.time < time
                &&& event.time + event.duration == after.slots[index as int].next_time()
                &&& after.remaining() < before.remaining()
                &&& forall|j: int|
                    0 <= j < before.slots.len() && j != index ==> #[trigger] after.slots[j]
                        == before.slots[j]
                &&& forall|j: int|
                    0 <= j < after.slots.len() && (#[trigger] after.slots[j]).is_due(time)
                        ==> event.time <= after.slots[j].next_time()
                &&& before.slots[index as int] is Pattern
                &&& after.slots[index as int] is Pattern
                &&& before.slots[index as int].is_due(time)
                &&& after.slots[index as int]->Pattern_0 == (PatternModel {
                    emitter: after.slots[index as int]->Pattern_0.emitter,
                    ..before.slots[index as int]->Pattern_0.stepped()
                })
                &&& exists|result: Result<ScriptValueView, Seq<char>>| #[trigger]
                    before.is_run(time, result, after, index as int, event@) && queued(
                        old(errors)@,
                        final(errors)@,
                        before.run_error(time, result),
                    )
            }),
    {
        match self.next_due(time) {
            None => None,
            Some(index) => {
                proof {
                    lemma_next_due(self@.slots, self@.slots.len() as int, time);
                }
                let ghost before = self@;
                assert(before.slots[index as int].wf());
                match &mut self.slots[index] {
                    PatternSlot::Pattern(pattern) => {
                        let ghost pattern_before = pattern@;
                        let event = pattern.run_until_time(engine, errors, time);
                        let ghost pattern_after = pattern@;
                        proof {
                            crate::pattern::lemma_time_at_monotonic(
                                pattern_before,
                                pattern_before.position,
                                pattern@.position,
                            );
                        }
                        match event {
                            Some(event) => {
                                proof {
                                    let result = choose|result: Result<ScriptValueView, Seq<char>>|
                                        #[trigger] pattern_before.is_run(
                                            result,
                                            pattern_after,
                                            event@,
                                        ) && queued(
                                            old(errors)@,
                                            errors@,
                                            pattern_before.run_error(result),
                                        );
                                    assert(self@.slots[index as int] == PatternSlotView::Pattern(
                                        pattern_after,
                                    ));
                                    assert(before.is_run(
                                        time,
                                        result,
                                        self@,
                                        index as int,
                                        event@,
                                    ));
                                    assert(self@.slots.len() == before.slots.len());
                                    assert forall|j: int|
                                        0 <= j < before.slots.len() && j
                                            != index implies #[trigger] self@.slots[j]
                                        == before.slots[j] by {}
                                    assert forall|i: int|
                                        0 <= i < self@.slots.len() implies (
                                    #[trigger] self@.slots[i]).wf() by {
                                        if i != index {
                                            assert(self@.slots[i] == before.slots[i]);
                                        }
                                    }
                                    lemma_remaining_update(
                                        before.slots,
                                        self@.slots,
                                        before.slots.len() as int,
                                        index as int,
                                    );
                                    assert forall|j: int|
                                        0 <= j < self@.slots.len() && (
                                        #[trigger] self@.slots[j]).is_due(time) implies event.time
                                        <= self@.slots[j].next_time() by {
                                        if j != index {
                                            assert(self@.slots[j] == before.slots[j]);
                                            assert(before.slots[j].is_due(time));
                                        }
                                    }
                                }
                                Some((index, event))
                            },
                            None => {
                                // a pattern that is due gives an event
                                proof {
                                    assert(false);
                                }
                                None
                            },
                        }
                    },
                    _ => {
                        // only a slot with a pattern is due
                        proof {
                            assert(false);
                        }
                        None
                    },
                }
            },
        }
    }

    /// Runs the sequence for every event that is due before `time` and gives
    /// the events, each with its pattern slot, in the order in which they
    /// came out: the order of their times.
    pub fn consume_events_until_time<E: ScriptEngine>(
        &mut self,
        engine: &mut E,
        errors: &mut CallbackErrors,
        time: SampleTime,
    ) -> (r: Vec<(usize, PatternEvent)>)
        requires
            old(self)@.wf(),
        ensures
            final(self)@.wf(),
            final(self)@.time_base == old(self)@.time_base,
            final(self)@.slots.len() == old(self)@.slots.len(),
            exists|steps: Seq<RunStep>| #[trigger]
                old(self)@.runs_to(old(errors)@, time, steps, final(self)@, final(errors)@)
                    && step_events(steps) == event_views(r@),
            final(self)@.next_due(time) is None,
            forall|i: int|
                0 <= i < r@.len() ==> (#[trigger] r@[i]).1.time < time && r@[i].0 < old(
                    self,
                )@.slots.len(),
            forall|i: int, j: int|
                0 <= i <= j < r@.len() ==> (#[trigger] r@[i]).1.time <= (#[trigger] r@[j]).1.time,
            forall|j: int|
                0 <= j < final(self)@.slots.len() ==> (#[trigger] final(self)@.slots[j]).is_played(
                    old(self)@.slots[j],
                    time,
                ),
            old(errors)@.is_prefix_of(final(errors)@),
    {
        let mut events: Vec<(usize, PatternEvent)> = Vec::new();
        let ghost mut steps: Seq<RunStep> = Seq::empty();
        proof {
            assert forall|j: int| 0 <= j < self@.slots.len() implies (
            #[trigger] self@.slots[j]).is_on_the_way(self@.slots[j], time) by {
                lemma_on_the_way(self@.slots[j], self@.slots[j], self@.slots[j], time);
            }
            assert(step_events(steps) =~= event_views(events@));
        }
        loop
            invariant
                old(self)@.wf(),
                self@.wf(),
                self@.time_base == old(self)@.time_base,
                self@.slots.len() == old(self)@.slots.len(),
                steps.len() == events@.len(),
                old(self)@.is_run_of(old(errors)@, time, steps, steps.len() as int),
                self@ == old(self)@.before_step(steps, steps.len() as int),
                errors@ == (if steps.len() == 0 {
                    old(errors)@
                } else {
                    steps.last().errors
                }),
                step_events(steps) == event_views(events@),
                forall|j: int|
                    0 <= j < self@.slots.len() ==> (#[trigger] self@.slots[j]).is_on_the_way(
                        old(self)@.slots[j],
                        time,
                    ),
                old(errors)@.is_prefix_of(errors@),
                forall|i: int|
                    0 <= i < events@.len() ==> (#[trigger] events@[i]).1.time < time && events@[i].0
                        < self@.slots.len(),
                forall|i: int, j: int|
                    0 <= i <= j < events@.len() ==> (#[trigger] events@[i]).1.time <= (
                    #[trigger] events@[j]).1.time,
                events@.len() > 0 ==> forall|j: int|
                    0 <= j < self@.slots.len() && (#[trigger] self@.slots[j]).is_due(time)
                        ==> events@.last().1.time <= self@.slots[j].next_time(),
            ensures
                self@.next_due(time) is None,
                forall|j: int|
                    0 <= j < self@.slots.len() ==> (#[trigger] self@.slots[j]).is_played(
                        old(self)@.slots[j],
                        time,
                    ),
            decreases self@.remaining(),
        {
            let ghost before = self@;
            let ghost errors_before = errors@;
            let ghost steps_before = steps;
            let ghost events_before = events@;
            match self.run_until_time(engine, errors, time) {
                None => {
                    proof {
                        lemma_next_due(before.slots, before.slots.len() as int, time);
                        assert forall|j: int| 0 <= j < self@.slots.len() implies (
                        #[trigger] self@.slots[j]).is_played(old(self)@.slots[j], time) by {
                            lemma_on_the_way(
                                old(self)@.slots[j],
                                before.slots[j],
                                before.slots[j],
                                time,
                            );
                        }
                    }
                    break ;
                },
                Some((index, event)) => {
                    proof {
                        lemma_next_due(before.slots, before.slots.len() as int, time);
                        let result = choose|result: Result<ScriptValueView, Seq<char>>|
                            #[trigger] before.is_run(time, result, self@, index as int, event@)
                                && queued(errors_before, errors@, before.run_error(time, result));
                        steps = steps_before.push(
                            RunStep {
                                result,
                                index: index as int,
                                event: event@,
                                after: self@,
                                errors: errors@,
                            },
                        );
                        lemma_run_prefix(
                            old(self)@,
                            old(errors)@,
                            time,
                            steps_before,
                            steps,
                            steps_before.len() as int,
                        );
                        assert(old(self)@.before_step(steps, steps.len() - 1) == before);
                        assert forall|j: int| 0 <= j < self@.slots.len() implies (
                        #[trigger] self@.slots[j]).is_on_the_way(old(self)@.slots[j], time) by {
                            lemma_on_the_way(
                                old(self)@.slots[j],
                                before.slots[j],
                                self@.slots[j],
                                time,
                            );
                            if j != index {
                                assert(self@.slots[j] == before.slots[j]);
                            }
                        }
                    }
                    events.push((index, event));
                    proof {
                        assert(step_events(steps) =~= event_views(events@)) by {
                            assert forall|i: int| 0 <= i < steps.len() implies step_events(
                                steps,
                            )[i] == event_views(events@)[i] by {
                                if i < steps_before.len() {
                                    assert(steps[i] == steps_before[i]);
                                    assert(events@[i] == events_before[i]);
                                    assert(step_events(steps_before)[i] == event_views(
                                        events_before,
                                    )[i]);
                                }
                            }
                        }
                        assert forall|i: int, j: int| 0 <= i <= j < events@.len() implies (
                        #[trigger] events@[i]).1.time <= (#[trigger] events@[j]).1.time by {
                            if j == events_before.len() && i < j {
                                assert(events@[i] == events_before[i]);
                                assert(events_before[i].1.time <= events_before.last().1.time);
                            } else if j < events_before.len() {
                                assert(events@[i] == events_before[i]);
                                assert(events@[j] == events_before[j]);
                            }
                        }
                        assert forall|i: int| 0 <= i < events@.len() implies (
                        #[trigger] events@[i]).1.time < time && events@[i].0
                            < self@.slots.len() by {
                            if i < events_before.len() {
                                assert(events@[i] == events_before[i]);
                            }
                        }
                    }
                },
            }
        }
        proof {
            assert(old(self)@.runs_to(old(errors)@, time, steps, self@, errors@));
        }
        events
    }

    /// Moves every pattern over the pulses that are due before `time`,
    /// without emitting.
    pub fn advance_until_time<E: ScriptEngine>(
        &mut self,
        engine: &mut E,
        errors: &mut CallbackErrors,
        time: SampleTime,
    )
        requires
            old(self)@.wf(),
        ensures
            final(self)@.wf(),
            final(self)@.time_base == old(self)@.time_base,
            final(self)@.slots.len() == old(self)@.slots.len(),
            final(self)@.next_due(time) is None,
            old(self)@.next_due(time) is None ==> final(self)@ == old(self)@ && *final(engine)
                == *old(engine) && final(errors)@ == old(errors)@,
            forall|j: int|
                0 <= j < final(self)@.slots.len() ==> (#[trigger] final(self)@.slots[j]).is_sought(
                    old(self)@.slots[j],
                    time,
                ),
            old(errors)@.is_prefix_of(final(errors)@),
            exists|seeks: Seq<Seq<SeekStep>>| #[trigger]
                old(self)@.seeks_to(old(errors)@, time, seeks, final(self)@, final(errors)@),
    {
        proof {
            lemma_next_due(self@.slots, self@.slots.len() as int, time);
        }
        let ghost mut seeks: Seq<Seq<SeekStep>> = Seq::empty();
        let mut i: usize = 0;
        while i < self.slots.len()
            invariant
                seeks.len() == i,
                errors@ == errors_after_seeks(old(errors)@, seeks, i as int),
                forall|j: int|
                    0 <= j < i ==> (#[trigger] old(self)@.slots[j]).seeks_to(
                        errors_after_seeks(old(errors)@, seeks, j),
                        time,
                        seeks[j],
                        self@.slots[j],
                        errors_after_seeks(old(errors)@, seeks, j + 1),
                    ),
                self@.wf(),
                self@.time_base == old(self)@.time_base,
                self@.slots.len() == old(self)@.slots.len(),
                i <= self.slots@.len(),
                forall|j: int| 0 <= j < i ==> !(#[trigger] self@.slots[j]).is_due(time),
                forall|j: int|
                    0 <= j < i ==> (#[trigger] self@.slots[j]).is_sought(old(self)@.slots[j], time),
                old(errors)@.is_prefix_of(errors@),
                forall|j: int|
                    i <= j < self@.slots.len() ==> #[trigger] self@.slots[j] == old(self)@.slots[j],
                (forall|j: int|
                    0 <= j < old(self)@.slots.len() ==> !(#[trigger] old(self)@.slots[j]).is_due(
                        time,
                    )) ==> self@ == old(self)@ && *engine == *old(engine) && errors@ == old(
                    errors,
                )@,
            decreases self.slots@.len() - i,
        {
            let ghost before = self@;
            let ghost errors_before = errors@;
            assert(before.slots[i as int].wf());
            if let PatternSlot::Pattern(pattern) = &mut self.slots[i] {
                pattern.advance_until_time(engine, errors, time);
            }
            proof {
                let steps = if before.slots[i as int] is Pattern {
                    choose|steps: Seq<SeekStep>| #[trigger]
                        before.slots[i as int]->Pattern_0.seeks_to(
                            errors_before,
                            time,
                            steps,
                            self@.slots[i as int]->Pattern_0,
                            errors@,
                        )
                } else {
                    Seq::empty()
                };
                let longer = seeks.push(steps);
                assert forall|j: int| 0 <= j <= i implies errors_after_seeks(
                    old(errors)@,
                    longer,
                    j,
                ) == errors_after_seeks(old(errors)@, seeks, j) by {
                    lemma_errors_after_seeks_prefix(old(errors)@, seeks, longer, j);
                }
                assert(errors_after_seeks(old(errors)@, longer, i + 1) == seek_errors(
                    errors_after_seeks(old(errors)@, longer, i as int),
                    longer[i as int],
                ));
                assert(before.slots[i as int].seeks_to(
                    errors_before,
                    time,
                    steps,
                    self@.slots[i as int],
                    errors@,
                ));
                assert(errors@ == errors_after_seeks(old(errors)@, longer, i + 1));
                assert forall|j: int| 0 <= j < i + 1 implies (#[trigger] old(
                    self,
                )@.slots[j]).seeks_to(
                    errors_after_seeks(old(errors)@, longer, j),
                    time,
                    longer[j],
                    self@.slots[j],
                    errors_after_seeks(old(errors)@, longer, j + 1),
                ) by {
                    if j < i {
                        assert(self@.slots[j] == before.slots[j]);
                        assert(longer[j] == seeks[j]);
                    }
                }
                seeks = longer;
                assert(self@.slots.len() == before.slots.len());
                assert forall|j: int| 0 <= j < self@.slots.len() && j != i implies (
                #[trigger] self@.slots[j]) == before.slots[j] by {}
                assert forall|j: int| 0 <= j < self@.slots.len() implies (
                #[trigger] self@.slots[j]).wf() by {
                    if j != i {
                        assert(self@.slots[j] == before.slots[j]);
                    }
                }
                if forall|j: int|
                    0 <= j < old(self)@.slots.len() ==> !(#[trigger] old(self)@.slots[j]).is_due(
                        time,
                    ) {
                    assert(!old(self)@.slots[i as int].is_due(time));
                    assert(self@.slots =~= before.slots);
                }
            }
            i += 1;
        }
        proof {
            lemma_next_due(self@.slots, self@.slots.len() as int, time);
            assert(old(self)@.seeks_to(old(errors)@, time, seeks, self@, errors@));
        }
    }

    /// Sets the time base of the sequence and of its patterns. A time base
    /// that is not valid is not taken.
    pub fn set_time_base(&mut self, time_base: &BeatTimeBase)
        requires
            old(self)@.wf(),
        ensures
            final(self)@.wf(),
            final(self)@.slots.len() == old(self)@.slots.len(),
            !time_base.is_valid() ==> final(self)@ == old(self)@,
            time_base.is_valid() ==> final(self)@.time_base == *time_base && forall|i: int|
                0 <= i < final(self)@.slots.len() ==> #[trigger] final(self)@.slots[i] == (
                match old(self)@.slots[i] {
                    PatternSlotView::Pattern(pattern) => PatternSlotView::Pattern(
                        pattern.with_time_base(*time_base),
                    ),
                    other => other,
                }),
    {
        if !time_base.is_valid() {
            return ;
        }
        self.time_base = *time_base;
        let mut i: usize = 0;
        while i < self.slots.len()
            invariant
                time_base.is_valid(),
                self@.time_base == *time_base,
                self@.slots.len() == old(self)@.slots.len(),
                i <= self.slots@.len(),
                forall|j: int| 0 <= j < self@.slots.len() ==> (#[trigger] self@.slots[j]).wf(),
                forall|j: int|
                    0 <= j < i ==> #[trigger] self@.slots[j] == (match old(self)@.slots[j] {
                        PatternSlotView::Pattern(pattern) => PatternSlotView::Pattern(
                            pattern.with_time_base(*time_base),
                        ),
                        other => other,
                    }),
                forall|j: int|
                    i <= j < self@.slots.len() ==> #[trigger] self@.slots[j] == old(self)@.slots[j],
            decreases self.slots@.len() - i,
        {
            let ghost before = self@;
            assert(before.slots[i as int].wf());
            if let PatternSlot::Pattern(pattern) = &mut self.slots[i] {
                pattern.set_time_base(time_base);
            }
            proof {
                assert forall|j: int| 0 <= j < self@.slots.len() && j != i implies (
                #[trigger] self@.slots[j]) == before.slots[j] by {}
                assert forall|j: int| 0 <= j < self@.slots.len() implies (
                #[trigger] self@.slots[j]).wf() by {
                    if j != i {
                        assert(self@.slots[j] == before.slots[j]);
                    }
                }
            }
            i += 1;
        }
    }
}

/// A pattern that has run for its next pulse is on the way to the place that
/// it was on the way to before; a pattern of which nothing is due has
/// arrived.
pub proof fn lemma_on_the_way(
    start: PatternSlotView,
    before: PatternSlotView,
    after: PatternSlotView,
    time: SampleTime,
)
    requires
        start.wf(),
        before.is_on_the_way(start, time),
    ensures
        start.is_on_the_way(start, time),
        before is Pattern && after is Pattern && before->Pattern_0.is_due(time)
            && after->Pattern_0 == (PatternModel {
            emitter: after->Pattern_0.emitter,
            ..before->Pattern_0.stepped()
        }) ==> after.is_on_the_way(start, time),
        !before.is_due(time) ==> before.is_played(start, time),
{
    match start {
        PatternSlotView::Pattern(first) => {
            let pattern = before->Pattern_0;
            let like_first = PatternModel { emitter: first.emitter, ..pattern };
            assert(like_first.is_due(time) == pattern.is_due(time));
            if after is Pattern && pattern.is_due(time) && after->Pattern_0 == (PatternModel {
                emitter: after->Pattern_0.emitter,
                ..pattern.stepped()
            }) {
                assert(like_first.stepped() == (PatternModel {
                    emitter: first.emitter,
                    ..after->Pattern_0
                }));
            }
        },
        _ => {},
    }
}

/// Events come out of a sequence in the order of their times: once the
/// pattern whose event is next has run, whatever its script did, no event of
/// the sequence is earlier than that event, up to whatever time the sequence
/// is run next.
pub proof fn lemma_events_in_order(
    before: SequenceModel,
    after: SequenceModel,
    time: SampleTime,
    later: SampleTime,
    index: int,
)
    requires
        before.wf(),
        before.next_due(time) == Some(index),
        after.slots.len() == before.slots.len(),
        forall|j: int|
            0 <= j < before.slots.len() && j != index ==> after.slots[j] == before.slots[j],
        0 <= index < before.slots.len() ==> before.slots[index] is Pattern
            && after.slots[index] is Pattern && after.slots[index]->Pattern_0 == (PatternModel {
            emitter: after.slots[index]->Pattern_0.emitter,
            ..before.slots[index]->Pattern_0.stepped()
        }),
    ensures
        0 <= index < before.slots.len(),
        forall|j: int|
            0 <= j < after.slots.len() && (#[trigger] after.slots[j]).is_due(later)
                ==> before.slots[index].next_time() <= after.slots[j].next_time(),
        after.next_due(later) matches Some(next) ==> before.slots[index].next_time()
            <= after.slots[next].next_time(),
{
    lemma_next_due(before.slots, before.slots.len() as int, time);
    lemma_next_due(after.slots, after.slots.len() as int, later);
    let first = before.slots[index].next_time();
    assert(before.slots[index].wf());
    let pattern = before.slots[index]->Pattern_0;
    crate::pattern::lemma_time_at_monotonic(
        pattern,
        pattern.position,
        after.slots[index]->Pattern_0.position,
    );
    assert forall|j: int|
        0 <= j < after.slots.len() && (#[trigger] after.slots[j]).is_due(later) implies first
        <= after.slots[j].next_time() by {
        if j != index {
            assert(after.slots[j] == before.slots[j]);
            if before.slots[j].is_due(time) {
                assert(first <= before.slots[j].next_time());
            }
        }
    }
}

} // verus!
