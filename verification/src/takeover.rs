//! Laws on the stops that a player issues when one sequence takes over from
//! another: a note that plays is stopped by exactly one command.

use vstd::prelude::*;
use crate::event::{spec_clamp, NoteEvent, PatternEventView};
use crate::player_model::{
    lemma_stop_pending, lemma_stop_pending_commands, lemma_takeover_ends_every_note, Handover,
    PlayerModel, MIN_LOOKUP_STEPS,
};
use crate::sequence::{step_events, RunStep, SequenceModel};
use crate::time::{saturated, SampleTime, MICRO};
use crate::voice::{
    pending_in_slots, pending_notes, spec_note_event_time, stop_pending_table, stops_at,
    stops_by, table_get, PlayingNote, VoiceCommand, VoiceId, VoiceTable,
};

verus! {

/// The count of the commands from the place `from` on that stop the given
/// voice.
pub open spec fn stop_count(commands: Seq<VoiceCommand>, from: int, voice: VoiceId) -> nat
    decreases commands.len(),
{
    if commands.len() <= from || commands.len() == 0 {
        0
    } else {
        stop_count(commands.drop_last(), from, voice) + if commands.last().stops(voice) {
            1nat
        } else {
            0nat
        }
    }
}

/// True when a command from the place `from` on stops the given voice at
/// `time`.
pub open spec fn is_stopped_at(
    commands: Seq<VoiceCommand>,
    from: int,
    voice: VoiceId,
    time: SampleTime,
) -> bool {
    exists|k: int|
        from <= k < commands.len() && #[trigger] commands[k] == (VoiceCommand::Stop {
            voice,
            time: Some(time),
        })
}

/// The count of the notes that the given voice plays.
pub open spec fn voice_count(notes: Seq<PlayingNote>, voice: VoiceId) -> nat
    decreases notes.len(),
{
    if notes.len() == 0 {
        0
    } else {
        voice_count(notes.drop_last(), voice) + if notes.last().voice == voice {
            1nat
        } else {
            0nat
        }
    }
}

/// True when the note in the voice `v` of the slot `p` is played by `voice`,
/// and no other note of the tables is.
pub open spec fn plays_alone(slots: Seq<VoiceTable>, p: int, v: int, voice: VoiceId) -> bool {
    &&& 0 <= p < slots.len()
    &&& 0 <= v < slots[p].len()
    &&& slots[p][v] is Some
    &&& slots[p][v]->0.voice == voice
    &&& forall|q: int, w: int|
        0 <= q < slots.len() && 0 <= w < slots[q].len() && (q != p || w != v) ==> ((
        #[trigger] slots[q][w]) matches Some(note) ==> note.voice != voice)
}

/// True when the events of each pattern slot follow each other: none begins
/// before the one before it has ended.
pub open spec fn in_order(events: Seq<(usize, PatternEventView)>) -> bool {
    forall|i: int, j: int|
        0 <= i < j < events.len() && (#[trigger] events[i]).0 == (#[trigger] events[j]).0
            ==> events[i].1.time + events[i].1.duration <= events[j].1.time
}

/// The time of the stop that a note slot of an event asks for, if it asks
/// for one that is due no later than `limit`.
pub open spec fn found_stop(
    state: PlayerModel,
    slot: Option<NoteEvent>,
    event_time: SampleTime,
    duration: SampleTime,
    time_offset: SampleTime,
    limit: SampleTime,
) -> Option<SampleTime> {
    match slot {
        Some(note_event) => {
            let time = spec_note_event_time(event_time, duration, note_event.delay, time_offset);
            if state.wants_stop(note_event) && time <= limit {
                Some(time)
            } else {
                None
            }
        },
        None => None,
    }
}

/// One more command counts if it stops the voice.
pub proof fn lemma_stop_count_push(
    commands: Seq<VoiceCommand>,
    command: VoiceCommand,
    from: int,
    voice: VoiceId,
)
    requires
        0 <= from <= commands.len(),
    ensures
        stop_count(commands.push(command), from, voice) == stop_count(commands, from, voice)
            + if command.stops(voice) {
            1nat
        } else {
            0nat
        },
{
    assert(commands.push(command).drop_last() =~= commands);
    assert(commands.push(command).last() == command);
}

/// A stop that is scheduled counts for the voice whose stop it moves, and
/// for no other.
pub proof fn lemma_schedule_stop_counts(
    state: PlayerModel,
    p: int,
    v: int,
    voice: VoiceId,
    q: int,
    w: int,
    time: SampleTime,
    from: int,
)
    requires
        plays_alone(state.slots, p, v, voice),
        0 <= q < state.slots.len(),
        0 <= from <= state.commands.len(),
    ensures
        ({
            let after = state.schedule_stop(q, w, time);
            let moved = q == p && w == v && state.slots[p][v]->0.sounds_after(time);
            &&& plays_alone(after.slots, p, v, voice)
            &&& after.new_note_action == state.new_note_action
            &&& state.commands.is_prefix_of(after.commands)
            &&& after.slots[p][v]->0.stop_time == (if moved {
                Some(time)
            } else {
                state.slots[p][v]->0.stop_time
            })
            &&& stop_count(after.commands, from, voice) == stop_count(state.commands, from, voice)
                + if moved {
                1nat
            } else {
                0nat
            }
            &&& moved ==> is_stopped_at(after.commands, from, voice, time)
            &&& forall|t: SampleTime|
                is_stopped_at(state.commands, from, voice, t) ==> is_stopped_at(
                    after.commands,
                    from,
                    voice,
                    t,
                )
        }),
{
    let after = state.schedule_stop(q, w, time);
    let entry = table_get(state.slots[q], w);
    if entry is Some && entry->0.sounds_after(time) {
        let note = entry->0;
        let command = VoiceCommand::Stop { voice: note.voice, time: Some(time) };
        assert(after.commands == state.commands.push(command));
        lemma_stop_count_push(state.commands, command, from, voice);
        assert(state.slots[q][w] == Some(note));
        if q == p && w == v {
            assert(command.stops(voice));
            assert(after.commands[state.commands.len() as int] == command);
        } else {
            assert(note.voice != voice);
        }
        assert forall|a: int, b: int|
            0 <= a < after.slots.len() && 0 <= b < after.slots[a].len() && (a != p || b
                != v) implies ((#[trigger] after.slots[a][b]) matches Some(n) ==> n.voice
            != voice) by {
            if a == q && b == w {
            } else {
                assert(after.slots[a][b] == state.slots[a][b]);
            }
        }
        assert forall|t: SampleTime|
            is_stopped_at(state.commands, from, voice, t) implies is_stopped_at(
            after.commands,
            from,
            voice,
            t,
        ) by {
            let k = choose|k: int|
                from <= k < state.commands.len() && #[trigger] state.commands[k] == (
                VoiceCommand::Stop { voice, time: Some(t) });
            assert(after.commands[k] == state.commands[k]);
        }
    }
}

/// The stops of the first `count` voices of a note vector count for a voice
/// only where the vector holds a stop for it that moves the stop of its
/// note.
pub proof fn lemma_note_offs_count(
    state: PlayerModel,
    p: int,
    v: int,
    voice: VoiceId,
    q: int,
    notes: Seq<Option<NoteEvent>>,
    count: int,
    event_time: SampleTime,
    duration: SampleTime,
    time_offset: SampleTime,
    limit: SampleTime,
    from: int,
)
    requires
        plays_alone(state.slots, p, v, voice),
        0 <= q < state.slots.len(),
        0 <= count <= notes.len(),
        0 <= from <= state.commands.len(),
    ensures
        ({
            let after = state.handle_note_offs(
                q,
                notes,
                count,
                event_time,
                duration,
                time_offset,
                limit,
            );
            let found = if q == p && v < count {
                found_stop(state, notes[v], event_time, duration, time_offset, limit)
            } else {
                None
            };
            let moved = found is Some && state.slots[p][v]->0.sounds_after(found->0);
            &&& plays_alone(after.slots, p, v, voice)
            &&& after.slots.len() == state.slots.len()
            &&& after.new_note_action == state.new_note_action
            &&& state.commands.is_prefix_of(after.commands)
            &&& after.slots[p][v]->0.stop_time == (if moved {
                found
            } else {
                state.slots[p][v]->0.stop_time
            })
            &&& stop_count(after.commands, from, voice) == stop_count(state.commands, from, voice)
                + if moved {
                1nat
            } else {
                0nat
            }
            &&& moved ==> is_stopped_at(after.commands, from, voice, found->0)
            &&& forall|t: SampleTime|
                is_stopped_at(state.commands, from, voice, t) ==> is_stopped_at(
                    after.commands,
                    from,
                    voice,
                    t,
                )
        }),
    decreases count,
{
    if count > 0 {
        lemma_note_offs_count(
            state,
            p,
            v,
            voice,
            q,
            notes,
            count - 1,
            event_time,
            duration,
            time_offset,
            limit,
            from,
        );
        let before = state.handle_note_offs(
            q,
            notes,
            count - 1,
            event_time,
            duration,
            time_offset,
            limit,
        );
        let found = found_stop(before, notes[count - 1], event_time, duration, time_offset, limit);
        assert(found == found_stop(
            state,
            notes[count - 1],
            event_time,
            duration,
            time_offset,
            limit,
        ));
        if found is Some {
            lemma_schedule_stop_counts(before, p, v, voice, q, count - 1, found->0, from);
        }
    }
}

/// A note of an event is due within the event: no earlier than the event
/// begins, and no later than it ends.
pub proof fn lemma_note_event_time_bounds(
    time: SampleTime,
    duration: SampleTime,
    delay: u64,
    time_offset: SampleTime,
)
    ensures
        saturated(time_offset + time) <= spec_note_event_time(time, duration, delay, time_offset),
        spec_note_event_time(time, duration, delay, time_offset) <= saturated(
            time_offset + time + duration,
        ),
{
    let share = spec_clamp(delay as int, 0, MICRO as int);
    let part = (share * duration) / (MICRO as int);
    assert(0 <= part <= duration) by (nonlinear_arith)
        requires
            0 <= share <= 1_000_000,
            0 <= duration,
            part == (share * duration) / 1_000_000,
    ;
}

/// Looking through events that follow each other stops a note that had no
/// stop scheduled once at most: after the first stop that is found for it,
/// no stop of a later event is earlier.
pub proof fn lemma_events_note_offs_count(
    state: PlayerModel,
    p: int,
    v: int,
    voice: VoiceId,
    events: Seq<(usize, PatternEventView)>,
    count: int,
    time_offset: SampleTime,
    limit: SampleTime,
)
    requires
        plays_alone(state.slots, p, v, voice),
        state.slots[p][v]->0.stop_time is None,
        in_order(events),
        0 <= count <= events.len(),
    ensures
        ({
            let after = state.handle_pattern_events_note_offs(events, count, time_offset, limit);
            let from = state.commands.len() as int;
            &&& plays_alone(after.slots, p, v, voice)
            &&& after.slots.len() == state.slots.len()
            &&& after.new_note_action == state.new_note_action
            &&& state.commands.is_prefix_of(after.commands)
            &&& match after.slots[p][v]->0.stop_time {
                None => stop_count(after.commands, from, voice) == 0,
                Some(t) => {
                    &&& stop_count(after.commands, from, voice) == 1
                    &&& t <= limit
                    &&& is_stopped_at(after.commands, from, voice, t)
                    &&& forall|j: int|
                        count <= j < events.len() && (#[trigger] events[j]).0 == p ==> t
                            <= saturated(time_offset + events[j].1.time)
                },
            }
        }),
    decreases count,
{
    let from = state.commands.len() as int;
    if count > 0 {
        lemma_events_note_offs_count(state, p, v, voice, events, count - 1, time_offset, limit);
        let before = state.handle_pattern_events_note_offs(
            events,
            count - 1,
            time_offset,
            limit,
        );
        let after = state.handle_pattern_events_note_offs(events, count, time_offset, limit);
        let event = events[count - 1].1;
        let q = events[count - 1].0 as int;
        if q < before.slots.len() {
            lemma_note_offs_count(
                before,
                p,
                v,
                voice,
                q,
                event.notes(),
                event.notes().len() as int,
                event.time,
                event.duration,
                time_offset,
                limit,
                from,
            );
            let found = if q == p && v < event.notes().len() {
                found_stop(
                    before,
                    event.notes()[v],
                    event.time,
                    event.duration,
                    time_offset,
                    limit,
                )
            } else {
                None
            };
            if found is Some {
                let delay = event.notes()[v]->0.delay;
                lemma_note_event_time_bounds(event.time, event.duration, delay, time_offset);
                assert(found->0 == spec_note_event_time(
                    event.time,
                    event.duration,
                    delay,
                    time_offset,
                ));
                match before.slots[p][v]->0.stop_time {
                    None => {
                        assert forall|j: int|
                            count <= j < events.len() && (#[trigger] events[j]).0
                                == p implies found->0 <= saturated(
                            time_offset + events[j].1.time,
                        ) by {
                            assert(events[count - 1].0 == events[j].0);
                            assert(event.time + event.duration <= events[j].1.time);
                        }
                    },
                    Some(t) => {
                        assert(events[count - 1].0 == p);
                        assert(t <= saturated(time_offset + event.time));
                    },
                }
            }
        }
    } else {
        assert(stop_count(state.commands, from, voice) == 0);
    }
}

/// The notes of two lists that a voice plays are those of the one and those
/// of the other.
pub proof fn lemma_voice_count_add(a: Seq<PlayingNote>, b: Seq<PlayingNote>, voice: VoiceId)
    ensures
        voice_count(a + b, voice) == voice_count(a, voice) + voice_count(b, voice),
    decreases b.len(),
{
    if b.len() == 0 {
        assert(a + b =~= a);
    } else {
        lemma_voice_count_add(a, b.drop_last(), voice);
        assert((a + b).drop_last() =~= a + b.drop_last());
        assert((a + b).last() == b.last());
    }
}

/// The commands that stop the notes of a list count once for each note that
/// the voice plays.
pub proof fn lemma_stops_at_count(
    commands: Seq<VoiceCommand>,
    notes: Seq<PlayingNote>,
    time: SampleTime,
    from: int,
    voice: VoiceId,
)
    requires
        0 <= from <= commands.len(),
    ensures
        stop_count(commands + stops_at(notes, time), from, voice) == stop_count(
            commands,
            from,
            voice,
        ) + voice_count(notes, voice),
        voice_count(notes, voice) > 0 ==> is_stopped_at(
            commands + stops_at(notes, time),
            from,
            voice,
            time,
        ),
        forall|t: SampleTime|
            is_stopped_at(commands, from, voice, t) ==> is_stopped_at(
                commands + stops_at(notes, time),
                from,
                voice,
                t,
            ),
    decreases notes.len(),
{
    let all = commands + stops_at(notes, time);
    if notes.len() == 0 {
        assert(all =~= commands);
    } else {
        let front = notes.drop_last();
        let shorter = commands + stops_at(front, time);
        let command = VoiceCommand::Stop { voice: notes.last().voice, time: Some(time) };
        lemma_stops_at_count(commands, front, time, from, voice);
        assert(all =~= shorter.push(command));
        lemma_stop_count_push(shorter, command, from, voice);
        if voice_count(notes, voice) > 0 {
            if notes.last().voice == voice {
                assert(all[shorter.len() as int] == command);
            } else {
                let k = choose|k: int|
                    from <= k < shorter.len() && #[trigger] shorter[k] == (VoiceCommand::Stop {
                        voice,
                        time: Some(time),
                    });
                assert(all[k] == shorter[k]);
            }
        }
    }
    assert forall|t: SampleTime| is_stopped_at(commands, from, voice, t) implies is_stopped_at(
        all,
        from,
        voice,
        t,
    ) by {
        let k = choose|k: int|
            from <= k < commands.len() && #[trigger] commands[k] == (VoiceCommand::Stop {
                voice,
                time: Some(t),
            });
        assert(all[k] == commands[k]);
    }
}

/// Of the notes of a table that have no stop scheduled, the voice plays the
/// one in the voice `v`, if that has none, and no other: no other note of
/// the table is played by it.
pub proof fn lemma_pending_notes_count(table: VoiceTable, count: int, v: int, voice: VoiceId)
    requires
        0 <= count <= table.len(),
        forall|w: int|
            0 <= w < table.len() && w != v ==> ((#[trigger] table[w]) matches Some(note)
                ==> note.voice != voice),
    ensures
        voice_count(pending_notes(table, count), voice) == (if 0 <= v < count && table[v] is Some
            && table[v]->0.voice == voice && table[v]->0.stop_time is None {
            1nat
        } else {
            0nat
        }),
    decreases count,
{
    if count > 0 {
        lemma_pending_notes_count(table, count - 1, v, voice);
        let before = pending_notes(table, count - 1);
        let entry = table_get(table, count - 1);
        assert(entry == table[count - 1]);
        if entry is Some && entry->0.stop_time is None {
            assert(pending_notes(table, count) == before.push(entry->0));
            assert(before.push(entry->0).drop_last() =~= before);
            assert(before.push(entry->0).last() == entry->0);
        } else {
            assert(pending_notes(table, count) == before);
        }
    }
}

/// Of the notes of the tables that have no stop scheduled, the voice plays
/// its own, if that has none, and no other.
pub proof fn lemma_pending_in_slots_count(
    slots: Seq<VoiceTable>,
    count: int,
    p: int,
    v: int,
    voice: VoiceId,
)
    requires
        plays_alone(slots, p, v, voice),
        0 <= count <= slots.len(),
    ensures
        voice_count(pending_in_slots(slots, count), voice) == (if p < count
            && slots[p][v]->0.stop_time is None {
            1nat
        } else {
            0nat
        }),
    decreases count,
{
    if count > 0 {
        lemma_pending_in_slots_count(slots, count - 1, p, v, voice);
        let table = slots[count - 1];
        let own = if count - 1 == p {
            v
        } else {
            -1
        };
        assert forall|w: int| 0 <= w < table.len() && w != own implies ((
        #[trigger] table[w]) matches Some(note) ==> note.voice != voice) by {
            assert(table[w] == slots[count - 1][w]);
        }
        lemma_pending_notes_count(table, table.len() as int, own, voice);
        lemma_voice_count_add(
            pending_in_slots(slots, count - 1),
            pending_notes(table, table.len() as int),
            voice,
        );
    }
}

/// When a sequence takes over from one whose events follow each other, a
/// note that plays alone in its voice and has no stop scheduled is stopped by
/// exactly one command: at the time of the first stop that the replaced
/// sequence holds for it up to the horizon, or else at the horizon. The note
/// is tracked with the time of that stop.
pub proof fn lemma_takeover_stops_a_note_once(
    state: PlayerModel,
    p: int,
    v: int,
    voice: VoiceId,
    events: Seq<(usize, PatternEventView)>,
    time_offset: SampleTime,
    horizon: SampleTime,
)
    requires
        plays_alone(state.slots, p, v, voice),
        state.slots[p][v]->0.stop_time is None,
        in_order(events),
    ensures
        ({
            let after = state.handle_pattern_events_note_offs(
                events,
                events.len() as int,
                time_offset,
                horizon,
            ).stop_pending(horizon);
            let from = state.commands.len() as int;
            &&& stop_count(after.commands, from, voice) == 1
            &&& plays_alone(after.slots, p, v, voice)
            &&& after.slots[p][v]->0.stop_time is Some
            &&& after.slots[p][v]->0.stop_time->0 <= horizon
            &&& is_stopped_at(after.commands, from, voice, after.slots[p][v]->0.stop_time->0)
        }),
{
    let from = state.commands.len() as int;
    let looked = state.handle_pattern_events_note_offs(
        events,
        events.len() as int,
        time_offset,
        horizon,
    );
    let after = looked.stop_pending(horizon);
    let pending = pending_in_slots(looked.slots, looked.slots.len() as int);
    lemma_events_note_offs_count(
        state,
        p,
        v,
        voice,
        events,
        events.len() as int,
        time_offset,
        horizon,
    );
    lemma_stop_pending_commands(looked, looked.slots.len() as int, horizon);
    lemma_stop_pending(looked, looked.slots.len() as int, horizon);
    lemma_stops_at_count(looked.commands, pending, horizon, from, voice);
    lemma_pending_in_slots_count(looked.slots, looked.slots.len() as int, p, v, voice);
    assert(after.slots[p] == stop_pending_table(looked.slots[p], horizon));
    assert forall|q: int, w: int|
        0 <= q < after.slots.len() && 0 <= w < after.slots[q].len() && (q != p || w
            != v) implies ((#[trigger] after.slots[q][w]) matches Some(note) ==> note.voice
        != voice) by {
        assert(after.slots[q] == stop_pending_table(looked.slots[q], horizon));
        assert(looked.slots[q][w] matches Some(note) ==> note.voice != voice);
    }
}

/// The first steps of a run are a run.
pub proof fn lemma_run_of_shorter(
    sequence: SequenceModel,
    errors: Seq<(Seq<char>, Seq<char>)>,
    time: SampleTime,
    steps: Seq<RunStep>,
    count: int,
    shorter: int,
)
    requires
        sequence.is_run_of(errors, time, steps, count),
        0 <= shorter <= count,
    ensures
        sequence.is_run_of(errors, time, steps, shorter),
    decreases count,
{
    if shorter < count {
        lemma_run_of_shorter(sequence, errors, time, steps, count - 1, shorter);
    }
}

/// In a run of a sequence the pattern of a slot is, after any later step,
/// no earlier than the end of an event that it gave: its next pulse is due
/// when that event has ended, or later.
pub proof fn lemma_run_keeps_time(
    sequence: SequenceModel,
    errors: Seq<(Seq<char>, Seq<char>)>,
    time: SampleTime,
    steps: Seq<RunStep>,
    count: int,
    i: int,
)
    requires
        sequence.is_run_of(errors, time, steps, count),
        0 <= i < count <= steps.len(),
    ensures
        sequence.before_step(steps, count).slots.len() == sequence.slots.len(),
        sequence.before_step(steps, i).slots.len() == sequence.slots.len(),
        0 <= steps[i].index < sequence.slots.len(),
        steps[i].event.time == sequence.before_step(steps, i).slots[steps[i].index].next_time(),
        steps[i].event.time + steps[i].event.duration <= sequence.before_step(
            steps,
            count,
        ).slots[steps[i].index].next_time(),
    decreases count,
{
    lemma_run_lengths(sequence, errors, time, steps, count);
    lemma_run_of_shorter(sequence, errors, time, steps, count, i);
    lemma_run_lengths(sequence, errors, time, steps, i);
    lemma_run_of_shorter(sequence, errors, time, steps, count, i + 1);
    if count > i + 1 {
        lemma_run_keeps_time(sequence, errors, time, steps, count - 1, i);
        let before = sequence.before_step(steps, count - 1);
        let step = steps[count - 1];
        assert(before.is_run(time, step.result, step.after, step.index, step.event));
        if step.index != steps[i].index {
            assert(step.after.slots[steps[i].index] == before.slots[steps[i].index]);
        }
    } else {
        let before = sequence.before_step(steps, i);
        let step = steps[i];
        assert(before.is_run(time, step.result, step.after, step.index, step.event));
    }
}

/// A run leaves the count of the slots as it is.
pub proof fn lemma_run_lengths(
    sequence: SequenceModel,
    errors: Seq<(Seq<char>, Seq<char>)>,
    time: SampleTime,
    steps: Seq<RunStep>,
    count: int,
)
    requires
        sequence.is_run_of(errors, time, steps, count),
        0 <= count <= steps.len(),
    ensures
        sequence.before_step(steps, count).slots.len() == sequence.slots.len(),
    decreases count,
{
    if count > 0 {
        lemma_run_lengths(sequence, errors, time, steps, count - 1);
        let before = sequence.before_step(steps, count - 1);
        let step = steps[count - 1];
        assert(before.is_run(time, step.result, step.after, step.index, step.event));
    }
}

/// The events of a run of a sequence follow each other in each slot: none
/// begins before the one before it has ended.
pub proof fn lemma_run_events_in_order(
    sequence: SequenceModel,
    errors: Seq<(Seq<char>, Seq<char>)>,
    time: SampleTime,
    steps: Seq<RunStep>,
)
    requires
        sequence.is_run_of(errors, time, steps, steps.len() as int),
        sequence.slots.len() <= usize::MAX,
    ensures
        in_order(step_events(steps)),
{
    let events = step_events(steps);
    assert forall|i: int, j: int|
        0 <= i < j < events.len() && (#[trigger] events[i]).0 == (
        #[trigger] events[j]).0 implies events[i].1.time + events[i].1.duration
        <= events[j].1.time by {
        lemma_run_of_shorter(sequence, errors, time, steps, steps.len() as int, j + 1);
        lemma_run_keeps_time(sequence, errors, time, steps, j + 1, j);
        lemma_run_of_shorter(sequence, errors, time, steps, steps.len() as int, j);
        lemma_run_keeps_time(sequence, errors, time, steps, j, i);
        assert(0 <= steps[i].index < sequence.slots.len());
        assert(0 <= steps[j].index < sequence.slots.len());
        assert(events[i].0 == steps[i].index as usize);
        assert(events[j].0 == steps[j].index as usize);
        assert(steps[i].index == steps[j].index);
    }
}

/// The time by which every note is stopped when a sequence takes over at
/// `time`: the end of one more cycle of the replaced sequence, if that is at
/// hand, else `time` itself, as the backend counts.
pub open spec fn takeover_horizon(
    previous: Option<(SequenceModel, SequenceModel)>,
    time_offset: SampleTime,
    time: SampleTime,
) -> SampleTime {
    match previous {
        Some((before, _)) => saturated(
            time_offset + time + before.max_cycle_length(MIN_LOOKUP_STEPS),
        ),
        None => saturated(time_offset + time),
    }
}

/// When a sequence takes over while a note plays that has no stop scheduled
/// and that no other note shares its voice with, exactly one command stops
/// the voice of that note. It does so no later than the horizon, and where
/// the note is still tracked it is tracked with the time of that stop. All
/// the commands that are issued are stops, none of them later than the
/// horizon: no note is started.
pub proof fn lemma_prepared_stops_a_note_once(
    state: PlayerModel,
    previous: Option<(SequenceModel, SequenceModel)>,
    sequence: SequenceModel,
    errors: Seq<(Seq<char>, Seq<char>)>,
    time_offset: SampleTime,
    time: SampleTime,
    handover: Handover,
    after: PlayerModel,
    sequence_after: SequenceModel,
    errors_after: Seq<(Seq<char>, Seq<char>)>,
    p: int,
    v: int,
    voice: VoiceId,
)
    requires
        state.is_prepared(
            previous,
            sequence,
            errors,
            time_offset,
            time,
            handover,
            after,
            sequence_after,
            errors_after,
        ),
        previous matches Some((before, _)) ==> before.slots.len() <= usize::MAX,
        plays_alone(state.slots, p, v, voice),
        state.slots[p][v]->0.stop_time is None,
    ensures
        ({
            let from = state.commands.len() as int;
            let horizon = takeover_horizon(previous, time_offset, time);
            &&& state.commands.is_prefix_of(after.commands)
            &&& stops_by(after.commands, from, horizon)
            &&& stop_count(after.commands, from, voice) == 1
            &&& exists|t: SampleTime|
                t <= horizon && #[trigger] is_stopped_at(after.commands, from, voice, t) && (p
                    < sequence.slots.len() ==> after.slots[p][v] == Some(
                    PlayingNote { stop_time: Some(t), ..state.slots[p][v]->0 },
                ))
        }),
{
    let from = state.commands.len() as int;
    let horizon = takeover_horizon(previous, time_offset, time);
    assert(state.slots[p][v] is Some);
    let events = match previous {
        Some(_) => step_events(handover.steps),
        None => Seq::empty(),
    };
    match previous {
        Some((before, left)) => {
            let lookup = saturated(time + before.max_cycle_length(MIN_LOOKUP_STEPS));
            assert(crate::voice::any_playing(state.slots));
            assert(state.is_taken_over(
                before,
                errors,
                handover.steps,
                left,
                time_offset,
                lookup,
                horizon,
                sequence.slots.len(),
                after,
            ));
            lemma_run_events_in_order(before, errors, lookup, handover.steps);
        },
        None => {},
    }
    let looked = state.handle_pattern_events_note_offs(
        events,
        events.len() as int,
        time_offset,
        horizon,
    );
    let mid = looked.stop_pending(horizon);
    assert(after == mid.resized(sequence.slots.len()));
    lemma_takeover_stops_a_note_once(state, p, v, voice, events, time_offset, horizon);
    lemma_takeover_ends_every_note(state, events, time_offset, horizon);
    let t = mid.slots[p][v]->0.stop_time->0;
    assert(is_stopped_at(after.commands, from, voice, t));
    assert(mid.slots[p][v]->0.note == state.slots[p][v]->0.note);
    if p < sequence.slots.len() {
        assert(after.slots[p] == mid.slots[p]);
    }
}

} // verus!
