//! The scheduler as a state machine: the state of a player, and what each
//! event makes of it.

use vstd::prelude::*;
use crate::event::{InstrumentId, NoteEvent, PatternEventView};
use crate::note::Note;
use crate::pattern::SeekStep;
use crate::sequence::{run_errors, step_events, RunStep, SequenceModel};
use crate::time::{saturated, BeatTimeBase, SampleTime};
use crate::voice::{
    all_stops_scheduled, any_playing, expire_table, pending_in_slots, pending_notes, spec_glide_rate,
    spec_last_start, starts_patched, stop_pending_note, spec_next_voice_id,
    spec_note_event_time, stops_by, table_restored, UnconfirmedStart,
    spec_voice_panning, stop_commands, stop_pending_table, stops_at, table_get, table_set,
    NewNoteAction, PlayingNote, SamplePlaybackContext, VoiceCommand, VoiceGlide, VoiceId,
    VoiceStart, VoiceTable,
};

verus! {

/// Longest time, in microseconds, that a run sleeps before it looks again
/// whether it should stop.
pub const MAX_SLEEP_TIME: u64 = 100_000;

/// Fewest steps of a pattern that are run through to find the stops of the
/// notes that play when a sequence is replaced.
pub const MIN_LOOKUP_STEPS: usize = 4;

/// What a run does next.
#[derive(Copy, Clone, Debug, PartialEq, Eq, Structural)]
pub enum RunAction {
    /// Emit the events of the given count of sample frames.
    Emit(SampleTime),
    /// Sleep for the given count of microseconds.
    Sleep(u64),
}

/// What the sequences did when one took over from another.
pub struct Handover {
    /// The steps of the run of the replaced sequence.
    pub steps: Seq<RunStep>,
    /// The seeks of the patterns of the new sequence.
    pub seeks: Seq<Seq<SeekStep>>,
}

/// The state of a player.
pub struct PlayerModel {
    /// Sample rate of the backend.
    pub sample_rate: u32,
    /// The notes that play, by pattern slot and voice.
    pub slots: Seq<VoiceTable>,
    /// The commands that the backend has not taken yet, oldest first.
    pub commands: Seq<VoiceCommand>,
    /// The handle that the next started voice gets.
    pub next_voice: u64,
    /// The starts that the backend has neither confirmed nor refused yet,
    /// oldest first.
    pub unconfirmed: Seq<UnconfirmedStart>,
    pub new_note_action: NewNoteAction,
    pub sample_root_note: Note,
    pub playback_pos_emit_rate: u64,
    pub show_events: bool,
    /// Look-ahead in microseconds.
    pub preload: u64,
    /// Position of the backend at which the run started.
    pub playback_sample_time: SampleTime,
    /// Sample frames that the run has emitted events for.
    pub emitted_sample_time: SampleTime,
}

impl PlayerModel {
    /// The state with one more command for the backend.
    pub open spec fn issue(self, command: VoiceCommand) -> PlayerModel {
        PlayerModel { commands: self.commands.push(command), ..self }
    }

    /// The state with the voices of one pattern slot replaced.
    pub open spec fn with_slot(self, pattern_index: int, table: VoiceTable) -> PlayerModel {
        PlayerModel { slots: self.slots.update(pattern_index, table), ..self }
    }

    /// True when the note event ends what plays in its voice: a note-off, or
    /// a new note that does not glide while new notes replace old ones.
    pub open spec fn wants_stop(self, note_event: NoteEvent) -> bool {
        note_event.note.is_note_off() || (note_event.note.is_note_on() && note_event.glide is None
            && self.new_note_action != NewNoteAction::Continue)
    }

    /// Schedules a stop at `time` for the note in the given voice, unless none
    /// plays there or an earlier or equal stop is scheduled already.
    pub open spec fn schedule_stop(self, pattern_index: int, voice_index: int, time: SampleTime)
        -> PlayerModel {
        match table_get(self.slots[pattern_index], voice_index) {
            Some(note) => if note.sounds_after(time) {
                self.with_slot(
                    pattern_index,
                    self.slots[pattern_index].update(
                        voice_index,
                        Some(PlayingNote { stop_time: Some(time), ..note }),
                    ),
                ).issue(VoiceCommand::Stop { voice: note.voice, time: Some(time) })
            } else {
                self
            },
            None => self,
        }
    }

    /// True when a gliding note event finds a note to glide from: one that
    /// plays in its voice and is not stopped at `time` or before.
    pub open spec fn can_glide(self, pattern_index: int, voice_index: int, time: SampleTime)
        -> bool {
        table_get(self.slots[pattern_index], voice_index) matches Some(note) && note.sounds_after(
            time,
        )
    }

    /// The command that glides the note in the given voice to a note event.
    pub open spec fn glide_command(
        self,
        pattern_index: int,
        voice_index: int,
        note_event: NoteEvent,
        duration: SampleTime,
        time: SampleTime,
    ) -> VoiceCommand {
        let playing = table_get(self.slots[pattern_index], voice_index).unwrap();
        VoiceCommand::Glide(
            VoiceGlide {
                voice: playing.voice,
                key: note_event.note.spec_transposed(self.sample_root_note) as u8,
                rate: spec_glide_rate(
                    match note_event.glide {
                        Some(glide) => glide,
                        None => 0,
                    },
                    note_event.note.spec_semitones(playing.note),
                    self.sample_rate,
                    duration,
                ),
                volume: note_event.volume,
                panning: spec_voice_panning(note_event),
                time,
            },
        )
    }

    /// The command that starts a new voice for a note event.
    pub open spec fn start_command(
        self,
        pattern_index: int,
        voice_index: int,
        note_event: NoteEvent,
        instrument: InstrumentId,
        time: SampleTime,
    ) -> VoiceCommand {
        VoiceCommand::Start(
            VoiceStart {
                voice: VoiceId(self.next_voice),
                context: SamplePlaybackContext {
                    pattern_index: Some(pattern_index as usize),
                    voice_index: Some(voice_index as usize),
                },
                instrument,
                key: note_event.note.spec_transposed(self.sample_root_note) as u8,
                volume: note_event.volume,
                panning: spec_voice_panning(note_event),
                fade_out: self.new_note_action.spec_fade_out(),
                playback_pos_emit_rate: self.playback_pos_emit_rate,
                time,
            },
        )
    }

    /// Starts a new voice for a note event and tracks it in place of what
    /// played in its voice before, which is remembered until the backend has
    /// confirmed or refused the start. Without a sample for the instrument,
    /// nothing happens.
    pub open spec fn start_note(
        self,
        pattern_index: int,
        voice_index: int,
        note_event: NoteEvent,
        instrument: InstrumentId,
        time: SampleTime,
        pool: Set<InstrumentId>,
    ) -> PlayerModel {
        if pool.contains(instrument) {
            PlayerModel {
                slots: self.slots.update(
                    pattern_index,
                    table_set(
                        self.slots[pattern_index],
                        voice_index,
                        Some(
                            PlayingNote {
                                voice: VoiceId(self.next_voice),
                                note: note_event.note,
                                stop_time: None,
                            },
                        ),
                    ),
                ),
                commands: self.commands.push(
                    self.start_command(pattern_index, voice_index, note_event, instrument, time),
                ),
                next_voice: spec_next_voice_id(self.next_voice),
                unconfirmed: self.unconfirmed.push(
                    UnconfirmedStart {
                        voice: VoiceId(self.next_voice),
                        pattern_index: pattern_index as usize,
                        voice_index: voice_index as usize,
                        replaced: table_get(self.slots[pattern_index], voice_index),
                        voices: self.slots[pattern_index].len() as usize,
                    },
                ),
                ..self
            }
        } else {
            self
        }
    }

    /// What one note event makes of the state: first the stop of what its
    /// voice plays, where the event wants one, then the glide or the new voice,
    /// where the event is a note with an instrument.
    pub open spec fn handle_note(
        self,
        pattern_index: int,
        voice_index: int,
        note_event: NoteEvent,
        event_time: SampleTime,
        duration: SampleTime,
        time_offset: SampleTime,
        pool: Set<InstrumentId>,
    ) -> PlayerModel {
        let time = spec_note_event_time(event_time, duration, note_event.delay, time_offset);
        let stopped = if self.wants_stop(note_event) {
            self.schedule_stop(pattern_index, voice_index, time)
        } else {
            self
        };
        if note_event.note.is_note_on() && note_event.instrument is Some {
            if note_event.glide is Some && stopped.can_glide(pattern_index, voice_index, time) {
                stopped.issue(
                    stopped.glide_command(pattern_index, voice_index, note_event, duration, time),
                )
            } else {
                stopped.start_note(
                    pattern_index,
                    voice_index,
                    note_event,
                    note_event.instrument.unwrap(),
                    time,
                    pool,
                )
            }
        } else {
            stopped
        }
    }

    /// What the first `count` voices of a note vector make of the state, in
    /// the order of the voices.
    pub open spec fn handle_notes(
        self,
        pattern_index: int,
        notes: Seq<Option<NoteEvent>>,
        count: int,
        event_time: SampleTime,
        duration: SampleTime,
        time_offset: SampleTime,
        pool: Set<InstrumentId>,
    ) -> PlayerModel
        decreases count,
    {
        if count <= 0 {
            self
        } else {
            let before = self.handle_notes(
                pattern_index,
                notes,
                count - 1,
                event_time,
                duration,
                time_offset,
                pool,
            );
            match notes[count - 1] {
                Some(note_event) => before.handle_note(
                    pattern_index,
                    count - 1,
                    note_event,
                    event_time,
                    duration,
                    time_offset,
                    pool,
                ),
                None => before,
            }
        }
    }

    /// The state without the notes of one pattern slot whose stop lies before
    /// `now`.
    pub open spec fn expire(self, pattern_index: int, now: SampleTime) -> PlayerModel {
        self.with_slot(pattern_index, expire_table(self.slots[pattern_index], now))
    }

    /// What one pattern event makes of the state: the notes of its slot that
    /// have stopped by now are forgotten, then each voice of the event is
    /// handled in turn.
    pub open spec fn handle_pattern_event(
        self,
        pattern_index: int,
        event: PatternEventView,
        time_offset: SampleTime,
        pool: Set<InstrumentId>,
    ) -> PlayerModel {
        self.expire(pattern_index, saturated(event.time + time_offset)).handle_notes(
            pattern_index,
            event.notes(),
            event.notes().len() as int,
            event.time,
            event.duration,
            time_offset,
            pool,
        )
    }

    /// What one note event makes of the state when only stops count, and of
    /// those only the ones that are due no later than `limit`.
    pub open spec fn handle_note_off(
        self,
        pattern_index: int,
        voice_index: int,
        note_event: NoteEvent,
        event_time: SampleTime,
        duration: SampleTime,
        time_offset: SampleTime,
        limit: SampleTime,
    ) -> PlayerModel {
        let time = spec_note_event_time(event_time, duration, note_event.delay, time_offset);
        if self.wants_stop(note_event) && time <= limit {
            self.schedule_stop(pattern_index, voice_index, time)
        } else {
            self
        }
    }

    /// What the first `count` voices of a note vector make of the state when
    /// only the stops count that are due no later than `limit`.
    pub open spec fn handle_note_offs(
        self,
        pattern_index: int,
        notes: Seq<Option<NoteEvent>>,
        count: int,
        event_time: SampleTime,
        duration: SampleTime,
        time_offset: SampleTime,
        limit: SampleTime,
    ) -> PlayerModel
        decreases count,
    {
        if count <= 0 {
            self
        } else {
            let before = self.handle_note_offs(
                pattern_index,
                notes,
                count - 1,
                event_time,
                duration,
                time_offset,
                limit,
            );
            match notes[count - 1] {
                Some(note_event) => before.handle_note_off(
                    pattern_index,
                    count - 1,
                    note_event,
                    event_time,
                    duration,
                    time_offset,
                    limit,
                ),
                None => before,
            }
        }
    }

    /// What one pattern event makes of the state when only the stops count
    /// that are due no later than `limit`.
    pub open spec fn handle_pattern_event_note_offs(
        self,
        time_offset: SampleTime,
        pattern_index: int,
        event: PatternEventView,
        limit: SampleTime,
    ) -> PlayerModel {
        self.handle_note_offs(
            pattern_index,
            event.notes(),
            event.notes().len() as int,
            event.time,
            event.duration,
            time_offset,
            limit,
        )
    }

    /// True when the note of the given start is the one that is tracked in
    /// its voice.
    pub open spec fn tracks_start(self, start: UnconfirmedStart) -> bool {
        &&& start.pattern_index < self.slots.len()
        &&& start.voice_index < self.slots[start.pattern_index as int].len()
        &&& self.slots[start.pattern_index as int][start.voice_index as int] is Some
        &&& self.slots[start.pattern_index as int][start.voice_index as int]->0.voice
            == start.voice
    }

    /// The state after the backend has refused the last start of the given
    /// voice that is not confirmed: the start is taken back. Where the note
    /// of the start is still tracked in its voice, the voice holds again what
    /// the start replaced. Where a later start has taken its place, that one
    /// has from now on replaced what the refused start replaced. No command is
    /// issued. Without such a start nothing changes.
    pub open spec fn start_taken_back(self, voice: VoiceId) -> PlayerModel {
        match spec_last_start(self.unconfirmed, voice) {
            Some(i) => {
                let start = self.unconfirmed[i];
                if self.tracks_start(start) {
                    PlayerModel {
                        slots: self.slots.update(
                            start.pattern_index as int,
                            table_restored(
                                self.slots[start.pattern_index as int],
                                start.voice_index as int,
                                start.replaced,
                                start.voices as int,
                            ),
                        ),
                        unconfirmed: self.unconfirmed.remove(i),
                        ..self
                    }
                } else {
                    PlayerModel {
                        unconfirmed: starts_patched(self.unconfirmed, i).remove(i),
                        ..self
                    }
                }
            },
            None => self,
        }
    }

    /// The state after the backend has confirmed the last start of the given
    /// voice that is not confirmed: what the start replaced is forgotten.
    pub open spec fn start_confirmed(self, voice: VoiceId) -> PlayerModel {
        match spec_last_start(self.unconfirmed, voice) {
            Some(i) => PlayerModel { unconfirmed: self.unconfirmed.remove(i), ..self },
            None => self,
        }
    }

    /// The state after every voice is stopped and forgotten.
    pub open spec fn stop_all_sources(self) -> PlayerModel {
        PlayerModel {
            slots: Seq::new(self.slots.len(), |p: int| Seq::empty()),
            commands: self.commands.push(VoiceCommand::StopAll),
            ..self
        }
    }

    /// What the first `count` of the given events, each with its pattern slot,
    /// make of the state, one after the other. An event of a slot that the
    /// player does not have is passed over.
    pub open spec fn handle_pattern_events(
        self,
        events: Seq<(usize, PatternEventView)>,
        count: int,
        time_offset: SampleTime,
        pool: Set<InstrumentId>,
    ) -> PlayerModel
        decreases count,
    {
        if count <= 0 {
            self
        } else {
            let before = self.handle_pattern_events(events, count - 1, time_offset, pool);
            if events[count - 1].0 < before.slots.len() {
                before.handle_pattern_event(
                    events[count - 1].0 as int,
                    events[count - 1].1,
                    time_offset,
                    pool,
                )
            } else {
                before
            }
        }
    }

    /// What the first `count` of the given events make of the state when only
    /// the stops count that are due no later than `limit`.
    pub open spec fn handle_pattern_events_note_offs(
        self,
        events: Seq<(usize, PatternEventView)>,
        count: int,
        time_offset: SampleTime,
        limit: SampleTime,
    ) -> PlayerModel
        decreases count,
    {
        if count <= 0 {
            self
        } else {
            let before = self.handle_pattern_events_note_offs(events, count - 1, time_offset, limit);
            if events[count - 1].0 < before.slots.len() {
                before.handle_pattern_event_note_offs(
                    time_offset,
                    events[count - 1].0 as int,
                    events[count - 1].1,
                    limit,
                )
            } else {
                before
            }
        }
    }

    /// The state after every note in the first `count` pattern slots that has
    /// no stop scheduled is stopped at `time`: one stop command for each such
    /// note, in the order of the slots and of their voices.
    pub open spec fn stop_pending_slots(self, count: int, time: SampleTime) -> PlayerModel
        decreases count,
    {
        if count <= 0 {
            self
        } else {
            let before = self.stop_pending_slots(count - 1, time);
            PlayerModel {
                slots: before.slots.update(
                    count - 1,
                    stop_pending_table(self.slots[count - 1], time),
                ),
                commands: before.commands + stops_at(
                    pending_notes(self.slots[count - 1], self.slots[count - 1].len() as int),
                    time,
                ),
                ..before
            }
        }
    }

    /// The state after every note that has no stop scheduled is stopped at
    /// `time`.
    pub open spec fn stop_pending(self, time: SampleTime) -> PlayerModel {
        self.stop_pending_slots(self.slots.len() as int, time)
    }

    /// True when `after` is what this state becomes when a replaced sequence
    /// is looked through for the stops of the notes that play: the given
    /// events, all of them before the time `lookup` of the sequence, have
    /// their stops handled, as far as they are due no later than the horizon;
    /// the notes that have no stop scheduled after that are stopped at the
    /// horizon; and the state has `count` pattern slots. No stop that is
    /// issued on the way is later than the horizon.
    pub open spec fn is_reconciled(
        self,
        events: Seq<(usize, PatternEventView)>,
        time_offset: SampleTime,
        lookup: SampleTime,
        horizon: SampleTime,
        count: nat,
        after: PlayerModel,
    ) -> bool {
        &&& forall|i: int| 0 <= i < events.len() ==> (#[trigger] events[i]).1.time < lookup
        &&& after == self.handle_pattern_events_note_offs(
            events,
            events.len() as int,
            time_offset,
            horizon,
        ).stop_pending(horizon).resized(count)
        &&& stops_by(after.commands, self.commands.len() as int, horizon)
    }

    /// True when `after` is what this state becomes when the sequence
    /// `previous` is replaced: `steps` are its run for every event before its
    /// time `lookup`, which leaves it `previous_after`, and the state is
    /// reconciled with the events of those steps, with no stop later than
    /// the horizon.
    pub open spec fn is_taken_over(
        self,
        previous: SequenceModel,
        errors: Seq<(Seq<char>, Seq<char>)>,
        steps: Seq<RunStep>,
        previous_after: SequenceModel,
        time_offset: SampleTime,
        lookup: SampleTime,
        horizon: SampleTime,
        count: nat,
        after: PlayerModel,
    ) -> bool {
        &&& previous.runs_to(errors, lookup, steps, previous_after, run_errors(errors, steps))
        &&& self.is_reconciled(step_events(steps), time_offset, lookup, horizon, count, after)
    }

    /// True when `after` is what this state becomes when `sequence` takes
    /// over at `time`, and `sequence_after` and `errors_after` what becomes of
    /// the sequence and of the errors. `previous` is the sequence that is
    /// replaced, if it is at hand, as it was and as it is left.
    ///
    /// While notes play, a replaced sequence is run for one more cycle, of at
    /// least [`MIN_LOOKUP_STEPS`] steps, after `time`, and the state is
    /// reconciled with its events: the horizon is the end of that cycle, as
    /// the backend counts. Without a replaced sequence the notes that have no
    /// stop scheduled are stopped at `time`. Then the new sequence seeks to
    /// `time`.
    pub open spec fn is_prepared(
        self,
        previous: Option<(SequenceModel, SequenceModel)>,
        sequence: SequenceModel,
        errors: Seq<(Seq<char>, Seq<char>)>,
        time_offset: SampleTime,
        time: SampleTime,
        handover: Handover,
        after: PlayerModel,
        sequence_after: SequenceModel,
        errors_after: Seq<(Seq<char>, Seq<char>)>,
    ) -> bool {
        &&& match previous {
            None => handover.steps.len() == 0 && after == self.stop_pending(
                saturated(time_offset + time),
            ).resized(sequence.slots.len()),
            Some((before, left)) => if any_playing(self.slots) {
                self.is_taken_over(
                    before,
                    errors,
                    handover.steps,
                    left,
                    time_offset,
                    saturated(time + before.max_cycle_length(MIN_LOOKUP_STEPS)),
                    saturated(time_offset + time + before.max_cycle_length(MIN_LOOKUP_STEPS)),
                    sequence.slots.len(),
                    after,
                )
            } else {
                handover.steps.len() == 0 && left == before && after == self.resized(
                    sequence.slots.len(),
                )
            },
        }
        &&& sequence.seeks_to(
            run_errors(errors, handover.steps),
            time,
            handover.seeks,
            sequence_after,
            errors_after,
        )
    }

    /// The state with `count` pattern slots: the first ones as they are, new
    /// ones without notes.
    pub open spec fn resized(self, count: nat) -> PlayerModel {
        PlayerModel {
            slots: Seq::new(
                count,
                |p: int|
                    if p < self.slots.len() {
                        self.slots[p]
                    } else {
                        Seq::empty()
                    },
            ),
            ..self
        }
    }

    /// The state at the start of a run: every voice is stopped and forgotten,
    /// there are `count` pattern slots, the run starts at the position of the
    /// backend and has emitted nothing.
    pub open spec fn reset_playback_position(self, count: nat, output_position: SampleTime)
        -> PlayerModel {
        PlayerModel {
            playback_sample_time: output_position,
            emitted_sample_time: 0,
            ..self.stop_all_sources().resized(count)
        }
    }

    /// The look-ahead in sample frames.
    pub open spec fn preload_samples(self, time_base: BeatTimeBase) -> SampleTime {
        saturated(time_base.spec_seconds_to_samples(self.preload))
    }

    /// The sample frames that a run at the given position of the backend is to
    /// emit events for: what the backend has played since the start of the
    /// run and twice the look-ahead, less what the run has emitted.
    pub open spec fn samples_to_emit(self, time_base: BeatTimeBase, output_position: SampleTime)
        -> int {
        let played = if output_position >= self.playback_sample_time {
            output_position - self.playback_sample_time
        } else {
            0
        };
        played + 2 * self.preload_samples(time_base) - self.emitted_sample_time
    }

    /// What a run does next at the given position of the backend: it emits,
    /// once there is at least a look-ahead to emit, or when it has emitted
    /// nothing yet; else it sleeps until there is, but no longer than
    /// [`MAX_SLEEP_TIME`].
    pub open spec fn next_run_action(self, time_base: BeatTimeBase, output_position: SampleTime)
        -> RunAction {
        let to_emit = self.samples_to_emit(time_base, output_position);
        if to_emit >= self.preload_samples(time_base) || self.emitted_sample_time == 0 {
            RunAction::Emit(saturated(to_emit))
        } else {
            let wait = saturated(
                time_base.spec_samples_to_seconds(
                    saturated(self.preload_samples(time_base) - to_emit),
                ),
            );
            RunAction::Sleep(
                if wait > MAX_SLEEP_TIME {
                    MAX_SLEEP_TIME
                } else {
                    wait
                },
            )
        }
    }

    /// The state after the voices of one pattern slot are stopped and
    /// forgotten.
    pub open spec fn stop_sources_in_pattern_slot(self, pattern_index: int) -> PlayerModel {
        PlayerModel {
            slots: self.slots.update(pattern_index, Seq::empty()),
            commands: self.commands + stop_commands(
                self.slots[pattern_index],
                self.slots[pattern_index].len() as int,
                None,
            ),
            ..self
        }
    }
}

impl PlayerModel {
    /// True when `after` differs from this state at most in the notes that
    /// play, the commands, which follow the ones that there were, the handle
    /// of the next voice and the starts that are not confirmed.
    pub open spec fn leads_to(self, after: PlayerModel) -> bool {
        &&& after == (PlayerModel {
            slots: after.slots,
            commands: after.commands,
            next_voice: after.next_voice,
            unconfirmed: after.unconfirmed,
            ..self
        })
        &&& after.slots.len() == self.slots.len()
        &&& self.commands.is_prefix_of(after.commands)
    }
}

/// Handling a note event changes nothing but the notes that play, the
/// commands and the handle of the next voice. It takes back no command.
pub proof fn lemma_handle_note_leads(
    state: PlayerModel,
    pattern_index: int,
    voice_index: int,
    note_event: NoteEvent,
    event_time: SampleTime,
    duration: SampleTime,
    time_offset: SampleTime,
    pool: Set<InstrumentId>,
    limit: SampleTime,
)
    requires
        0 <= pattern_index < state.slots.len(),
        0 <= voice_index,
    ensures
        state.leads_to(
            state.handle_note(
                pattern_index,
                voice_index,
                note_event,
                event_time,
                duration,
                time_offset,
                pool,
            ),
        ),
        state.leads_to(
            state.handle_note_off(
                pattern_index,
                voice_index,
                note_event,
                event_time,
                duration,
                time_offset,
                limit,
            ),
        ),
        state.handle_note_off(
            pattern_index,
            voice_index,
            note_event,
            event_time,
            duration,
            time_offset,
            limit,
        ).next_voice == state.next_voice,
        state.handle_note_off(
            pattern_index,
            voice_index,
            note_event,
            event_time,
            duration,
            time_offset,
            limit,
        ).unconfirmed == state.unconfirmed,
{
    let time = spec_note_event_time(event_time, duration, note_event.delay, time_offset);
    let stopped = state.schedule_stop(pattern_index, voice_index, time);
    assert(state.leads_to(stopped));
}

/// Handling the notes of an event changes nothing but the notes that play,
/// the commands and the handle of the next voice.
pub proof fn lemma_handle_notes_leads(
    state: PlayerModel,
    pattern_index: int,
    notes: Seq<Option<NoteEvent>>,
    count: int,
    event_time: SampleTime,
    duration: SampleTime,
    time_offset: SampleTime,
    pool: Set<InstrumentId>,
    limit: SampleTime,
)
    requires
        0 <= pattern_index < state.slots.len(),
        0 <= count <= notes.len(),
    ensures
        state.leads_to(
            state.handle_notes(
                pattern_index,
                notes,
                count,
                event_time,
                duration,
                time_offset,
                pool,
            ),
        ),
        state.leads_to(
            state.handle_note_offs(pattern_index, notes, count, event_time, duration, time_offset, limit),
        ),
        state.handle_note_offs(
            pattern_index,
            notes,
            count,
            event_time,
            duration,
            time_offset,
            limit,
        ).next_voice == state.next_voice,
        state.handle_note_offs(
            pattern_index,
            notes,
            count,
            event_time,
            duration,
            time_offset,
            limit,
        ).unconfirmed == state.unconfirmed,
    decreases count,
{
    if count > 0 {
        lemma_handle_notes_leads(
            state,
            pattern_index,
            notes,
            count - 1,
            event_time,
            duration,
            time_offset,
            pool,
            limit,
        );
        let before = state.handle_notes(
            pattern_index,
            notes,
            count - 1,
            event_time,
            duration,
            time_offset,
            pool,
        );
        let before_offs = state.handle_note_offs(
            pattern_index,
            notes,
            count - 1,
            event_time,
            duration,
            time_offset,
            limit,
        );
        match notes[count - 1] {
            Some(note_event) => {
                lemma_handle_note_leads(
                    before,
                    pattern_index,
                    count - 1,
                    note_event,
                    event_time,
                    duration,
                    time_offset,
                    pool,
                    limit,
                );
                lemma_handle_note_leads(
                    before_offs,
                    pattern_index,
                    count - 1,
                    note_event,
                    event_time,
                    duration,
                    time_offset,
                    pool,
                    limit,
                );
            },
            None => {},
        }
    }
}

/// Handling events changes nothing but the notes that play, the commands and
/// the handle of the next voice; handling their stops alone leaves the handle
/// as well.
pub proof fn lemma_events_lead(
    state: PlayerModel,
    events: Seq<(usize, PatternEventView)>,
    count: int,
    time_offset: SampleTime,
    pool: Set<InstrumentId>,
    limit: SampleTime,
)
    requires
        0 <= count <= events.len(),
    ensures
        state.leads_to(state.handle_pattern_events(events, count, time_offset, pool)),
        state.leads_to(state.handle_pattern_events_note_offs(events, count, time_offset, limit)),
        state.handle_pattern_events_note_offs(events, count, time_offset, limit).next_voice == state.next_voice,
        state.handle_pattern_events_note_offs(events, count, time_offset, limit).unconfirmed == state.unconfirmed,
    decreases count,
{
    if count > 0 {
        lemma_events_lead(state, events, count - 1, time_offset, pool, limit);
        let before = state.handle_pattern_events(events, count - 1, time_offset, pool);
        let before_offs = state.handle_pattern_events_note_offs(events, count - 1, time_offset, limit);
        let index = events[count - 1].0 as int;
        let event = events[count - 1].1;
        if index < before.slots.len() {
            let expired = before.expire(index, saturated(event.time + time_offset));
            lemma_handle_notes_leads(
                expired,
                index,
                event.notes(),
                event.notes().len() as int,
                event.time,
                event.duration,
                time_offset,
                pool,
                limit,
            );
        }
        if index < before_offs.slots.len() {
            lemma_handle_notes_leads(
                before_offs,
                index,
                event.notes(),
                event.notes().len() as int,
                event.time,
                event.duration,
                time_offset,
                pool,
                limit,
            );
        }
    }
}

/// Stopping the notes that have no stop scheduled changes no other part of
/// the state; afterwards every note of the first `count` slots has a stop
/// scheduled, no later than it was scheduled before, and the other slots are
/// as they were. A state in whose first `count` slots every note has a stop
/// scheduled stays as it is.
pub proof fn lemma_stop_pending(state: PlayerModel, count: int, time: SampleTime)
    requires
        0 <= count <= state.slots.len(),
    ensures
        ({
            let after = state.stop_pending_slots(count, time);
            &&& after == (PlayerModel { slots: after.slots, commands: after.commands, ..state })
            &&& after.slots.len() == state.slots.len()
            &&& forall|p: int|
                0 <= p < count ==> #[trigger] after.slots[p] == stop_pending_table(
                    state.slots[p],
                    time,
                )
            &&& forall|p: int| count <= p < state.slots.len() ==> after.slots[p] == state.slots[p]
            &&& state.commands.is_prefix_of(after.commands)
            &&& (forall|p: int, v: int|
                0 <= p < count && 0 <= v < state.slots[p].len() ==> ((
                #[trigger] state.slots[p][v]) matches Some(note) ==> note.stop_time is Some))
                ==> after == state
        }),
    decreases count,
{
    if count > 0 {
        lemma_stop_pending(state, count - 1, time);
        let before = state.stop_pending_slots(count - 1, time);
        let after = state.stop_pending_slots(count, time);
        let table = state.slots[count - 1];
        if forall|p: int, v: int|
            0 <= p < count && 0 <= v < state.slots[p].len() ==> ((
            #[trigger] state.slots[p][v]) matches Some(note) ==> note.stop_time is Some) {
            assert(before == state);
            lemma_no_pending_notes(table, table.len() as int);
            assert(stop_pending_table(table, time) =~= table) by {
                assert forall|v: int| 0 <= v < table.len() implies stop_pending_table(
                    table,
                    time,
                )[v] == table[v] by {
                    assert(state.slots[count - 1][v] == table[v]);
                }
            }
            assert(after.slots =~= state.slots);
            assert(after.commands =~= state.commands);
        }
    }
}

/// When a sequence is replaced, every note that has no stop scheduled gets
/// exactly one stop command, at the given time, and no other command is
/// issued; afterwards every note has a stop scheduled, and a stop that was
/// scheduled before is where it was.
pub proof fn lemma_swap_stops_each_pending_note_once(state: PlayerModel, time: SampleTime)
    ensures
        ({
            let after = state.stop_pending(time);
            let pending = pending_in_slots(state.slots, state.slots.len() as int);
            &&& after.commands == state.commands + stops_at(pending, time)
            &&& after.commands.len() == state.commands.len() + pending.len()
            &&& forall|k: int|
                0 <= k < pending.len() ==> #[trigger] after.commands[state.commands.len() + k]
                    == (VoiceCommand::Stop { voice: pending[k].voice, time: Some(time) })
            &&& all_stops_scheduled(after.slots)
            &&& forall|p: int, v: int|
                0 <= p < state.slots.len() && 0 <= v < state.slots[p].len() ==> (
                #[trigger] after.slots[p][v]) == stop_pending_note(state.slots[p][v], time)
        }),
{
    lemma_stop_pending_commands(state, state.slots.len() as int, time);
    lemma_stop_pending_schedules_all(state, time);
}

/// The commands of the stops of the notes in the first `count` slots that
/// have no stop scheduled: one for each of the notes, in their order.
pub proof fn lemma_stop_pending_commands(state: PlayerModel, count: int, time: SampleTime)
    requires
        0 <= count <= state.slots.len(),
    ensures
        state.stop_pending_slots(count, time).commands == state.commands + stops_at(
            pending_in_slots(state.slots, count),
            time,
        ),
    decreases count,
{
    if count > 0 {
        lemma_stop_pending_commands(state, count - 1, time);
        let before = pending_in_slots(state.slots, count - 1);
        let added = pending_notes(state.slots[count - 1], state.slots[count - 1].len() as int);
        assert(stops_at(before + added, time) =~= stops_at(before, time) + stops_at(added, time));
        assert(state.stop_pending_slots(count, time).commands =~= state.commands + stops_at(
            before + added,
            time,
        ));
    } else {
        assert(state.commands + stops_at(pending_in_slots(state.slots, count), time)
            =~= state.commands);
    }
}

/// Within one event, the stop of the note that plays in a voice comes before
/// the start of the note that takes its place, at the same time: a note event
/// that ends what plays and starts a voice issues the stop first, then the
/// start, and the new voice is tracked without a stop.
pub proof fn lemma_stop_precedes_start(
    state: PlayerModel,
    pattern_index: int,
    voice_index: int,
    note_event: NoteEvent,
    event_time: SampleTime,
    duration: SampleTime,
    time_offset: SampleTime,
    pool: Set<InstrumentId>,
)
    requires
        0 <= pattern_index < state.slots.len(),
        0 <= voice_index < state.slots[pattern_index].len(),
        note_event.note.is_note_on(),
        note_event.glide is None,
        state.new_note_action != NewNoteAction::Continue,
        note_event.instrument matches Some(instrument) && pool.contains(instrument),
        state.slots[pattern_index][voice_index] matches Some(playing) && playing.sounds_after(
            spec_note_event_time(event_time, duration, note_event.delay, time_offset),
        ),
    ensures
        ({
            let time = spec_note_event_time(event_time, duration, note_event.delay, time_offset);
            let after = state.handle_note(
                pattern_index,
                voice_index,
                note_event,
                event_time,
                duration,
                time_offset,
                pool,
            );
            &&& after.commands.len() == state.commands.len() + 2
            &&& after.commands[state.commands.len() as int] == (VoiceCommand::Stop {
                voice: state.slots[pattern_index][voice_index].unwrap().voice,
                time: Some(time),
            })
            &&& after.commands[state.commands.len() as int + 1].starts(VoiceId(state.next_voice))
            &&& after.slots[pattern_index][voice_index] == Some(
                PlayingNote { voice: VoiceId(state.next_voice), note: note_event.note, stop_time: None },
            )
        }),
{
}

/// Scheduling a stop never moves a stop to a later time: a note whose stop
/// is scheduled no later than the new one keeps it, and no command is issued
/// for it.
pub proof fn lemma_stop_is_never_moved_later(
    state: PlayerModel,
    pattern_index: int,
    voice_index: int,
    time: SampleTime,
)
    requires
        0 <= pattern_index < state.slots.len(),
        0 <= voice_index < state.slots[pattern_index].len(),
        state.slots[pattern_index][voice_index] is Some,
    ensures
        ({
            let before = state.slots[pattern_index][voice_index].unwrap();
            let after = state.schedule_stop(pattern_index, voice_index, time);
            let entry = after.slots[pattern_index][voice_index];
            &&& entry is Some
            &&& entry.unwrap().voice == before.voice
            &&& entry.unwrap().note == before.note
            &&& entry.unwrap().stop_time is Some
            &&& entry.unwrap().stop_time.unwrap() <= time
            &&& before.stop_time is Some ==> entry.unwrap().stop_time.unwrap()
                <= before.stop_time.unwrap()
            &&& (before.stop_time is Some && before.stop_time.unwrap() <= time) ==> after == state
            &&& after.schedule_stop(pattern_index, voice_index, time) == after
        }),
{
}

/// A table in which every note has a stop scheduled has no note to stop.
pub proof fn lemma_no_pending_notes(table: VoiceTable, count: int)
    requires
        0 <= count <= table.len(),
        forall|v: int|
            0 <= v < table.len() ==> ((#[trigger] table[v]) matches Some(note)
                ==> note.stop_time is Some),
    ensures
        pending_notes(table, count) == Seq::<PlayingNote>::empty(),
    decreases count,
{
    if count > 0 {
        lemma_no_pending_notes(table, count - 1);
        assert(table_get(table, count - 1) == table[count - 1]);
    }
}

/// After the notes that had no stop scheduled are stopped, every note has a
/// stop scheduled: for each note that had none there is one stop command, at
/// the given time.
pub proof fn lemma_stop_pending_schedules_all(state: PlayerModel, time: SampleTime)
    ensures
        all_stops_scheduled(state.stop_pending(time).slots),
        forall|p: int, v: int|
            0 <= p < state.slots.len() && 0 <= v < state.slots[p].len() ==> (
            #[trigger] state.stop_pending(time).slots[p][v]) == stop_pending_note(
                state.slots[p][v],
                time,
            ),
{
    lemma_stop_pending(state, state.slots.len() as int, time);
    let after = state.stop_pending(time);
    assert forall|p: int, v: int| 0 <= p < after.slots.len() && 0 <= v < after.slots[p].len()
        implies ((#[trigger] after.slots[p][v]) matches Some(note) ==> note.stop_time is Some) by {
        assert(after.slots[p] == stop_pending_table(state.slots[p], time));
    }
    assert forall|p: int, v: int| 0 <= p < state.slots.len() && 0 <= v < state.slots[p].len()
        implies (#[trigger] state.stop_pending(time).slots[p][v]) == stop_pending_note(
        state.slots[p][v],
        time,
    ) by {
        assert(after.slots[p] == stop_pending_table(state.slots[p], time));
    }
}

/// The last start of a list that ends with a start of the voice is that
/// one.
pub proof fn lemma_last_start_pushed(starts: Seq<UnconfirmedStart>, start: UnconfirmedStart)
    ensures
        spec_last_start(starts.push(start), start.voice) == Some(starts.len() as int),
        starts.push(start).remove(starts.len() as int) == starts,
{
    assert(starts.push(start).last() == start);
    assert(starts.push(start).remove(starts.len() as int) =~= starts);
}

/// A start that the backend refuses and that is taken back leaves no trace
/// but its command: whatever the state was, the tables and the starts that
/// are not confirmed are as they were before the start. A note that the
/// start replaced is tracked again.
pub proof fn lemma_failed_start_is_taken_back(
    state: PlayerModel,
    pattern_index: int,
    voice_index: int,
    note_event: NoteEvent,
    instrument: InstrumentId,
    time: SampleTime,
    pool: Set<InstrumentId>,
)
    requires
        0 <= pattern_index < state.slots.len() <= usize::MAX,
        0 <= voice_index < usize::MAX,
        state.slots[pattern_index].len() <= usize::MAX,
        pool.contains(instrument),
    ensures
        ({
            let started = state.start_note(
                pattern_index,
                voice_index,
                note_event,
                instrument,
                time,
                pool,
            );
            let after = started.start_taken_back(VoiceId(state.next_voice));
            &&& after.slots == state.slots
            &&& after.unconfirmed == state.unconfirmed
            &&& after.commands == started.commands
            &&& after == (PlayerModel { slots: state.slots, unconfirmed: state.unconfirmed, ..started })
        }),
{
    let voice = VoiceId(state.next_voice);
    let started = state.start_note(pattern_index, voice_index, note_event, instrument, time, pool);
    let after = started.start_taken_back(voice);
    let table = state.slots[pattern_index];
    let start = UnconfirmedStart {
        voice,
        pattern_index: pattern_index as usize,
        voice_index: voice_index as usize,
        replaced: table_get(table, voice_index),
        voices: table.len() as usize,
    };
    lemma_last_start_pushed(state.unconfirmed, start);
    assert(started.unconfirmed == state.unconfirmed.push(start));
    assert(started.unconfirmed[state.unconfirmed.len() as int] == start);
    let set = table_set(
        table,
        voice_index,
        Some(PlayingNote { voice, note: note_event.note, stop_time: None }),
    );
    assert(started.slots[pattern_index] == set);
    assert(set[voice_index] is Some && set[voice_index]->0.voice == voice);
    assert(started.tracks_start(start));
    let put = set.update(voice_index, start.replaced);
    let restored = table_restored(set, voice_index, start.replaced, table.len() as int);
    if voice_index < table.len() {
        assert(put =~= table);
        assert(restored =~= table);
    } else {
        assert forall|k: int| table.len() <= k < put.len() implies (#[trigger] put[k]) is None by {}
        assert(put.take(table.len() as int) =~= table);
        assert(restored =~= table);
    }
    assert(after.slots =~= state.slots);
}

/// Two starts in one voice that the backend refuses one after the other,
/// the earlier one first, leave no trace but their commands: the tables and
/// the starts that are not confirmed are as they were before the two.
pub proof fn lemma_failed_starts_are_taken_back(
    state: PlayerModel,
    pattern_index: int,
    voice_index: int,
    first: NoteEvent,
    second: NoteEvent,
    instrument: InstrumentId,
    time: SampleTime,
    pool: Set<InstrumentId>,
)
    requires
        0 <= pattern_index < state.slots.len() <= usize::MAX,
        0 <= voice_index < usize::MAX,
        state.slots[pattern_index].len() <= usize::MAX,
        pool.contains(instrument),
    ensures
        ({
            let started = state.start_note(
                pattern_index,
                voice_index,
                first,
                instrument,
                time,
                pool,
            );
            let again = started.start_note(
                pattern_index,
                voice_index,
                second,
                instrument,
                time,
                pool,
            );
            let after = again.start_taken_back(VoiceId(state.next_voice)).start_taken_back(
                VoiceId(started.next_voice),
            );
            &&& after.slots == state.slots
            &&& after.unconfirmed == state.unconfirmed
            &&& after.commands == again.commands
        }),
{
    let a = VoiceId(state.next_voice);
    let started = state.start_note(pattern_index, voice_index, first, instrument, time, pool);
    let b = VoiceId(started.next_voice);
    assert(a != b);
    let again = started.start_note(pattern_index, voice_index, second, instrument, time, pool);
    let table = state.slots[pattern_index];
    let note_a = PlayingNote { voice: a, note: first.note, stop_time: None };
    let note_b = PlayingNote { voice: b, note: second.note, stop_time: None };
    let set_a = table_set(table, voice_index, Some(note_a));
    let set_b = table_set(set_a, voice_index, Some(note_b));
    assert(started.slots[pattern_index] == set_a);
    assert(again.slots[pattern_index] == set_b);
    assert(set_a.len() <= usize::MAX);
    let start_a = UnconfirmedStart {
        voice: a,
        pattern_index: pattern_index as usize,
        voice_index: voice_index as usize,
        replaced: table_get(table, voice_index),
        voices: table.len() as usize,
    };
    let start_b = UnconfirmedStart {
        voice: b,
        pattern_index: pattern_index as usize,
        voice_index: voice_index as usize,
        replaced: Some(note_a),
        voices: set_a.len() as usize,
    };
    let starts = state.unconfirmed;
    assert(again.unconfirmed == starts.push(start_a).push(start_b));
    // the earlier start is found behind the later one
    lemma_last_start_pushed(starts, start_a);
    assert(again.unconfirmed.drop_last() =~= starts.push(start_a));
    assert(again.unconfirmed.last() == start_b);
    assert(spec_last_start(again.unconfirmed, a) == Some(starts.len() as int));
    assert(!again.tracks_start(start_a));
    let back = again.start_taken_back(a);
    let patched = UnconfirmedStart { replaced: start_a.replaced, voices: start_a.voices, ..start_b };
    assert(starts_patched(again.unconfirmed, starts.len() as int).remove(starts.len() as int)
        =~= starts.push(patched));
    assert(back.unconfirmed == starts.push(patched));
    assert(back.slots == again.slots);
    // the later start takes back what the earlier one replaced
    lemma_last_start_pushed(starts, patched);
    assert(back.tracks_start(patched));
    let after = back.start_taken_back(b);
    let put = set_b.update(voice_index, start_a.replaced);
    let restored = table_restored(set_b, voice_index, start_a.replaced, table.len() as int);
    if voice_index < table.len() {
        assert(restored =~= table);
    } else {
        assert forall|k: int| table.len() <= k < put.len() implies (#[trigger] put[k]) is None by {}
        assert(put.take(table.len() as int) =~= table);
        assert(restored =~= table);
    }
    assert(after.slots =~= state.slots);
}

/// Stopping every voice twice leaves the tables as stopping them once does:
/// without a note, whatever played before.
pub proof fn lemma_stop_all_sources_twice(state: PlayerModel)
    ensures
        state.stop_all_sources().stop_all_sources().slots == state.stop_all_sources().slots,
        !any_playing(state.stop_all_sources().slots),
        state.stop_all_sources().slots.len() == state.slots.len(),
{
    assert(state.stop_all_sources().stop_all_sources().slots =~= state.stop_all_sources().slots);
}

/// True when the entry `after` of a voice holds the note of the entry
/// `before`, in the same voice of the backend, with its stop where it was or
/// earlier; an entry without a note stays without one.
pub open spec fn keeps_note(before: Option<PlayingNote>, after: Option<PlayingNote>) -> bool {
    match before {
        Some(note) => {
            &&& after is Some
            &&& after->0.voice == note.voice
            &&& after->0.note == note.note
            &&& note.stop_time is Some ==> after->0.stop_time is Some && after->0.stop_time->0
                <= note.stop_time->0
        },
        None => after is None,
    }
}

/// True when the tables `after` hold the notes of the tables `before`, each
/// with its stop where it was or earlier, and no other note.
pub open spec fn keeps_notes(before: Seq<VoiceTable>, after: Seq<VoiceTable>) -> bool {
    &&& after.len() == before.len()
    &&& forall|p: int| 0 <= p < before.len() ==> (#[trigger] after[p]).len() == before[p].len()
    &&& forall|p: int, v: int|
        0 <= p < before.len() && 0 <= v < before[p].len() ==> keeps_note(
            before[p][v],
            #[trigger] after[p][v],
        )
}

/// A stop that is scheduled ends a note and starts none.
pub proof fn lemma_schedule_stop_keeps_notes(
    state: PlayerModel,
    pattern_index: int,
    voice_index: int,
    time: SampleTime,
)
    requires
        0 <= pattern_index < state.slots.len(),
    ensures
        keeps_notes(state.slots, state.schedule_stop(pattern_index, voice_index, time).slots),
{
    let after = state.schedule_stop(pattern_index, voice_index, time);
    assert forall|p: int| 0 <= p < state.slots.len() implies (#[trigger] after.slots[p]).len()
        == state.slots[p].len() by {}
    assert forall|p: int, v: int|
        0 <= p < state.slots.len() && 0 <= v < state.slots[p].len() implies keeps_note(
        state.slots[p][v],
        #[trigger] after.slots[p][v],
    ) by {}
}

/// The stops of the first `count` voices of a note vector end notes and
/// start none.
pub proof fn lemma_note_offs_keep_notes(
    state: PlayerModel,
    pattern_index: int,
    notes: Seq<Option<NoteEvent>>,
    count: int,
    event_time: SampleTime,
    duration: SampleTime,
    time_offset: SampleTime,
    limit: SampleTime,
)
    requires
        0 <= pattern_index < state.slots.len(),
    ensures
        keeps_notes(
            state.slots,
            state.handle_note_offs(
                pattern_index,
                notes,
                count,
                event_time,
                duration,
                time_offset,
                limit,
            ).slots,
        ),
    decreases count,
{
    if count > 0 {
        lemma_note_offs_keep_notes(
            state,
            pattern_index,
            notes,
            count - 1,
            event_time,
            duration,
            time_offset,
            limit,
        );
        let before = state.handle_note_offs(
            pattern_index,
            notes,
            count - 1,
            event_time,
            duration,
            time_offset,
            limit,
        );
        let after = state.handle_note_offs(
            pattern_index,
            notes,
            count,
            event_time,
            duration,
            time_offset,
            limit,
        );
        if notes[count - 1] is Some {
            lemma_schedule_stop_keeps_notes(
                before,
                pattern_index,
                count - 1,
                spec_note_event_time(
                    event_time,
                    duration,
                    notes[count - 1]->0.delay,
                    time_offset,
                ),
            );
        }
        lemma_keeps_notes_twice(state.slots, before.slots, after.slots);
    }
}

/// Notes that are kept twice are kept.
pub proof fn lemma_keeps_notes_twice(
    first: Seq<VoiceTable>,
    second: Seq<VoiceTable>,
    third: Seq<VoiceTable>,
)
    requires
        keeps_notes(first, second),
        keeps_notes(second, third),
    ensures
        keeps_notes(first, third),
{
    assert forall|p: int| 0 <= p < first.len() implies (#[trigger] third[p]).len()
        == first[p].len() by {
        assert(second[p].len() == first[p].len());
    }
    assert forall|p: int, v: int| 0 <= p < first.len() && 0 <= v < first[p].len() implies keeps_note(
        first[p][v],
        #[trigger] third[p][v],
    ) by {
        assert(second[p].len() == first[p].len());
        assert(keeps_note(first[p][v], second[p][v]));
        assert(keeps_note(second[p][v], third[p][v]));
    }
}

/// Looking through events for their stops ends notes and starts none: every
/// note that plays keeps its voice, and its stop is where it was or earlier.
pub proof fn lemma_events_note_offs_keep_notes(
    state: PlayerModel,
    events: Seq<(usize, PatternEventView)>,
    count: int,
    time_offset: SampleTime,
    limit: SampleTime,
)
    ensures
        keeps_notes(
            state.slots,
            state.handle_pattern_events_note_offs(events, count, time_offset, limit).slots,
        ),
    decreases count,
{
    if count > 0 {
        lemma_events_note_offs_keep_notes(state, events, count - 1, time_offset, limit);
        let before = state.handle_pattern_events_note_offs(events, count - 1, time_offset, limit);
        let after = state.handle_pattern_events_note_offs(events, count, time_offset, limit);
        if events[count - 1].0 < before.slots.len() {
            lemma_note_offs_keep_notes(
                before,
                events[count - 1].0 as int,
                events[count - 1].1.notes(),
                events[count - 1].1.notes().len() as int,
                events[count - 1].1.time,
                events[count - 1].1.duration,
                time_offset,
                limit,
            );
        }
        lemma_keeps_notes_twice(state.slots, before.slots, after.slots);
    }
}

/// The stops of the first `count` voices of a note vector that are due no
/// later than `limit` add stop commands only, none of them later than
/// `limit`.
pub proof fn lemma_note_offs_stop_by(
    state: PlayerModel,
    pattern_index: int,
    notes: Seq<Option<NoteEvent>>,
    count: int,
    event_time: SampleTime,
    duration: SampleTime,
    time_offset: SampleTime,
    limit: SampleTime,
    from: int,
)
    requires
        0 <= pattern_index < state.slots.len(),
        0 <= from <= state.commands.len(),
        stops_by(state.commands, from, limit),
    ensures
        ({
            let after = state.handle_note_offs(
                pattern_index,
                notes,
                count,
                event_time,
                duration,
                time_offset,
                limit,
            );
            &&& after.slots.len() == state.slots.len()
            &&& state.commands.is_prefix_of(after.commands)
            &&& stops_by(after.commands, from, limit)
        }),
    decreases count,
{
    if count > 0 {
        lemma_note_offs_stop_by(
            state,
            pattern_index,
            notes,
            count - 1,
            event_time,
            duration,
            time_offset,
            limit,
            from,
        );
        let before = state.handle_note_offs(
            pattern_index,
            notes,
            count - 1,
            event_time,
            duration,
            time_offset,
            limit,
        );
        let after = state.handle_note_offs(
            pattern_index,
            notes,
            count,
            event_time,
            duration,
            time_offset,
            limit,
        );
        assert(before.commands.is_prefix_of(after.commands));
        assert forall|k: int| from <= k < after.commands.len() implies match #[trigger] after.commands[k] {
            VoiceCommand::Stop { voice, time } => time is Some && time->0 <= limit,
            _ => false,
        } by {
            if k < before.commands.len() {
                assert(after.commands[k] == before.commands[k]);
            }
        }
    }
}

/// Looking through events for the stops that are due no later than `limit`
/// adds stop commands only, none of them later than `limit`.
pub proof fn lemma_events_note_offs_stop_by(
    state: PlayerModel,
    events: Seq<(usize, PatternEventView)>,
    count: int,
    time_offset: SampleTime,
    limit: SampleTime,
)
    requires
        0 <= count <= events.len(),
    ensures
        ({
            let after = state.handle_pattern_events_note_offs(events, count, time_offset, limit);
            &&& after.slots.len() == state.slots.len()
            &&& state.commands.is_prefix_of(after.commands)
            &&& stops_by(after.commands, state.commands.len() as int, limit)
        }),
    decreases count,
{
    if count > 0 {
        lemma_events_note_offs_stop_by(state, events, count - 1, time_offset, limit);
        let before = state.handle_pattern_events_note_offs(
            events,
            count - 1,
            time_offset,
            limit,
        );
        if events[count - 1].0 < before.slots.len() {
            lemma_note_offs_stop_by(
                before,
                events[count - 1].0 as int,
                events[count - 1].1.notes(),
                events[count - 1].1.notes().len() as int,
                events[count - 1].1.time,
                events[count - 1].1.duration,
                time_offset,
                limit,
                state.commands.len() as int,
            );
        }
    }
}

/// When a sequence takes over from one that is looked through for stops,
/// every note that plays keeps its voice and ends up with a stop scheduled,
/// which is no later than a stop that was scheduled before. A note for which
/// the replaced sequence holds no stop up to the horizon is stopped by
/// exactly one command, at the horizon. Stop commands are all that is
/// issued, and none of them is later than the horizon.
pub proof fn lemma_takeover_ends_every_note(
    state: PlayerModel,
    events: Seq<(usize, PatternEventView)>,
    time_offset: SampleTime,
    horizon: SampleTime,
)
    ensures
        ({
            let looked = state.handle_pattern_events_note_offs(
                events,
                events.len() as int,
                time_offset,
                horizon,
            );
            let after = looked.stop_pending(horizon);
            let pending = pending_in_slots(looked.slots, looked.slots.len() as int);
            &&& keeps_notes(state.slots, after.slots)
            &&& all_stops_scheduled(after.slots)
            &&& after.commands == looked.commands + stops_at(pending, horizon)
            &&& state.commands.is_prefix_of(after.commands)
            &&& stops_by(after.commands, state.commands.len() as int, horizon)
            &&& forall|p: int, v: int|
                0 <= p < state.slots.len() && 0 <= v < state.slots[p].len() && (
                #[trigger] looked.slots[p][v]) is Some && looked.slots[p][v]->0.stop_time is None
                    ==> after.slots[p][v] == Some(
                    PlayingNote { stop_time: Some(horizon), ..looked.slots[p][v]->0 },
                )
        }),
{
    let looked = state.handle_pattern_events_note_offs(
        events,
        events.len() as int,
        time_offset,
        horizon,
    );
    let after = looked.stop_pending(horizon);
    lemma_events_note_offs_stop_by(state, events, events.len() as int, time_offset, horizon);
    lemma_events_note_offs_keep_notes(state, events, events.len() as int, time_offset, horizon);
    lemma_swap_stops_each_pending_note_once(looked, horizon);
    lemma_stop_pending(looked, looked.slots.len() as int, horizon);
    assert(keeps_notes(looked.slots, after.slots)) by {
        assert forall|p: int| 0 <= p < looked.slots.len() implies (#[trigger] after.slots[p]).len()
            == looked.slots[p].len() by {
            assert(after.slots[p] == stop_pending_table(looked.slots[p], horizon));
        }
        assert forall|p: int, v: int|
            0 <= p < looked.slots.len() && 0 <= v < looked.slots[p].len() implies keeps_note(
            looked.slots[p][v],
            #[trigger] after.slots[p][v],
        ) by {
            assert(after.slots[p] == stop_pending_table(looked.slots[p], horizon));
        }
    }
    lemma_keeps_notes_twice(state.slots, looked.slots, after.slots);
    assert forall|p: int, v: int|
        0 <= p < state.slots.len() && 0 <= v < state.slots[p].len() && (
        #[trigger] looked.slots[p][v]) is Some && looked.slots[p][v]->0.stop_time
            is None implies after.slots[p][v] == Some(
        PlayingNote { stop_time: Some(horizon), ..looked.slots[p][v]->0 },
    ) by {
        assert(looked.slots[p].len() == state.slots[p].len());
        assert(after.slots[p] == stop_pending_table(looked.slots[p], horizon));
    }
}

} // verus!
