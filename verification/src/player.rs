//! The playback scheduler: turns the events of a sequence into commands for an
//! audio backend, and keeps track of the notes that play in each voice.
//!
//! The player does not talk to the backend itself. It queues commands, which
//! its owner takes and carries out in the order in which they were queued.

use vstd::prelude::*;
use crate::callback::ScriptEngine;
use crate::event::{clamp_panning, Event, NoteEvent, PatternEvent, PatternEventView};
use crate::note::{Note, C5};
use crate::pattern::SeekStep;
use crate::player_model::{
    lemma_events_lead, lemma_stop_pending, lemma_stop_pending_schedules_all,
    lemma_takeover_ends_every_note, Handover, PlayerModel, RunAction, MAX_SLEEP_TIME,
    MIN_LOOKUP_STEPS,
};
use crate::pool::SamplePool;
use crate::script::CallbackErrors;
use crate::sequence::{
    event_views, run_errors, step_events, RunStep, Sequence, SequenceModel,
};
use crate::time::{saturated, BeatTimeBase, SampleTime, MICRO};
use crate::voice::{
    all_stops_scheduled, any_playing, expire_note, expire_table, pending_notes, spec_glide_rate,
    spec_note_event_time, stop_commands, stop_pending_note,
    patched_start, spec_last_start, starts_patched, stop_pending_table, stops_at, table_get,
    table_restored, table_set, GlideRate, NewNoteAction, PlayingNote, UnconfirmedStart,
    SamplePlaybackContext, VoiceCommand, VoiceGlide, VoiceId, VoiceStart,
};

verus! {

/// Look-ahead of a new player, in microseconds.
pub const PLAYBACK_PRELOAD: u64 = 500_000;

/// Interval at which a new player asks for the playback position of its
/// voices, in microseconds.
pub const PLAYBACK_POS_EMIT_RATE: u64 = 1_000_000;

/// Plays back a sequence on an audio backend, using samples from a
/// [`SamplePool`] as instruments.
///
/// The notes that play are kept by pattern slot and by voice, in vectors: the
/// commands that stop them are queued in the order of the slots and of their
/// voices, so that the commands of a player are a function of what it was
/// given. A table has as many places as the highest voice that played in
/// its slot.
#[derive(Debug)]
pub struct SamplePlayer {
    sample_rate: u32,
    playing_notes: Vec<Vec<Option<PlayingNote>>>,
    commands: Vec<VoiceCommand>,
    next_voice: u64,
    unconfirmed: Vec<UnconfirmedStart>,
    new_note_action: NewNoteAction,
    sample_root_note: Note,
    playback_pos_emit_rate: u64,
    show_events: bool,
    preload: u64,
    playback_sample_time: SampleTime,
    emitted_sample_time: SampleTime,
}

impl View for SamplePlayer {
    type V = PlayerModel;

    closed spec fn view(&self) -> PlayerModel {
        PlayerModel {
            sample_rate: self.sample_rate,
            slots: Seq::new(self.playing_notes@.len(), |p: int| self.playing_notes@[p]@),
            commands: self.commands@,
            next_voice: self.next_voice,
            unconfirmed: self.unconfirmed@,
            new_note_action: self.new_note_action,
            sample_root_note: self.sample_root_note,
            playback_pos_emit_rate: self.playback_pos_emit_rate,
            show_events: self.show_events,
            preload: self.preload,
            playback_sample_time: self.playback_sample_time,
            emitted_sample_time: self.emitted_sample_time,
        }
    }
}

/// The sum of two times, saturated.
pub fn add_times(a: SampleTime, b: SampleTime) -> (r: SampleTime)
    ensures
        r == saturated(a + b),
{
    if a > u64::MAX - b {
        u64::MAX
    } else {
        a + b
    }
}

/// Forgets the notes of a table whose stop lies before `now`.
fn expire_notes(table: &mut Vec<Option<PlayingNote>>, now: SampleTime)
    ensures
        final(table)@ == expire_table(old(table)@, now),
{
    let mut i: usize = 0;
    while i < table.len()
        invariant
            i <= table@.len(),
            table@.len() == old(table)@.len(),
            forall|k: int| 0 <= k < i ==> table@[k] == expire_note(old(table)@[k], now),
            forall|k: int| i <= k < table@.len() ==> table@[k] == old(table)@[k],
        decreases table@.len() - i,
    {
        let expired = match table[i] {
            Some(note) => note.is_expired(now),
            None => false,
        };
        if expired {
            table[i] = None;
        }
        i += 1;
    }
    assert(table@ =~= expire_table(old(table)@, now));
}

/// Puts an entry into the voice of a table, which grows if it has to.
fn put_note(table: &mut Vec<Option<PlayingNote>>, voice_index: usize, entry: Option<PlayingNote>)
    requires
        voice_index < usize::MAX,
    ensures
        final(table)@ == table_set(old(table)@, voice_index as int, entry),
{
    if voice_index < table.len() {
        table[voice_index] = entry;
    } else {
        while table.len() < voice_index
            invariant
                old(table)@.len() <= table@.len() <= voice_index,
                forall|k: int| 0 <= k < old(table)@.len() ==> table@[k] == old(table)@[k],
                forall|k: int| old(table)@.len() <= k < table@.len() ==> table@[k] is None,
            decreases voice_index - table@.len(),
        {
            table.push(None);
        }
        table.push(entry);
        assert(table@ =~= table_set(old(table)@, voice_index as int, entry));
    }
}

impl SamplePlayer {
    /// Create a new sample player for a backend with the given sample rate.
    pub fn new(sample_rate: u32) -> (r: SamplePlayer)
        ensures
            r@ == (PlayerModel {
                sample_rate,
                slots: Seq::empty(),
                commands: Seq::empty(),
                next_voice: 0,
                unconfirmed: Seq::empty(),
                new_note_action: NewNoteAction::Off(Some(crate::voice::DEFAULT_FADE_OUT)),
                sample_root_note: Note(C5),
                playback_pos_emit_rate: PLAYBACK_POS_EMIT_RATE,
                show_events: false,
                preload: PLAYBACK_PRELOAD,
                playback_sample_time: 0,
                emitted_sample_time: 0,
            }),
    {
        let r = SamplePlayer {
            sample_rate,
            playing_notes: Vec::new(),
            commands: Vec::new(),
            next_voice: 0,
            unconfirmed: Vec::new(),
            new_note_action: NewNoteAction::default(),
            sample_root_note: Note(C5),
            playback_pos_emit_rate: PLAYBACK_POS_EMIT_RATE,
            show_events: false,
            preload: PLAYBACK_PRELOAD,
            playback_sample_time: 0,
            emitted_sample_time: 0,
        };
        assert(r@.slots =~= Seq::empty());
        r
    }

    /// Takes the commands that were queued since the last call, oldest first.
    ///
    /// Whoever carries the commands out reports back what became of each
    /// start, with [`SamplePlayer::start_confirmed`] or
    /// [`SamplePlayer::start_failed`]: until then the player remembers what
    /// the start replaced.
    pub fn take_commands(&mut self) -> (r: Vec<VoiceCommand>)
        ensures
            r@ == old(self)@.commands,
            final(self)@ == (PlayerModel { commands: Seq::empty(), ..old(self)@ }),
    {
        let mut commands: Vec<VoiceCommand> = Vec::new();
        core::mem::swap(&mut commands, &mut self.commands);
        assert(self@.slots =~= old(self)@.slots);
        commands
    }

    /// calculate absolute sample time from the given time_offset, applying note event delay.
    pub fn note_event_time(
        pattern_event: &PatternEvent,
        note_event: &NoteEvent,
        time_offset: SampleTime,
    ) -> (r: SampleTime)
        ensures
            r == spec_note_event_time(
                pattern_event.time,
                pattern_event.duration,
                note_event.delay,
                time_offset,
            ),
    {
        let delay: u64 = if note_event.delay > MICRO {
            MICRO
        } else {
            note_event.delay
        };
        assert(delay as int * pattern_event.duration as int <= MICRO as int * u64::MAX as int)
            by (nonlinear_arith)
            requires
                0 <= delay as int <= MICRO as int,
                0 <= pattern_event.duration as int <= u64::MAX as int,
        ;
        assert(0 <= delay as int * pattern_event.duration as int) by (nonlinear_arith)
            requires
                0 <= delay as int,
                0 <= pattern_event.duration as int,
        ;
        let share: u128 = (delay as u128 * pattern_event.duration as u128) / (MICRO as u128);
        let time: u128 = time_offset as u128 + pattern_event.time as u128 + share;
        if time >= u64::MAX as u128 {
            u64::MAX
        } else {
            time as u64
        }
    }

    /// convert given normalized glide value into a semitones per second based glide value.
    pub fn note_glide_value(
        glide: u64,
        source_note: Note,
        target_note: Note,
        samples_per_sec: u32,
        event_duration_in_samples: u64,
    ) -> (r: GlideRate)
        ensures
            r == spec_glide_rate(
                glide,
                target_note.spec_semitones(source_note),
                samples_per_sec,
                event_duration_in_samples,
            ),
    {
        let semitones: u8 = target_note.semitones(source_note);
        if glide == 0 || semitones == 0 || event_duration_in_samples == 0 {
            return GlideRate::Instant;
        }
        assert(semitones as int * samples_per_sec as int <= 255 * 0xFFFF_FFFF) by (nonlinear_arith)
            requires
                0 <= semitones as int <= 255,
                0 <= samples_per_sec as int <= 0xFFFF_FFFF,
        ;
        assert(0 <= semitones as int * samples_per_sec as int) by (nonlinear_arith)
            requires
                0 <= semitones as int,
                0 <= samples_per_sec as int,
        ;
        let distance: u128 = semitones as u128 * samples_per_sec as u128;
        assert(distance as int * (MICRO as int * MICRO as int) <= 255 * 0xFFFF_FFFF
            * 1_000_000_000_000) by (nonlinear_arith)
            requires
                0 <= distance as int <= 255 * 0xFFFF_FFFF,
                MICRO as int * MICRO as int == 1_000_000_000_000,
        ;
        assert(0 <= distance as int * (MICRO as int * MICRO as int)) by (nonlinear_arith)
            requires
                0 <= distance as int,
                MICRO as int * MICRO as int == 1_000_000_000_000,
        ;
        let numerator: u128 = distance * (MICRO as u128 * MICRO as u128);
        assert(event_duration_in_samples as int * glide as int <= u64::MAX as int * u64::MAX as int)
            by (nonlinear_arith)
            requires
                0 <= event_duration_in_samples as int <= u64::MAX as int,
                0 <= glide as int <= u64::MAX as int,
        ;
        assert(0 < event_duration_in_samples as int * glide as int) by (nonlinear_arith)
            requires
                0 < event_duration_in_samples as int,
                0 < glide as int,
        ;
        let denominator: u128 = event_duration_in_samples as u128 * glide as u128;
        let rate: u128 = numerator / denominator;
        assert(numerator as int == semitones as int * samples_per_sec as int * MICRO as int
            * MICRO as int) by (nonlinear_arith)
            requires
                numerator as int == (semitones as int * samples_per_sec as int) * (MICRO as int
                    * MICRO as int),
        ;
        if rate >= u64::MAX as u128 {
            GlideRate::SemitonesPerSecond(u64::MAX)
        } else {
            GlideRate::SemitonesPerSecond(rate as u64)
        }
    }

    /// Schedules a stop at `stop_time` for the note in the given voice, unless
    /// none plays there or an earlier or equal stop is scheduled already.
    fn stop_note(&mut self, pattern_index: usize, voice_index: usize, stop_time: SampleTime)
        requires
            pattern_index < old(self)@.slots.len(),
        ensures
            final(self)@ == old(self)@.schedule_stop(
                pattern_index as int,
                voice_index as int,
                stop_time,
            ),
            final(self)@.slots.len() == old(self)@.slots.len(),
    {
        if voice_index < self.playing_notes[pattern_index].len() {
            if let Some(playing_note) = self.playing_notes[pattern_index][voice_index] {
                if playing_note.sounds_after(stop_time) {
                    self.commands.push(
                        VoiceCommand::Stop { voice: playing_note.voice, time: Some(stop_time) },
                    );
                    self.playing_notes[pattern_index][voice_index] = Some(
                        PlayingNote {
                            voice: playing_note.voice,
                            note: playing_note.note,
                            stop_time: Some(stop_time),
                        },
                    );
                    assert(self@.slots =~= old(self)@.schedule_stop(
                        pattern_index as int,
                        voice_index as int,
                        stop_time,
                    ).slots);
                    return ;
                }
            }
        }
        assert(self@.slots =~= old(self)@.slots);
    }

    /// Glides the note that plays in the given voice to a note event. Returns
    /// false, and does nothing, when no note plays there which can be glided.
    pub fn play_glided_note(
        &mut self,
        pattern_index: usize,
        voice_index: usize,
        pattern_event: &PatternEvent,
        note_event: &NoteEvent,
        start_time: SampleTime,
    ) -> (r: bool)
        requires
            pattern_index < old(self)@.slots.len(),
        ensures
            r == old(self)@.can_glide(pattern_index as int, voice_index as int, start_time),
            r ==> final(self)@ == old(self)@.issue(
                old(self)@.glide_command(
                    pattern_index as int,
                    voice_index as int,
                    *note_event,
                    pattern_event.duration,
                    start_time,
                ),
            ),
            !r ==> final(self)@ == old(self)@,
    {
        if voice_index < self.playing_notes[pattern_index].len() {
            if let Some(playing_note) = self.playing_notes[pattern_index][voice_index] {
                if playing_note.sounds_after(start_time) {
                    let key = note_event.note.transposed(self.sample_root_note);
                    let glide: u64 = match note_event.glide {
                        Some(glide) => glide,
                        None => 0,
                    };
                    let rate = Self::note_glide_value(
                        glide,
                        playing_note.note,
                        note_event.note,
                        self.sample_rate,
                        pattern_event.duration,
                    );
                    self.commands.push(
                        VoiceCommand::Glide(
                            VoiceGlide {
                                voice: playing_note.voice,
                                key,
                                rate,
                                volume: note_event.volume,
                                panning: clamp_panning(note_event.panning),
                                time: start_time,
                            },
                        ),
                    );
                    assert(self@.slots =~= old(self)@.slots);
                    return true;
                }
            }
        }
        // no note playing which can be glided
        false
    }

    /// Starts a new voice for a note event and tracks it in place of what
    /// played in its voice before. What it replaced is remembered until the
    /// backend has confirmed the start with [`SamplePlayer::start_confirmed`]
    /// or refused it with [`SamplePlayer::start_failed`]. Without a sample
    /// for the instrument, the note is dropped.
    pub fn play_new_note(
        &mut self,
        pattern_index: usize,
        voice_index: usize,
        note_event: &NoteEvent,
        instrument: crate::event::InstrumentId,
        start_time: SampleTime,
        pool: &SamplePool,
    )
        requires
            pattern_index < old(self)@.slots.len(),
            voice_index < usize::MAX,
        ensures
            final(self)@ == old(self)@.start_note(
                pattern_index as int,
                voice_index as int,
                *note_event,
                instrument,
                start_time,
                pool.samples(),
            ),
            final(self)@.slots.len() == old(self)@.slots.len(),
    {
        if pool.sample(instrument).is_ok() {
            let voice = VoiceId(self.next_voice);
            self.next_voice = if self.next_voice == u64::MAX {
                0
            } else {
                self.next_voice + 1
            };
            self.commands.push(
                VoiceCommand::Start(
                    VoiceStart {
                        voice,
                        context: SamplePlaybackContext {
                            pattern_index: Some(pattern_index),
                            voice_index: Some(voice_index),
                        },
                        instrument,
                        key: note_event.note.transposed(self.sample_root_note),
                        volume: note_event.volume,
                        panning: clamp_panning(note_event.panning),
                        fade_out: self.new_note_action.fade_out(),
                        playback_pos_emit_rate: self.playback_pos_emit_rate,
                        time: start_time,
                    },
                ),
            );
            let voices = self.playing_notes[pattern_index].len();
            let replaced = if voice_index < voices {
                self.playing_notes[pattern_index][voice_index]
            } else {
                None
            };
            self.unconfirmed.push(
                UnconfirmedStart { voice, pattern_index, voice_index, replaced, voices },
            );
            put_note(
                &mut self.playing_notes[pattern_index],
                voice_index,
                Some(PlayingNote { voice, note: note_event.note, stop_time: None }),
            );
            assert(self@.slots =~= old(self)@.start_note(
                pattern_index as int,
                voice_index as int,
                *note_event,
                instrument,
                start_time,
                pool.samples(),
            ).slots);
        } else {
            assert(self@.slots =~= old(self)@.slots);
        }
    }

    /// True when the note event ends what plays in its voice.
    fn wants_stop(&self, note_event: &NoteEvent) -> (r: bool)
        ensures
            r == self@.wants_stop(*note_event),
    {
        note_event.note.is_note_off() || (note_event.note.is_note_on()
            && note_event.glide.is_none() && !self.new_note_action.is_continue())
    }

    /// Handle a single note event from a pattern event.
    fn handle_note_event(
        &mut self,
        pattern_index: usize,
        voice_index: usize,
        pattern_event: &PatternEvent,
        note_event: &NoteEvent,
        time_offset: SampleTime,
        pool: &SamplePool,
    )
        requires
            pattern_index < old(self)@.slots.len(),
            voice_index < usize::MAX,
        ensures
            final(self)@ == old(self)@.handle_note(
                pattern_index as int,
                voice_index as int,
                *note_event,
                pattern_event.time,
                pattern_event.duration,
                time_offset,
                pool.samples(),
            ),
            final(self)@.slots.len() == old(self)@.slots.len(),
    {
        // Handle note off or stop action
        if self.wants_stop(note_event) {
            let stop_time = Self::note_event_time(pattern_event, note_event, time_offset);
            self.stop_note(pattern_index, voice_index, stop_time);
        }
        // Play new note
        if note_event.note.is_note_on() {
            if let Some(instrument) = note_event.instrument {
                let start_time = Self::note_event_time(pattern_event, note_event, time_offset);
                if note_event.glide.is_none() || !self.play_glided_note(
                    pattern_index,
                    voice_index,
                    pattern_event,
                    note_event,
                    start_time,
                ) {
                    self.play_new_note(
                        pattern_index,
                        voice_index,
                        note_event,
                        instrument,
                        start_time,
                        pool,
                    );
                }
            }
        }
    }

    /// Handle a single pattern event from the sequence
    pub fn handle_pattern_event(
        &mut self,
        pattern_index: usize,
        pattern_event: &PatternEvent,
        time_offset: SampleTime,
        pool: &SamplePool,
    )
        requires
            pattern_index < old(self)@.slots.len(),
        ensures
            final(self)@ == old(self)@.handle_pattern_event(
                pattern_index as int,
                pattern_event@,
                time_offset,
                pool.samples(),
            ),
            final(self)@.slots.len() == old(self)@.slots.len(),
    {
        // Remove expired pending note stops
        let now = add_times(pattern_event.time, time_offset);
        expire_notes(&mut self.playing_notes[pattern_index], now);
        assert(self@.slots =~= old(self)@.expire(pattern_index as int, now).slots);
        let ghost expired = self@;

        // Process note events
        if let Some(Event::NoteEvents(notes)) = &pattern_event.event {
            let mut voice_index: usize = 0;
            while voice_index < notes.len()
                invariant
                    voice_index <= notes@.len(),
                    pattern_index < self@.slots.len(),
                    self@.slots.len() == old(self)@.slots.len(),
                    self@ == expired.handle_notes(
                        pattern_index as int,
                        notes@,
                        voice_index as int,
                        pattern_event.time,
                        pattern_event.duration,
                        time_offset,
                        pool.samples(),
                    ),
                decreases notes@.len() - voice_index,
            {
                if let Some(note_event) = &notes[voice_index] {
                    self.handle_note_event(
                        pattern_index,
                        voice_index,
                        pattern_event,
                        note_event,
                        time_offset,
                        pool,
                    );
                }
                voice_index += 1;
            }
            assert(pattern_event@.notes() == notes@);
        } else {
            assert(pattern_event@.notes().len() == 0);
        }
    }

    /// Handle pattern event note offs and new note actions only, skipping note-ons.
    pub fn handle_pattern_event_note_offs(
        &mut self,
        time_offset: SampleTime,
        pattern_index: usize,
        pattern_event: &PatternEvent,
    )
        requires
            pattern_index < old(self)@.slots.len(),
        ensures
            final(self)@ == old(self)@.handle_pattern_event_note_offs(
                time_offset,
                pattern_index as int,
                pattern_event@,
                u64::MAX,
            ),
            final(self)@.slots.len() == old(self)@.slots.len(),
    {
        self.handle_pattern_event_note_offs_until(
            time_offset,
            pattern_index,
            pattern_event,
            u64::MAX,
        );
    }

    /// Handles the note-offs and stops of a pattern event that are due no
    /// later than `limit`: a later one is passed over, and nothing is
    /// started.
    pub fn handle_pattern_event_note_offs_until(
        &mut self,
        time_offset: SampleTime,
        pattern_index: usize,
        pattern_event: &PatternEvent,
        limit: SampleTime,
    )
        requires
            pattern_index < old(self)@.slots.len(),
        ensures
            final(self)@ == old(self)@.handle_pattern_event_note_offs(
                time_offset,
                pattern_index as int,
                pattern_event@,
                limit,
            ),
            final(self)@.slots.len() == old(self)@.slots.len(),
    {
        if let Some(Event::NoteEvents(notes)) = &pattern_event.event {
            let mut voice_index: usize = 0;
            while voice_index < notes.len()
                invariant
                    voice_index <= notes@.len(),
                    pattern_index < self@.slots.len(),
                    self@.slots.len() == old(self)@.slots.len(),
                    self@ == old(self)@.handle_note_offs(
                        pattern_index as int,
                        notes@,
                        voice_index as int,
                        pattern_event.time,
                        pattern_event.duration,
                        time_offset,
                        limit,
                    ),
                decreases notes@.len() - voice_index,
            {
                if let Some(note_event) = &notes[voice_index] {
                    // Handle note off or stop action only
                    if self.wants_stop(note_event) {
                        let stop_time = Self::note_event_time(
                            pattern_event,
                            note_event,
                            time_offset,
                        );
                        if stop_time <= limit {
                            self.stop_note(pattern_index, voice_index, stop_time);
                        }
                    }
                }
                voice_index += 1;
            }
            assert(pattern_event@.notes() == notes@);
        } else {
            assert(pattern_event@.notes().len() == 0);
        }
    }

    /// Stop all currently playing sources.
    pub fn stop_all_sources(&mut self)
        ensures
            final(self)@ == old(self)@.stop_all_sources(),
    {
        self.commands.push(VoiceCommand::StopAll);
        let mut pattern_index: usize = 0;
        while pattern_index < self.playing_notes.len()
            invariant
                pattern_index <= self.playing_notes@.len(),
                self.playing_notes@.len() == old(self).playing_notes@.len(),
                forall|p: int| 0 <= p < pattern_index ==> (#[trigger] self.playing_notes@[p])@.len() == 0,
                self.commands@ == old(self).commands@.push(VoiceCommand::StopAll),
                self.sample_rate == old(self).sample_rate,
                self.next_voice == old(self).next_voice,
                self.unconfirmed == old(self).unconfirmed,
                self.new_note_action == old(self).new_note_action,
                self.sample_root_note == old(self).sample_root_note,
                self.playback_pos_emit_rate == old(self).playback_pos_emit_rate,
                self.show_events == old(self).show_events,
                self.preload == old(self).preload,
                self.playback_sample_time == old(self).playback_sample_time,
                self.emitted_sample_time == old(self).emitted_sample_time,
            decreases self.playing_notes@.len() - pattern_index,
        {
            self.playing_notes[pattern_index].clear();
            pattern_index += 1;
        }
        assert(self@.slots =~= old(self)@.stop_all_sources().slots) by {
            assert forall|p: int| 0 <= p < self@.slots.len() implies #[trigger] self@.slots[p]
                =~= Seq::<Option<PlayingNote>>::empty() by {
                assert(self.playing_notes@[p]@.len() == 0);
            }
        }
    }

    /// Stop all currently playing sources in the given pattern slot index.
    pub fn stop_sources_in_pattern_slot(&mut self, pattern_index: usize)
        requires
            pattern_index < old(self)@.slots.len(),
        ensures
            final(self)@ == old(self)@.stop_sources_in_pattern_slot(pattern_index as int),
    {
        let mut voice_index: usize = 0;
        while voice_index < self.playing_notes[pattern_index].len()
            invariant
                pattern_index < self.playing_notes@.len(),
                self.playing_notes == old(self).playing_notes,
                voice_index <= self.playing_notes@[pattern_index as int]@.len(),
                self.commands@ == old(self).commands@ + stop_commands(
                    self.playing_notes@[pattern_index as int]@,
                    voice_index as int,
                    None,
                ),
                self.sample_rate == old(self).sample_rate,
                self.next_voice == old(self).next_voice,
                self.unconfirmed == old(self).unconfirmed,
                self.new_note_action == old(self).new_note_action,
                self.sample_root_note == old(self).sample_root_note,
                self.playback_pos_emit_rate == old(self).playback_pos_emit_rate,
                self.show_events == old(self).show_events,
                self.preload == old(self).preload,
                self.playback_sample_time == old(self).playback_sample_time,
                self.emitted_sample_time == old(self).emitted_sample_time,
            decreases self.playing_notes@[pattern_index as int]@.len() - voice_index,
        {
            let ghost before = self.commands@;
            if let Some(playing_note) = self.playing_notes[pattern_index][voice_index] {
                self.commands.push(VoiceCommand::Stop { voice: playing_note.voice, time: None });
            }
            voice_index += 1;
            assert(self.commands@ =~= old(self).commands@ + stop_commands(
                self.playing_notes@[pattern_index as int]@,
                voice_index as int,
                None,
            ));
        }
        self.playing_notes[pattern_index].clear();
        assert(self@.slots =~= old(self)@.stop_sources_in_pattern_slot(
            pattern_index as int,
        ).slots);
    }
}

/// The place of the last of the starts that started the given voice.
fn last_start(starts: &Vec<UnconfirmedStart>, voice: VoiceId) -> (r: Option<usize>)
    ensures
        match r {
            Some(i) => spec_last_start(starts@, voice) == Some(i as int) && i < starts@.len()
                && starts@[i as int].voice == voice,
            None => spec_last_start(starts@, voice) is None,
        },
{
    let mut i: usize = starts.len();
    assert(starts@.take(i as int) =~= starts@);
    while i > 0
        invariant
            i <= starts@.len(),
            spec_last_start(starts@, voice) == spec_last_start(starts@.take(i as int), voice),
        decreases i,
    {
        proof {
            assert(starts@.take(i as int).last() == starts@[i - 1]);
            assert(starts@.take(i as int).drop_last() =~= starts@.take(i - 1));
        }
        if starts[i - 1].voice.0 == voice.0 {
            return Some(i - 1);
        }
        i -= 1;
    }
    proof {
        assert(starts@.take(0).len() == 0);
    }
    None
}

/// Puts back into the voice of a table what a start replaced there, and
/// takes the voices away that the start added, if no note plays in them.
fn restore_voice(
    table: &mut Vec<Option<PlayingNote>>,
    voice_index: usize,
    replaced: Option<PlayingNote>,
    voices: usize,
)
    requires
        voice_index < old(table)@.len(),
    ensures
        final(table)@ == table_restored(old(table)@, voice_index as int, replaced, voices as int),
{
    table[voice_index] = replaced;
    let ghost put = table@;
    if voices <= voice_index {
        let mut k: usize = voices;
        let mut silent = true;
        while k < table.len()
            invariant
                voices <= k <= table@.len(),
                table@ == put,
                silent ==> forall|j: int| voices <= j < k ==> (#[trigger] put[j]) is None,
                !silent ==> exists|j: int| voices <= j < k && (#[trigger] put[j]) is Some,
            decreases table@.len() - k,
        {
            if table[k].is_some() {
                silent = false;
            }
            k += 1;
        }
        if silent {
            table.truncate(voices);
            assert(table@ =~= put.take(voices as int));
        }
    }
}

/// The starts after the start at the place `i` was refused while a later
/// start has taken its place in the tables.
fn patch_starts(starts: &mut Vec<UnconfirmedStart>, i: usize)
    requires
        i < old(starts)@.len(),
    ensures
        final(starts)@ == starts_patched(old(starts)@, i as int),
{
    let refused = starts[i];
    let mut k: usize = 0;
    while k < starts.len()
        invariant
            i < starts@.len(),
            k <= starts@.len(),
            starts@.len() == old(starts)@.len(),
            refused == old(starts)@[i as int],
            forall|j: int|
                0 <= j < k ==> starts@[j] == patched_start(old(starts)@[j], j > i, refused),
            forall|j: int| k <= j < starts@.len() ==> starts@[j] == old(starts)@[j],
        decreases starts@.len() - k,
    {
        let start = starts[k];
        let replaces = match start.replaced {
            Some(note) => note.voice.0 == refused.voice.0,
            None => false,
        };
        if k > i && start.pattern_index == refused.pattern_index && start.voice_index
            == refused.voice_index && replaces {
            starts[k] = UnconfirmedStart {
                voice: start.voice,
                pattern_index: start.pattern_index,
                voice_index: start.voice_index,
                replaced: refused.replaced,
                voices: refused.voices,
            };
        }
        k += 1;
    }
    assert(starts@ =~= starts_patched(old(starts)@, i as int));
}

/// Stops the notes of a table that have no stop scheduled at `stop_time`.
fn stop_pending_in_table(
    table: &mut Vec<Option<PlayingNote>>,
    commands: &mut Vec<VoiceCommand>,
    stop_time: SampleTime,
)
    ensures
        final(table)@ == stop_pending_table(old(table)@, stop_time),
        final(commands)@ == old(commands)@ + stops_at(
            pending_notes(old(table)@, old(table)@.len() as int),
            stop_time,
        ),
{
    let mut voice_index: usize = 0;
    assert(old(commands)@ + stops_at(pending_notes(old(table)@, 0), stop_time) =~= old(
        commands,
    )@);
    while voice_index < table.len()
        invariant
            voice_index <= table@.len(),
            table@.len() == old(table)@.len(),
            forall|k: int|
                0 <= k < voice_index ==> table@[k] == stop_pending_note(old(table)@[k], stop_time),
            forall|k: int| voice_index <= k < table@.len() ==> table@[k] == old(table)@[k],
            commands@ == old(commands)@ + stops_at(
                pending_notes(old(table)@, voice_index as int),
                stop_time,
            ),
        decreases table@.len() - voice_index,
    {
        if let Some(playing_note) = table[voice_index] {
            if playing_note.stop_time.is_none() {
                commands.push(
                    VoiceCommand::Stop { voice: playing_note.voice, time: Some(stop_time) },
                );
                table[voice_index] = Some(
                    PlayingNote {
                        voice: playing_note.voice,
                        note: playing_note.note,
                        stop_time: Some(stop_time),
                    },
                );
            }
        }
        voice_index += 1;
        assert(commands@ =~= old(commands)@ + stops_at(
            pending_notes(old(table)@, voice_index as int),
            stop_time,
        ));
    }
    assert(table@ =~= stop_pending_table(old(table)@, stop_time));
}

impl SamplePlayer {
    /// Return the output backend's sample rate. All sources will be played back at this rate.
    pub fn sample_rate(&self) -> (r: u32)
        ensures
            r == self@.sample_rate,
    {
        self.sample_rate
    }

    /// true when events are to be shown while playing them.
    pub fn show_events(&self) -> (r: bool)
        ensures
            r == self@.show_events,
    {
        self.show_events
    }

    /// by default false: set to true to have events shown while playing them.
    pub fn set_show_events(&mut self, show: bool)
        ensures
            final(self)@ == (PlayerModel { show_events: show, ..old(self)@ }),
    {
        self.show_events = show;
        assert(self@.slots =~= old(self)@.slots);
    }

    /// playback pos emit rate of triggered files. by default one second.
    pub fn playback_pos_emit_rate(&self) -> (r: u64)
        ensures
            r == self@.playback_pos_emit_rate,
    {
        self.playback_pos_emit_rate
    }

    pub fn set_playback_pos_emit_rate(&mut self, emit_rate: u64)
        ensures
            final(self)@ == (PlayerModel { playback_pos_emit_rate: emit_rate, ..old(self)@ }),
    {
        self.playback_pos_emit_rate = emit_rate;
        assert(self@.slots =~= old(self)@.slots);
    }

    /// get current new note action behavior.
    pub fn new_note_action(&self) -> (r: NewNoteAction)
        ensures
            r == self@.new_note_action,
    {
        self.new_note_action
    }

    /// set a new new note action behavior.
    pub fn set_new_note_action(&mut self, action: NewNoteAction)
        ensures
            final(self)@ == (PlayerModel { new_note_action: action, ..old(self)@ }),
    {
        self.new_note_action = action;
        assert(self@.slots =~= old(self)@.slots);
    }

    /// get root note used when converting event note values to sample playback speed.
    pub fn sample_root_note(&self) -> (r: Note)
        ensures
            r == self@.sample_root_note,
    {
        self.sample_root_note
    }

    /// set a new global root note.
    pub fn set_sample_root_note(&mut self, root_note: Note)
        ensures
            final(self)@ == (PlayerModel { sample_root_note: root_note, ..old(self)@ }),
    {
        self.sample_root_note = root_note;
        assert(self@.slots =~= old(self)@.slots);
    }

    /// The look-ahead of a run, in microseconds.
    pub fn preload(&self) -> (r: u64)
        ensures
            r == self@.preload,
    {
        self.preload
    }

    /// Sets the look-ahead of a run, in microseconds.
    pub fn set_preload(&mut self, preload: u64)
        ensures
            final(self)@ == (PlayerModel { preload, ..old(self)@ }),
    {
        self.preload = preload;
        assert(self@.slots =~= old(self)@.slots);
    }

    /// Count of the pattern slots that the player keeps track of.
    pub fn pattern_slot_count(&self) -> (r: usize)
        ensures
            r == self@.slots.len(),
    {
        self.playing_notes.len()
    }

    /// The note that plays in a voice of a pattern slot.
    pub fn playing_note(&self, pattern_index: usize, voice_index: usize) -> (r: Option<
        PlayingNote,
    >)
        ensures
            r == (if pattern_index < self@.slots.len() {
                table_get(self@.slots[pattern_index as int], voice_index as int)
            } else {
                None
            }),
    {
        if pattern_index < self.playing_notes.len() && voice_index
            < self.playing_notes[pattern_index].len() {
            self.playing_notes[pattern_index][voice_index]
        } else {
            None
        }
    }

    /// True when a note plays in any voice.
    fn any_playing(&self) -> (r: bool)
        ensures
            r == any_playing(self@.slots),
    {
        let mut pattern_index: usize = 0;
        while pattern_index < self.playing_notes.len()
            invariant
                pattern_index <= self.playing_notes@.len(),
                forall|p: int, v: int|
                    0 <= p < pattern_index && 0 <= v < self@.slots[p].len() ==> (
                    #[trigger] self@.slots[p][v]) is None,
            decreases self.playing_notes@.len() - pattern_index,
        {
            let mut voice_index: usize = 0;
            while voice_index < self.playing_notes[pattern_index].len()
                invariant
                    pattern_index < self.playing_notes@.len(),
                    voice_index <= self.playing_notes@[pattern_index as int]@.len(),
                    forall|v: int|
                        0 <= v < voice_index ==> (
                        #[trigger] self@.slots[pattern_index as int][v]) is None,
                decreases self.playing_notes@[pattern_index as int]@.len() - voice_index,
            {
                if self.playing_notes[pattern_index][voice_index].is_some() {
                    assert(self@.slots[pattern_index as int][voice_index as int] is Some);
                    return true;
                }
                voice_index += 1;
            }
            pattern_index += 1;
        }
        false
    }

    /// Takes back the start of a voice that the backend refused: the voice of
    /// the slot holds again what the start replaced, so that the tables are
    /// as if the start had not been made. No command is issued. See
    /// [`PlayerModel::start_taken_back`].
    pub fn start_failed(&mut self, voice: VoiceId)
        ensures
            final(self)@ == old(self)@.start_taken_back(voice),
            final(self)@.slots.len() == old(self)@.slots.len(),
    {
        match last_start(&self.unconfirmed, voice) {
            Some(i) => {
                let start = self.unconfirmed[i];
                let holds = if start.pattern_index < self.playing_notes.len() {
                    if start.voice_index < self.playing_notes[start.pattern_index].len() {
                        match self.playing_notes[start.pattern_index][start.voice_index] {
                            Some(note) => note.voice.0 == voice.0,
                            None => false,
                        }
                    } else {
                        false
                    }
                } else {
                    false
                };
                proof {
                    if start.pattern_index < self.playing_notes@.len() {
                        assert(self@.slots[start.pattern_index as int]
                            == self.playing_notes@[start.pattern_index as int]@);
                    }
                    assert(start == self@.unconfirmed[i as int]);
                    let found = spec_last_start(self.unconfirmed@, voice);
                    assert(found is Some);
                    assert(found->0 == i as int);
                    assert(self.unconfirmed@[found->0].voice == voice);
                    assert(start.voice == voice);
                    if start.pattern_index < self.playing_notes@.len() && start.voice_index
                        < self.playing_notes@[start.pattern_index as int]@.len() {
                        let entry =
                            self.playing_notes@[start.pattern_index as int]@[start.voice_index as int];
                        assert(self@.slots[start.pattern_index as int][start.voice_index as int]
                            == entry);
                        if entry is Some {
                            assert((entry->0.voice.0 == voice.0) == (entry->0.voice == voice));
                        }
                    }
                }
                assert(holds == old(self)@.tracks_start(start));
                if holds {
                    restore_voice(
                        &mut self.playing_notes[start.pattern_index],
                        start.voice_index,
                        start.replaced,
                        start.voices,
                    );
                    self.unconfirmed.remove(i);
                    assert(self@.slots =~= old(self)@.start_taken_back(voice).slots);
                } else {
                    patch_starts(&mut self.unconfirmed, i);
                    self.unconfirmed.remove(i);
                    assert(self@.slots =~= old(self)@.slots);
                }
            },
            None => {
                assert(self@.slots =~= old(self)@.slots);
            },
        }
    }

    /// Takes note that the backend has started a voice: what the start
    /// replaced is forgotten. See [`PlayerModel::start_confirmed`].
    pub fn start_confirmed(&mut self, voice: VoiceId)
        ensures
            final(self)@ == old(self)@.start_confirmed(voice),
    {
        match last_start(&self.unconfirmed, voice) {
            Some(i) => {
                self.unconfirmed.remove(i);
                assert(self@.slots =~= old(self)@.slots);
            },
            None => {
                assert(self@.slots =~= old(self)@.slots);
            },
        }
    }

    /// Stops every note that has no stop scheduled at `stop_time`.
    fn stop_pending_notes(&mut self, stop_time: SampleTime)
        ensures
            final(self)@ == old(self)@.stop_pending(stop_time),
    {
        let mut pattern_index: usize = 0;
        while pattern_index < self.playing_notes.len()
            invariant
                pattern_index <= self.playing_notes@.len(),
                self.playing_notes@.len() == old(self).playing_notes@.len(),
                self@ == old(self)@.stop_pending_slots(pattern_index as int, stop_time),
                forall|q: int|
                    pattern_index <= q < self.playing_notes@.len() ==> self@.slots[q] == old(
                        self,
                    )@.slots[q],
            decreases self.playing_notes@.len() - pattern_index,
        {
            let ghost before = self@;
            assert(before.slots[pattern_index as int] == old(self)@.slots[pattern_index as int]);
            stop_pending_in_table(
                &mut self.playing_notes[pattern_index],
                &mut self.commands,
                stop_time,
            );
            pattern_index += 1;
            assert(self@.slots =~= old(self)@.stop_pending_slots(
                pattern_index as int,
                stop_time,
            ).slots);
            assert forall|q: int|
                pattern_index <= q < self.playing_notes@.len() implies self@.slots[q] == old(
                self,
            )@.slots[q] by {
                assert(self@.slots[q] == before.slots[q]);
            }
        }
    }

    /// Makes the player keep track of `count` pattern slots.
    fn resize_slots(&mut self, count: usize)
        ensures
            final(self)@ == old(self)@.resized(count as nat),
    {
        if count < self.playing_notes.len() {
            self.playing_notes.truncate(count);
        }
        while self.playing_notes.len() < count
            invariant
                self.playing_notes@.len() <= count || old(self).playing_notes@.len() <= count,
                self.playing_notes@.len() <= count,
                forall|p: int|
                    0 <= p < self.playing_notes@.len() && p < old(self).playing_notes@.len()
                        ==> self.playing_notes@[p] == old(self).playing_notes@[p],
                forall|p: int|
                    old(self).playing_notes@.len() <= p < self.playing_notes@.len() ==> (
                    #[trigger] self.playing_notes@[p])@ =~= Seq::<Option<PlayingNote>>::empty(),
                self.playing_notes@.len() >= old(self).playing_notes@.len()
                    || self.playing_notes@.len() == count,
                self.commands == old(self).commands,
                self.sample_rate == old(self).sample_rate,
                self.next_voice == old(self).next_voice,
                self.unconfirmed == old(self).unconfirmed,
                self.new_note_action == old(self).new_note_action,
                self.sample_root_note == old(self).sample_root_note,
                self.playback_pos_emit_rate == old(self).playback_pos_emit_rate,
                self.show_events == old(self).show_events,
                self.preload == old(self).preload,
                self.playback_sample_time == old(self).playback_sample_time,
                self.emitted_sample_time == old(self).emitted_sample_time,
            decreases count - self.playing_notes@.len(),
        {
            self.playing_notes.push(Vec::new());
        }
        assert(self@.slots =~= old(self)@.resized(count as nat).slots);
    }

    /// Starts a run at the given position of the backend: stops whatever is
    /// playing and keeps track of the pattern slots of the sequence.
    pub fn reset_playback_position(&mut self, sequence: &Sequence, output_position: SampleTime)
        ensures
            final(self)@ == old(self)@.reset_playback_position(
                sequence@.slots.len(),
                output_position,
            ),
    {
        // stop whatever is playing in case we're restarting
        self.stop_all_sources();
        // rebuild playing notes vec
        self.resize_slots(sequence.phrase_pattern_slot_count());
        // fetch player's actual position and use it as start offset
        self.playback_sample_time = output_position;
        self.emitted_sample_time = 0;
        assert(self@.slots =~= old(self)@.reset_playback_position(
            sequence@.slots.len(),
            output_position,
        ).slots);
    }

    /// Manually seek the given sequence to the given time offset and actual position.
    pub fn advance_until_time<E: ScriptEngine>(
        &mut self,
        sequence: &mut Sequence,
        engine: &mut E,
        errors: &mut CallbackErrors,
        time: SampleTime,
    )
        requires
            old(sequence)@.wf(),
        ensures
            final(self)@ == old(self)@.stop_all_sources(),
            final(sequence)@.wf(),
            final(sequence)@.time_base == old(sequence)@.time_base,
            final(sequence)@.slots.len() == old(sequence)@.slots.len(),
            final(sequence)@.next_due(time) is None,
            forall|j: int|
                0 <= j < final(sequence)@.slots.len() ==> (
                #[trigger] final(sequence)@.slots[j]).is_sought(old(sequence)@.slots[j], time),
            old(errors)@.is_prefix_of(final(errors)@),
            exists|seeks: Seq<Seq<SeekStep>>| #[trigger]
                old(sequence)@.seeks_to(
                    old(errors)@,
                    time,
                    seeks,
                    final(sequence)@,
                    final(errors)@,
                ),
    {
        self.stop_all_sources();
        sequence.advance_until_time(engine, errors, time);
    }

    /// Manually run the given sequence with the given time offset and actual position.
    /// When exchanging the sequence, call `prepare_run_until_time` before calling `run_until_time`.
    ///
    /// Returns the events that were due before `time`, each with its pattern
    /// slot, in the order in which they were handled: the order of their
    /// times.
    pub fn run_until_time<E: ScriptEngine>(
        &mut self,
        sequence: &mut Sequence,
        engine: &mut E,
        errors: &mut CallbackErrors,
        pool: &SamplePool,
        time_offset: SampleTime,
        time: SampleTime,
    ) -> (r: Vec<(usize, PatternEvent)>)
        requires
            old(sequence)@.wf(),
        ensures
            final(sequence)@.wf(),
            final(sequence)@.time_base == old(sequence)@.time_base,
            final(sequence)@.slots.len() == old(sequence)@.slots.len(),
            exists|steps: Seq<RunStep>| #[trigger]
                old(sequence)@.runs_to(
                    old(errors)@,
                    time,
                    steps,
                    final(sequence)@,
                    final(errors)@,
                ) && step_events(steps) == event_views(r@),
            final(self)@ == old(self)@.handle_pattern_events(
                event_views(r@),
                r@.len() as int,
                time_offset,
                pool.samples(),
            ),
            final(self)@.slots.len() == old(self)@.slots.len(),
            final(sequence)@.next_due(time) is None,
            forall|i: int|
                0 <= i < r@.len() ==> (#[trigger] r@[i]).1.time < time && r@[i].0 < old(
                    sequence,
                )@.slots.len(),
            forall|i: int, j: int|
                0 <= i <= j < r@.len() ==> (#[trigger] r@[i]).1.time <= (#[trigger] r@[j]).1.time,
            forall|j: int|
                0 <= j < final(sequence)@.slots.len() ==> (
                #[trigger] final(sequence)@.slots[j]).is_played(old(sequence)@.slots[j], time),
            old(errors)@.is_prefix_of(final(errors)@),
    {
        let events = sequence.consume_events_until_time(engine, errors, time);
        let mut i: usize = 0;
        while i < events.len()
            invariant
                i <= events@.len(),
                self@ == old(self)@.handle_pattern_events(
                    event_views(events@),
                    i as int,
                    time_offset,
                    pool.samples(),
                ),
                self@.slots.len() == old(self)@.slots.len(),
            decreases events@.len() - i,
        {
            if events[i].0 < self.playing_notes.len() {
                self.handle_pattern_event(events[i].0, &events[i].1, time_offset, pool);
            }
            i += 1;
        }
        events
    }

    /// Runs a sequence that has been replaced up to its time `time` and
    /// handles the stops of its events that are due no later than `limit`, to
    /// find out when the notes that play were meant to end.
    fn look_up_note_offs<E: ScriptEngine>(
        &mut self,
        previous_sequence: &mut Sequence,
        engine: &mut E,
        errors: &mut CallbackErrors,
        time_offset: SampleTime,
        time: SampleTime,
        limit: SampleTime,
    ) -> (steps: Ghost<Seq<RunStep>>)
        requires
            old(previous_sequence)@.wf(),
        ensures
            final(previous_sequence)@.wf(),
            final(previous_sequence)@.time_base == old(previous_sequence)@.time_base,
            final(previous_sequence)@.slots.len() == old(previous_sequence)@.slots.len(),
            old(previous_sequence)@.runs_to(
                old(errors)@,
                time,
                steps@,
                final(previous_sequence)@,
                final(errors)@,
            ),
            final(self)@ == old(self)@.handle_pattern_events_note_offs(
                step_events(steps@),
                steps@.len() as int,
                time_offset,
                limit,
            ),
            final(self)@.slots.len() == old(self)@.slots.len(),
            forall|i: int| 0 <= i < steps@.len() ==> (#[trigger] step_events(steps@)[i]).1.time < time,
            forall|j: int|
                0 <= j < final(previous_sequence)@.slots.len() ==> (
                #[trigger] final(previous_sequence)@.slots[j]).is_played(
                    old(previous_sequence)@.slots[j],
                    time,
                ),
            old(errors)@.is_prefix_of(final(errors)@),
    {
        let events = previous_sequence.consume_events_until_time(engine, errors, time);
        let ghost steps = choose|steps: Seq<RunStep>|
            #[trigger] old(previous_sequence)@.runs_to(
                old(errors)@,
                time,
                steps,
                previous_sequence@,
                errors@,
            ) && step_events(steps) == event_views(events@);
        proof {
            assert(step_events(steps) == event_views(events@));
            assert(step_events(steps).len() == steps.len());
            assert(event_views(events@).len() == events@.len());
        }
        let mut i: usize = 0;
        while i < events.len()
            invariant
                i <= events@.len(),
                self@ == old(self)@.handle_pattern_events_note_offs(
                    event_views(events@),
                    i as int,
                    time_offset,
                    limit,
                ),
                self@.slots.len() == old(self)@.slots.len(),
            decreases events@.len() - i,
        {
            if events[i].0 < self.playing_notes.len() {
                self.handle_pattern_event_note_offs_until(
                    time_offset,
                    events[i].0,
                    &events[i].1,
                    limit,
                );
            }
            i += 1;
        }
        proof {
            assert forall|i: int| 0 <= i < steps.len() implies (#[trigger] step_events(
                steps,
            )[i]).1.time < time by {
                assert(event_views(events@)[i].1.time == events@[i].1.time);
            }
        }
        Ghost(steps)
    }

    /// Initialize the given sequence for playback with `run_until_time`.
    ///
    /// This seeks the given sequence to the given sample time, stops still playing notes
    /// and keeps track of internal playback state.
    ///
    /// When `previous_sequence` is set, it's run to lookup note-off and stop events that
    /// would have happened in future to stop pending notes. When its none, all playing notes
    /// will be stopped at the time the new sequence starts playing.
    ///
    /// The previous sequence is run for one more cycle of its longest pattern, of at least
    /// four steps, after `time`. The end of that cycle, as the backend counts, is the horizon:
    /// no stop is made later, and the notes for which no stop was found are stopped there.
    /// See [`PlayerModel::is_prepared`].
    pub fn prepare_run_until_time<E: ScriptEngine>(
        &mut self,
        previous_sequence: Option<&mut Sequence>,
        sequence: &mut Sequence,
        engine: &mut E,
        errors: &mut CallbackErrors,
        time_offset: SampleTime,
        time: SampleTime,
    )
        requires
            previous_sequence matches Some(previous) ==> previous@.wf(),
            old(sequence)@.wf(),
        ensures
            final(sequence)@.wf(),
            final(sequence)@.time_base == old(sequence)@.time_base,
            final(sequence)@.slots.len() == old(sequence)@.slots.len(),
            final(sequence)@.next_due(time) is None,
            forall|j: int|
                0 <= j < final(sequence)@.slots.len() ==> (
                #[trigger] final(sequence)@.slots[j]).is_sought(old(sequence)@.slots[j], time),
            previous_sequence matches Some(previous) ==> final(previous)@.wf()
                && final(previous)@.slots.len() == previous@.slots.len(),
            previous_sequence matches Some(previous) ==> (if any_playing(old(self)@.slots) {
                forall|j: int|
                    0 <= j < previous@.slots.len() ==> (#[trigger] final(previous)@.slots[j]).is_played(
                        previous@.slots[j],
                        saturated(time + previous@.max_cycle_length(MIN_LOOKUP_STEPS)),
                    )
            } else {
                final(previous)@ == previous@
            }),
            old(errors)@.is_prefix_of(final(errors)@),
            final(self)@.slots.len() == old(sequence)@.slots.len(),
            all_stops_scheduled(final(self)@.slots),
            final(self)@ == (PlayerModel {
                slots: final(self)@.slots,
                commands: final(self)@.commands,
                ..old(self)@
            }),
            old(self)@.commands.is_prefix_of(final(self)@.commands),
            previous_sequence is None ==> exists|handover: Handover| #[trigger]
                old(self)@.is_prepared(
                    None,
                    old(sequence)@,
                    old(errors)@,
                    time_offset,
                    time,
                    handover,
                    final(self)@,
                    final(sequence)@,
                    final(errors)@,
                ),
            previous_sequence matches Some(previous) ==> exists|handover: Handover| #[trigger]
                old(self)@.is_prepared(
                    Some((previous@, final(previous)@)),
                    old(sequence)@,
                    old(errors)@,
                    time_offset,
                    time,
                    handover,
                    final(self)@,
                    final(sequence)@,
                    final(errors)@,
                ),
    {
        let ghost mut looked_up: Seq<(usize, PatternEventView)> = Seq::empty();
        let ghost mut looked_steps: Seq<RunStep> = Seq::empty();
        let ghost previous_before: Option<SequenceModel> = if previous_sequence is Some {
            Some(previous_sequence->0@)
        } else {
            None
        };
        let ghost mut previous_after: Option<SequenceModel> = previous_before;
        let ghost horizon: SampleTime = if previous_sequence is Some {
            saturated(
                time_offset + time + previous_sequence->0@.max_cycle_length(MIN_LOOKUP_STEPS),
            )
        } else {
            saturated(time_offset + time)
        };
        // stop playing notes, if needed
        if self.any_playing() {
            // Process note stop events from the previous sequence
            let stop_time = if let Some(previous_sequence) = previous_sequence {
                // Get maximum pattern step length in samples of all currently playing back patterns
                // We can't assume that every step produces a note-on, so run entire patterns
                // or at least 4 steps with dynamic pattern generators.
                let max_step_length = previous_sequence.max_cycle_length(MIN_LOOKUP_STEPS);
                // Run sequence and handle note-offs only to stop playing notes: the sequence
                // counts its time from the start of the run, the stops are due at the times
                // of the backend
                let note_stop_lookup_time = add_times(time, max_step_length);
                let note_stop_time = add_times(add_times(time_offset, time), max_step_length);
                let steps = self.look_up_note_offs(
                    previous_sequence,
                    engine,
                    errors,
                    time_offset,
                    note_stop_lookup_time,
                    note_stop_time,
                );
                proof {
                    looked_up = step_events(steps@);
                    looked_steps = steps@;
                    previous_after = Some(previous_sequence@);
                }
                // stop remaining notes at the lookup time range's end
                note_stop_time
            } else {
                // stop remaining notes at the time the new sequence starts
                add_times(time_offset, time)
            };
            // stop remaining playing notes at the lookup time or time we're applying the new sequence
            self.stop_pending_notes(stop_time);
        } else {
            proof {
                let stop_time = horizon;
                assert forall|p: int, v: int|
                    0 <= p < self@.slots.len() && 0 <= v < self@.slots[p].len() implies ((
                #[trigger] self@.slots[p][v]) matches Some(note) ==> note.stop_time is Some) by {
                    if self@.slots[p][v] is Some {
                        assert(any_playing(self@.slots));
                    }
                }
                lemma_stop_pending(self@, self@.slots.len() as int, stop_time);
            }
        }
        proof {
            let stop_time = horizon;
            let noted = old(self)@.handle_pattern_events_note_offs(
                looked_up,
                looked_up.len() as int,
                time_offset,
                stop_time,
            );
            assert(self@ == noted.stop_pending(stop_time));
            lemma_stop_pending_schedules_all(noted, stop_time);
            lemma_events_lead(
                old(self)@,
                looked_up,
                looked_up.len() as int,
                time_offset,
                Set::empty(),
                stop_time,
            );
            lemma_stop_pending(noted, noted.slots.len() as int, stop_time);
            lemma_takeover_ends_every_note(old(self)@, looked_up, time_offset, stop_time);
        }
        // update playing notes state to fit the new sequence
        self.resize_slots(sequence.phrase_pattern_slot_count());
        proof {
            if previous_sequence is Some && any_playing(old(self)@.slots) {
                assert(old(self)@.is_taken_over(
                    previous_before.unwrap(),
                    old(errors)@,
                    looked_steps,
                    previous_after.unwrap(),
                    time_offset,
                    saturated(time + previous_before.unwrap().max_cycle_length(MIN_LOOKUP_STEPS)),
                    horizon,
                    old(sequence)@.slots.len(),
                    self@,
                ));
            }
        }
        let ghost errors_before = errors@;
        // and finally prepare the new sequence by advancing it to the target time
        sequence.advance_until_time(engine, errors, time);
        proof {
            let seeks = choose|seeks: Seq<Seq<SeekStep>>| #[trigger]
                old(sequence)@.seeks_to(errors_before, time, seeks, sequence@, errors@);
            let handover = Handover { steps: looked_steps, seeks };
            assert(errors_before == run_errors(old(errors)@, looked_steps));
            assert(old(self)@.is_prepared(
                match previous_before {
                    Some(before) => Some((before, previous_after.unwrap())),
                    None => None,
                },
                old(sequence)@,
                old(errors)@,
                time_offset,
                time,
                handover,
                self@,
                sequence@,
                errors@,
            ));
        }
    }

    /// What a run does next at the given position of the backend.
    pub fn next_run_action(&self, time_base: &BeatTimeBase, output_position: SampleTime) -> (r:
        RunAction)
        requires
            time_base.is_valid(),
        ensures
            r == self@.next_run_action(*time_base, output_position),
    {
        let preload: u64 = time_base.seconds_to_samples(self.preload);
        let played: u64 = if output_position >= self.playback_sample_time {
            output_position - self.playback_sample_time
        } else {
            0
        };
        let gained: u128 = played as u128 + 2 * (preload as u128);
        if gained >= self.emitted_sample_time as u128 + preload as u128
            || self.emitted_sample_time == 0 {
            // run sequence ahead of player up to the look-ahead
            let to_emit: u128 = if gained >= self.emitted_sample_time as u128 {
                gained - self.emitted_sample_time as u128
            } else {
                0
            };
            if to_emit >= u64::MAX as u128 {
                RunAction::Emit(u64::MAX)
            } else {
                RunAction::Emit(to_emit as u64)
            }
        } else {
            // wait until next events are due, but check for a stop at least every...
            let missing: u128 = self.emitted_sample_time as u128 + preload as u128 - gained;
            let missing: u64 = if missing >= u64::MAX as u128 {
                u64::MAX
            } else {
                missing as u64
            };
            let wait = time_base.samples_to_seconds(missing);
            if wait > MAX_SLEEP_TIME {
                RunAction::Sleep(MAX_SLEEP_TIME)
            } else {
                RunAction::Sleep(wait)
            }
        }
    }

    /// Starts or resumes a run of a sequence. A first run, or a run that is to
    /// reset the playback position, starts at the given position of the
    /// backend; any other run goes on where the last one left and takes over
    /// from the previous sequence.
    pub fn start_run<E: ScriptEngine>(
        &mut self,
        previous_sequence: Option<&mut Sequence>,
        sequence: &mut Sequence,
        engine: &mut E,
        errors: &mut CallbackErrors,
        reset_playback_pos: bool,
        output_position: SampleTime,
    )
        requires
            previous_sequence matches Some(previous) ==> previous@.wf(),
            old(sequence)@.wf(),
        ensures
            final(sequence)@.wf(),
            final(sequence)@.time_base == old(sequence)@.time_base,
            final(sequence)@.slots.len() == old(sequence)@.slots.len(),
            previous_sequence matches Some(previous) ==> final(previous)@.wf(),
            final(self)@.slots.len() == old(sequence)@.slots.len(),
            reset_playback_pos || old(self)@.emitted_sample_time == 0 ==> final(self)@
                == old(self)@.reset_playback_position(
                old(sequence)@.slots.len(),
                output_position,
            ) && final(sequence)@ == old(sequence)@,
            !(reset_playback_pos || old(self)@.emitted_sample_time == 0) ==> all_stops_scheduled(
                final(self)@.slots,
            ) && final(self)@.playback_sample_time == old(self)@.playback_sample_time
                && final(self)@.emitted_sample_time == old(self)@.emitted_sample_time
                && final(sequence)@.next_due(old(self)@.emitted_sample_time) is None && (forall|
                j: int,
            |
                0 <= j < final(sequence)@.slots.len() ==> (
                #[trigger] final(sequence)@.slots[j]).is_sought(
                    old(sequence)@.slots[j],
                    old(self)@.emitted_sample_time,
                )),
            !(reset_playback_pos || old(self)@.emitted_sample_time == 0) && previous_sequence is None
                ==> exists|handover: Handover| #[trigger]
                old(self)@.is_prepared(
                    None,
                    old(sequence)@,
                    old(errors)@,
                    old(self)@.playback_sample_time,
                    old(self)@.emitted_sample_time,
                    handover,
                    final(self)@,
                    final(sequence)@,
                    final(errors)@,
                ),
            previous_sequence matches Some(previous) ==> !(reset_playback_pos || old(
                self,
            )@.emitted_sample_time == 0) ==> exists|handover: Handover| #[trigger]
                old(self)@.is_prepared(
                    Some((previous@, final(previous)@)),
                    old(sequence)@,
                    old(errors)@,
                    old(self)@.playback_sample_time,
                    old(self)@.emitted_sample_time,
                    handover,
                    final(self)@,
                    final(sequence)@,
                    final(errors)@,
                ),
            reset_playback_pos || old(self)@.emitted_sample_time == 0 ==> final(errors)@ == old(
                errors,
            )@ && (previous_sequence matches Some(previous) ==> final(previous)@ == previous@),
            old(errors)@.is_prefix_of(final(errors)@),
    {
        // reset time counters when starting the first time or when explicitly requested, else continue
        // playing from our previous time to avoid interrupting playback streams
        if reset_playback_pos || self.emitted_sample_time == 0 {
            self.reset_playback_position(sequence, output_position);
        } else {
            let time_offset = self.playback_sample_time;
            let time = self.emitted_sample_time;
            self.prepare_run_until_time(
                previous_sequence,
                sequence,
                engine,
                errors,
                time_offset,
                time,
            );
        }
    }

    /// One turn of a run at the given position of the backend. When the run is
    /// to emit, the events of the sequence that are due are handled and handed
    /// back; when it is to sleep, nothing happens.
    pub fn run_until_step<E: ScriptEngine>(
        &mut self,
        sequence: &mut Sequence,
        engine: &mut E,
        errors: &mut CallbackErrors,
        pool: &SamplePool,
        time_base: &BeatTimeBase,
        output_position: SampleTime,
    ) -> (r: (RunAction, Vec<(usize, PatternEvent)>))
        requires
            old(sequence)@.wf(),
            time_base.is_valid(),
        ensures
            final(sequence)@.wf(),
            final(sequence)@.time_base == old(sequence)@.time_base,
            final(sequence)@.slots.len() == old(sequence)@.slots.len(),
            r.0 == old(self)@.next_run_action(*time_base, output_position),
            match r.0 {
                RunAction::Sleep(_) => r.1@.len() == 0 && final(self)@ == old(self)@
                    && final(sequence)@ == old(sequence)@ && *final(engine) == *old(engine)
                    && final(errors)@ == old(errors)@,
                RunAction::Emit(samples) => {
                    let time = saturated(old(self)@.emitted_sample_time + samples);
                    &&& exists|steps: Seq<RunStep>| #[trigger]
                        old(sequence)@.runs_to(
                            old(errors)@,
                            time,
                            steps,
                            final(sequence)@,
                            final(errors)@,
                        ) && step_events(steps) == event_views(r.1@)
                    &&& final(sequence)@.next_due(time) is None
                    &&& forall|j: int|
                        0 <= j < final(sequence)@.slots.len() ==> (
                        #[trigger] final(sequence)@.slots[j]).is_played(
                            old(sequence)@.slots[j],
                            time,
                        )
                    &&& final(self)@ == (PlayerModel {
                        emitted_sample_time: time,
                        ..old(self)@.handle_pattern_events(
                            event_views(r.1@),
                            r.1@.len() as int,
                            old(self)@.playback_sample_time,
                            pool.samples(),
                        )
                    })
                    &&& forall|i: int| 0 <= i < r.1@.len() ==> (#[trigger] r.1@[i]).1.time < time
                    &&& forall|i: int, j: int|
                        0 <= i <= j < r.1@.len() ==> (#[trigger] r.1@[i]).1.time <= (
                        #[trigger] r.1@[j]).1.time
                },
            },
    {
        let action = self.next_run_action(time_base, output_position);
        match action {
            RunAction::Emit(samples_to_emit) => {
                let time_offset = self.playback_sample_time;
                let time = add_times(self.emitted_sample_time, samples_to_emit);
                let events = self.run_until_time(
                    sequence,
                    engine,
                    errors,
                    pool,
                    time_offset,
                    time,
                );
                proof {
                    lemma_events_lead(
                        old(self)@,
                        event_views(events@),
                        events@.len() as int,
                        time_offset,
                        pool.samples(),
                        u64::MAX,
                    );
                }
                self.emitted_sample_time = time;
                assert(self@.slots =~= old(self)@.handle_pattern_events(
                    event_views(events@),
                    events@.len() as int,
                    time_offset,
                    pool.samples(),
                ).slots);
                (action, events)
            },
            RunAction::Sleep(_) => (action, Vec::new()),
        }
    }
}

} // verus!
