//! What a player tells an audio backend to do, and what it remembers of the
//! notes that it started there.

use vstd::prelude::*;
use crate::event::{spec_clamp, InstrumentId, NoteEvent};
use crate::note::Note;
use crate::time::{saturated, SampleTime, MICRO};

verus! {

/// Fade-out, in microseconds, of a voice whose player has no fade-out of its
/// own to apply.
pub const DEFAULT_FADE_OUT: u64 = 100_000;

/// Handle of one sounding voice. The player makes it up when it starts the
/// voice and names the voice by it in every later command.
#[derive(Copy, Clone, Debug, PartialEq, Eq, Hash, Structural)]
pub struct VoiceId(pub u64);

/// The handle that follows `id`.
pub open spec fn spec_next_voice_id(id: u64) -> u64 {
    if id == u64::MAX {
        0
    } else {
        (id + 1) as u64
    }
}

/// Sample player's behavior when playing a new note on the same voice channel.
#[derive(Copy, Clone, Debug, PartialEq, Eq, Structural)]
pub enum NewNoteAction {
    /// Continue playing the old note and start a new one.
    Continue,
    /// Stop the playing note before starting a new one.
    Stop,
    /// Stop the playing note before with the given fade-out duration, in
    /// microseconds.
    Off(Option<u64>),
}

impl Default for NewNoteAction {
    fn default() -> (r: NewNoteAction)
        ensures
            r == NewNoteAction::Off(Some(DEFAULT_FADE_OUT)),
    {
        NewNoteAction::Off(Some(DEFAULT_FADE_OUT))
    }
}

impl NewNoteAction {
    /// The fade-out that a voice started under this action gets.
    pub open spec fn spec_fade_out(self) -> Option<u64> {
        match self {
            NewNoteAction::Continue | NewNoteAction::Stop => Some(DEFAULT_FADE_OUT),
            NewNoteAction::Off(duration) => duration,
        }
    }

    /// The fade-out that a voice started under this action gets.
    pub fn fade_out(&self) -> (r: Option<u64>)
        ensures
            r == self.spec_fade_out(),
    {
        match self {
            NewNoteAction::Continue | NewNoteAction::Stop => Some(DEFAULT_FADE_OUT),
            NewNoteAction::Off(duration) => *duration,
        }
    }

    /// True for [`NewNoteAction::Continue`].
    pub fn is_continue(&self) -> (r: bool)
        ensures
            r == (*self == NewNoteAction::Continue),
    {
        match self {
            NewNoteAction::Continue => true,
            _ => false,
        }
    }
}

/// Context, passed along when triggering new notes from the sample player,
/// and handed back by the backend with the status of the voice.
#[derive(Copy, Clone, Debug, PartialEq, Eq, Structural)]
pub struct SamplePlaybackContext {
    pub pattern_index: Option<usize>,
    pub voice_index: Option<usize>,
}

impl SamplePlaybackContext {
    /// The context that a backend event carries: the one that was passed along
    /// with the voice, or one that names no voice.
    pub fn from_event(context: Option<SamplePlaybackContext>) -> (r: SamplePlaybackContext)
        ensures
            r == (match context {
                Some(context) => context,
                None => (SamplePlaybackContext { pattern_index: None, voice_index: None }),
            }),
    {
        if let Some(context) = context {
            return context;
        }
        SamplePlaybackContext { pattern_index: None, voice_index: None }
    }
}

/// How fast the pitch of a voice moves to a new key.
#[derive(Copy, Clone, Debug, PartialEq, Eq, Structural)]
pub enum GlideRate {
    /// The new pitch applies at once.
    Instant,
    /// Millionths of a semitone per second.
    SemitonesPerSecond(u64),
}

/// Starts a new voice.
#[derive(Copy, Clone, Debug, PartialEq, Eq, Structural)]
pub struct VoiceStart {
    pub voice: VoiceId,
    /// Pattern slot and voice of the note.
    pub context: SamplePlaybackContext,
    pub instrument: InstrumentId,
    /// Key at which the sample plays: 60 plays it unchanged.
    pub key: u8,
    pub volume: u64,
    pub panning: i64,
    /// Fade-out of the voice when it is stopped, in microseconds.
    pub fade_out: Option<u64>,
    /// Interval at which the backend reports the playback position, in
    /// microseconds.
    pub playback_pos_emit_rate: u64,
    pub time: SampleTime,
}

/// Moves a sounding voice to a new key, volume and panning.
#[derive(Copy, Clone, Debug, PartialEq, Eq, Structural)]
pub struct VoiceGlide {
    pub voice: VoiceId,
    pub key: u8,
    pub rate: GlideRate,
    pub volume: u64,
    pub panning: i64,
    pub time: SampleTime,
}

/// One instruction for the audio backend.
#[derive(Copy, Clone, Debug, PartialEq, Eq, Structural)]
pub enum VoiceCommand {
    /// Stops every voice now.
    StopAll,
    /// Stops one voice at the given time, or now.
    Stop { voice: VoiceId, time: Option<SampleTime> },
    Start(VoiceStart),
    Glide(VoiceGlide),
}

impl VoiceCommand {
    /// True for a command that stops the given voice.
    pub open spec fn stops(self, voice: VoiceId) -> bool {
        self matches VoiceCommand::Stop { voice: v, .. } && v == voice
    }

    /// True for a command that starts the given voice.
    pub open spec fn starts(self, voice: VoiceId) -> bool {
        self matches VoiceCommand::Start(start) && start.voice == voice
    }
}

/// Single playing note in a player pattern's channel.
#[derive(Copy, Clone, Debug, PartialEq, Eq, Structural)]
pub struct PlayingNote {
    /// The voice that plays the note.
    pub voice: VoiceId,
    /// The note value that the voice was started with.
    pub note: Note,
    /// Some, when a stop is scheduled for the note.
    pub stop_time: Option<SampleTime>,
}

impl PlayingNote {
    /// True when the note is not stopped at `time` or before.
    #[verifier::when_used_as_spec(spec_sounds_after)]
    pub fn sounds_after(&self, time: SampleTime) -> (r: bool)
        ensures
            r == self.spec_sounds_after(time),
    {
        match self.stop_time {
            None => true,
            Some(stop_time) => stop_time > time,
        }
    }

    pub open spec fn spec_sounds_after(&self, time: SampleTime) -> bool {
        match self.stop_time {
            None => true,
            Some(stop_time) => stop_time > time,
        }
    }

    /// True when the note is stopped before `time`.
    #[verifier::when_used_as_spec(spec_is_expired)]
    pub fn is_expired(&self, time: SampleTime) -> (r: bool)
        ensures
            r == self.spec_is_expired(time),
    {
        match self.stop_time {
            None => false,
            Some(stop_time) => stop_time < time,
        }
    }

    pub open spec fn spec_is_expired(&self, time: SampleTime) -> bool {
        match self.stop_time {
            None => false,
            Some(stop_time) => stop_time < time,
        }
    }
}

/// The notes that play in the voices of one pattern slot, by voice index.
pub type VoiceTable = Seq<Option<PlayingNote>>;

/// The note that plays in a voice, if any.
pub open spec fn table_get(table: VoiceTable, voice_index: int) -> Option<PlayingNote> {
    if 0 <= voice_index < table.len() {
        table[voice_index]
    } else {
        None
    }
}

/// The table with one voice replaced. A table that is too short grows by
/// silent voices.
pub open spec fn table_set(table: VoiceTable, voice_index: int, entry: Option<PlayingNote>)
    -> VoiceTable {
    if voice_index < table.len() {
        table.update(voice_index, entry)
    } else {
        Seq::new(
            (voice_index + 1) as nat,
            |i: int|
                if i < table.len() {
                    table[i]
                } else if i == voice_index {
                    entry
                } else {
                    None
                },
        )
    }
}

/// A voice without the note whose stop lies before `now`.
pub open spec fn expire_note(entry: Option<PlayingNote>, now: SampleTime) -> Option<PlayingNote> {
    match entry {
        Some(note) => if note.is_expired(now) {
            None
        } else {
            entry
        },
        None => None,
    }
}

/// The table without the notes whose stop lies before `now`.
pub open spec fn expire_table(table: VoiceTable, now: SampleTime) -> VoiceTable {
    Seq::new(table.len(), |i: int| expire_note(table[i], now))
}

/// True when a note plays in any voice of any slot.
pub open spec fn any_playing(slots: Seq<VoiceTable>) -> bool {
    exists|p: int, v: int|
        0 <= p < slots.len() && 0 <= v < slots[p].len() && (#[trigger] slots[p][v]) is Some
}

/// The stop commands for the notes in the first `count` voices of a table,
/// each at the given time.
pub open spec fn stop_commands(table: VoiceTable, count: int, time: Option<SampleTime>) -> Seq<
    VoiceCommand,
>
    decreases count,
{
    if count <= 0 {
        Seq::empty()
    } else {
        let before = stop_commands(table, count - 1, time);
        match table_get(table, count - 1) {
            Some(note) => before.push(VoiceCommand::Stop { voice: note.voice, time }),
            None => before,
        }
    }
}

/// The absolute time of a note in an event at `time` that lasts `duration`:
/// the offset of the player, the time of the event, and the note's delay as a
/// share of the duration.
pub open spec fn spec_note_event_time(
    time: SampleTime,
    duration: SampleTime,
    delay: u64,
    time_offset: SampleTime,
) -> SampleTime {
    saturated(
        time_offset + time + (spec_clamp(delay as int, 0, MICRO as int) * duration) / (
        MICRO as int),
    )
}

/// The glide rate that takes the pitch over `semitones` within the share
/// `glide` of an event that lasts `duration` sample frames:
/// `semitones / (duration_in_seconds * glide)`. Without a distance, a glide or a
/// duration the pitch applies at once.
pub open spec fn spec_glide_rate(glide: u64, semitones: int, samples_per_sec: u32, duration: u64)
    -> GlideRate {
    if glide == 0 || semitones == 0 || duration == 0 {
        GlideRate::Instant
    } else {
        GlideRate::SemitonesPerSecond(
            saturated(
                (semitones * samples_per_sec * MICRO * MICRO) / (duration as int * glide as int),
            ),
        )
    }
}

/// A glide without an amount applies at once, whatever the distance and the
/// duration.
pub proof fn lemma_glide_without_amount(semitones: int, samples_per_sec: u32, duration: u64)
    ensures
        spec_glide_rate(0, semitones, samples_per_sec, duration) == GlideRate::Instant,
{
}

/// A glide over the whole of an event that lasts one second covers the
/// distance in that second: its rate is the distance per second.
pub proof fn lemma_glide_over_one_second(semitones: int, samples_per_sec: u32)
    requires
        0 < semitones <= 255,
        samples_per_sec > 0,
    ensures
        spec_glide_rate(MICRO, semitones, samples_per_sec, samples_per_sec as u64)
            == GlideRate::SemitonesPerSecond((semitones * MICRO) as u64),
{
    let rate = samples_per_sec as int;
    assert((semitones * rate * MICRO * MICRO) / (rate * MICRO) == semitones * MICRO)
        by (nonlinear_arith)
        requires
            rate > 0,
            MICRO == 1_000_000,
    ;
    assert(semitones * MICRO <= 255 * 1_000_000) by (nonlinear_arith)
        requires
            0 < semitones <= 255,
            MICRO == 1_000_000,
    ;
}

/// The panning of a note event as a voice plays it: within `-1..=1`.
pub open spec fn spec_voice_panning(note_event: NoteEvent) -> i64 {
    spec_clamp(note_event.panning as int, -(MICRO as int), MICRO as int) as i64
}

/// A voice whose note, if it has no stop scheduled, stops at `time`.
pub open spec fn stop_pending_note(entry: Option<PlayingNote>, time: SampleTime) -> Option<
    PlayingNote,
> {
    match entry {
        Some(note) => if note.stop_time is None {
            Some(PlayingNote { stop_time: Some(time), ..note })
        } else {
            entry
        },
        None => None,
    }
}

/// The table in which every note has a stop scheduled: at `time`, where none
/// was scheduled before.
pub open spec fn stop_pending_table(table: VoiceTable, time: SampleTime) -> VoiceTable {
    Seq::new(table.len(), |v: int| stop_pending_note(table[v], time))
}

/// The notes in the first `count` voices of a table that have no stop
/// scheduled, in the order of the voices.
pub open spec fn pending_notes(table: VoiceTable, count: int) -> Seq<PlayingNote>
    decreases count,
{
    if count <= 0 {
        Seq::empty()
    } else {
        let before = pending_notes(table, count - 1);
        match table_get(table, count - 1) {
            Some(note) => if note.stop_time is None {
                before.push(note)
            } else {
                before
            },
            None => before,
        }
    }
}

/// The notes in the first `count` tables that have no stop scheduled, in the
/// order of the tables and of their voices.
pub open spec fn pending_in_slots(slots: Seq<VoiceTable>, count: int) -> Seq<PlayingNote>
    decreases count,
{
    if count <= 0 {
        Seq::empty()
    } else {
        pending_in_slots(slots, count - 1) + pending_notes(
            slots[count - 1],
            slots[count - 1].len() as int,
        )
    }
}

/// The commands that stop the given notes at `time`, one for each note.
pub open spec fn stops_at(notes: Seq<PlayingNote>, time: SampleTime) -> Seq<VoiceCommand> {
    Seq::new(
        notes.len(),
        |i: int| VoiceCommand::Stop { voice: notes[i].voice, time: Some(time) },
    )
}

/// A start of a voice that the backend has not confirmed yet: the voice, its
/// place in the tables, and what the tables held there before the start.
#[derive(Copy, Clone, Debug, PartialEq, Eq, Structural)]
pub struct UnconfirmedStart {
    /// The voice that was started.
    pub voice: VoiceId,
    /// The pattern slot of the note.
    pub pattern_index: usize,
    /// The voice of the slot in which the note plays.
    pub voice_index: usize,
    /// The note that the start replaced, if one played there.
    pub replaced: Option<PlayingNote>,
    /// The count of the voices of the slot before the start.
    pub voices: usize,
}

/// The place of the last of the starts that started the given voice, if one
/// of them did.
pub open spec fn spec_last_start(starts: Seq<UnconfirmedStart>, voice: VoiceId) -> Option<int>
    decreases starts.len(),
{
    if starts.len() == 0 {
        None
    } else if starts.last().voice == voice {
        Some(starts.len() - 1)
    } else {
        spec_last_start(starts.drop_last(), voice)
    }
}

/// The table as it was before a start in the voice `voice_index`: the voice
/// holds what the start replaced, and where the start made the table longer
/// and no note plays in the voices that it added, the table has the `voices`
/// voices that it had.
pub open spec fn table_restored(
    table: VoiceTable,
    voice_index: int,
    replaced: Option<PlayingNote>,
    voices: int,
) -> VoiceTable {
    let put = table.update(voice_index, replaced);
    if 0 <= voices <= voice_index && (forall|k: int|
        voices <= k < put.len() ==> (#[trigger] put[k]) is None) {
        put.take(voices)
    } else {
        put
    }
}

/// The starts after the start at the place `i` was refused while a later
/// start has taken its place in the tables: a later start in the same voice
/// that replaced the note of the refused one has replaced what that one
/// replaced.
pub open spec fn starts_patched(starts: Seq<UnconfirmedStart>, i: int) -> Seq<UnconfirmedStart> {
    Seq::new(starts.len(), |k: int| patched_start(starts[k], k > i, starts[i]))
}

/// A start after the start `refused` was refused, if it is a later one.
pub open spec fn patched_start(start: UnconfirmedStart, later: bool, refused: UnconfirmedStart)
    -> UnconfirmedStart {
    if later && start.pattern_index == refused.pattern_index && start.voice_index
        == refused.voice_index && start.replaced is Some && start.replaced->0.voice
        == refused.voice {
        UnconfirmedStart { replaced: refused.replaced, voices: refused.voices, ..start }
    } else {
        start
    }
}

/// True when every command from the place `from` on stops a voice at a time
/// that is no later than `limit`.
pub open spec fn stops_by(commands: Seq<VoiceCommand>, from: int, limit: SampleTime) -> bool {
    forall|k: int|
        from <= k < commands.len() ==> match #[trigger] commands[k] {
            VoiceCommand::Stop { voice, time } => time is Some && time->0 <= limit,
            _ => false,
        }
}

/// True when every note of the tables has a stop scheduled.
pub open spec fn all_stops_scheduled(slots: Seq<VoiceTable>) -> bool {
    forall|p: int, v: int|
        0 <= p < slots.len() && 0 <= v < slots[p].len() ==> ((#[trigger] slots[p][v]) matches Some(
            note,
        ) ==> note.stop_time is Some)
}

} // verus!
