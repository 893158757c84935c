use pattrns::callback::{LuaCallback, ScriptEngine};
use pattrns::context::CallbackContext;
use pattrns::emitter::ScriptedEmitter;
use pattrns::event::{Event, InstrumentId, NoteEvent, PatternEvent};
use pattrns::note::{Note, C4, C5};
use pattrns::pattern::{Pattern, TimeUnit};
use pattrns::player::{add_times, SamplePlayer, PLAYBACK_POS_EMIT_RATE, PLAYBACK_PRELOAD};
use pattrns::player_model::{RunAction, MAX_SLEEP_TIME};
use pattrns::pool::{SampleHandle, SamplePool};
use pattrns::script::{
    CallbackErrors, EnvironmentHandle, FunctionHandle, ScriptError, ScriptValue,
};
use pattrns::sequence::{PatternSlot, Sequence};
use pattrns::time::{BeatTimeBase, MICRO};
use pattrns::voice::{
    GlideRate, NewNoteAction, PlayingNote, SamplePlaybackContext, VoiceCommand, VoiceGlide,
    VoiceId, VoiceStart, DEFAULT_FADE_OUT,
};

/// An engine whose functions return the notes that were written down for
/// them, one vector per call, over and over.
struct ScoreEngine {
    scores: Vec<Vec<Vec<Option<NoteEvent>>>>,
    calls: Vec<usize>,
}

impl ScoreEngine {
    fn new(scores: Vec<Vec<Vec<Option<NoteEvent>>>>) -> Self {
        let calls = vec![0; scores.len()];
        Self { scores, calls }
    }
}

impl ScriptEngine for ScoreEngine {
    fn call(
        &mut self,
        function: FunctionHandle,
        _context: &CallbackContext,
        _argument: &ScriptValue,
    ) -> Result<ScriptValue, ScriptError> {
        let score = &self.scores[function.0];
        let notes = score[self.calls[function.0] % score.len()].clone();
        self.calls[function.0] += 1;
        Ok(ScriptValue::Notes(notes))
    }

    fn environment(&mut self, _function: FunctionHandle) -> Option<EnvironmentHandle> {
        None
    }

    fn set_environment(
        &mut self,
        _function: FunctionHandle,
        _environment: EnvironmentHandle,
    ) -> Result<(), ScriptError> {
        Ok(())
    }

    fn function_name(&mut self, _function: FunctionHandle) -> Option<String> {
        None
    }
}

fn time_base() -> BeatTimeBase {
    BeatTimeBase::new(120, 4, 44100).unwrap()
}

fn pattern(engine: &mut ScoreEngine, function: usize, pulses: Vec<u64>) -> Pattern {
    let callback = LuaCallback::new(engine, FunctionHandle(function));
    let emitter = ScriptedEmitter::new(callback, &time_base());
    Pattern::new(time_base(), TimeUnit::Beats, MICRO, pulses, emitter, vec![]).unwrap()
}

fn empty_sequence(slots: usize) -> Sequence {
    let mut pattern_slots = Vec::new();
    for _ in 0..slots {
        pattern_slots.push(PatternSlot::Stop);
    }
    Sequence::new(time_base(), pattern_slots).unwrap()
}

fn player_with_slots(slots: usize) -> SamplePlayer {
    let mut player = SamplePlayer::new(44100);
    player.reset_playback_position(&empty_sequence(slots), 0);
    assert_eq!(player.take_commands(), vec![VoiceCommand::StopAll]);
    assert_eq!(player.pattern_slot_count(), slots);
    player
}

fn pool_with_samples(count: usize) -> SamplePool {
    let mut pool = SamplePool::new();
    for i in 0..count {
        assert_eq!(pool.load_sample(SampleHandle(i)), Ok(InstrumentId(i)));
    }
    pool
}

fn note_on(note: u8, instrument: usize) -> NoteEvent {
    NoteEvent::from((Note(note), Some(InstrumentId(instrument))))
}

fn note_off() -> NoteEvent {
    NoteEvent::from(Note::off())
}

fn notes_at(time: u64, duration: u64, notes: Vec<Option<NoteEvent>>) -> PatternEvent {
    PatternEvent { time, duration, event: Some(Event::NoteEvents(notes)) }
}

fn start(voice: u64, slot: usize, voice_index: usize, note: &NoteEvent, time: u64) -> VoiceCommand {
    VoiceCommand::Start(VoiceStart {
        voice: VoiceId(voice),
        context: SamplePlaybackContext {
            pattern_index: Some(slot),
            voice_index: Some(voice_index),
        },
        instrument: note.instrument.unwrap(),
        key: note.note.transposed(Note(C5)),
        volume: note.volume,
        panning: note.panning,
        fade_out: Some(DEFAULT_FADE_OUT),
        playback_pos_emit_rate: PLAYBACK_POS_EMIT_RATE,
        time,
    })
}

fn stop(voice: u64, time: u64) -> VoiceCommand {
    VoiceCommand::Stop { voice: VoiceId(voice), time: Some(time) }
}

#[test]
fn a_new_player_has_the_defaults() {
    let player = SamplePlayer::new(48000);
    assert_eq!(player.sample_rate(), 48000);
    assert_eq!(player.new_note_action(), NewNoteAction::Off(Some(100_000)));
    assert_eq!(player.new_note_action(), NewNoteAction::default());
    assert_eq!(player.sample_root_note(), Note(C5));
    assert_eq!(player.playback_pos_emit_rate(), 1_000_000);
    assert_eq!(player.preload(), PLAYBACK_PRELOAD);
    assert!(!player.show_events());
    assert_eq!(player.pattern_slot_count(), 0);
}

#[test]
fn setters_change_one_setting() {
    let mut player = SamplePlayer::new(44100);
    player.set_show_events(true);
    player.set_new_note_action(NewNoteAction::Stop);
    player.set_sample_root_note(Note(C4));
    player.set_playback_pos_emit_rate(250_000);
    player.set_preload(2 * MICRO);
    assert!(player.show_events());
    assert_eq!(player.new_note_action(), NewNoteAction::Stop);
    assert_eq!(player.sample_root_note(), Note(C4));
    assert_eq!(player.playback_pos_emit_rate(), 250_000);
    assert_eq!(player.preload(), 2 * MICRO);
    assert_eq!(player.sample_rate(), 44100);
    assert_eq!(player.take_commands(), vec![]);
}

#[test]
fn a_note_on_starts_a_voice_and_is_tracked() {
    let pool = pool_with_samples(1);
    let mut player = player_with_slots(2);
    let note = note_on(C4, 0);
    player.handle_pattern_event(1, &notes_at(100, 22050, vec![None, Some(note)]), 1000, &pool);
    assert_eq!(player.take_commands(), vec![start(0, 1, 1, &note, 1100)]);
    assert_eq!(
        player.playing_note(1, 1),
        Some(PlayingNote { voice: VoiceId(0), note: Note(C4), stop_time: None })
    );
    assert_eq!(player.playing_note(1, 0), None);
    assert_eq!(player.playing_note(0, 1), None);
    assert_eq!(player.playing_note(2, 0), None);
    assert_eq!(player.take_commands(), vec![]);
}

#[test]
fn the_key_follows_the_root_note() {
    let pool = pool_with_samples(1);
    let mut player = player_with_slots(1);
    player.set_sample_root_note(Note(C4));
    let note = note_on(C4 + 7, 0);
    player.handle_pattern_event(0, &notes_at(0, 10, vec![Some(note)]), 0, &pool);
    match player.take_commands()[0] {
        VoiceCommand::Start(start) => assert_eq!(start.key, 67),
        _ => panic!("expected a start"),
    }
}

#[test]
fn a_note_without_a_sample_is_dropped() {
    let pool = pool_with_samples(1);
    let mut player = player_with_slots(1);
    player.handle_pattern_event(0, &notes_at(0, 10, vec![Some(note_on(C4, 5))]), 0, &pool);
    assert_eq!(player.take_commands(), vec![]);
    assert_eq!(player.playing_note(0, 0), None);
    // a note without an instrument starts nothing either
    let bare = NoteEvent::from(Note(C4));
    player.handle_pattern_event(0, &notes_at(0, 10, vec![Some(bare)]), 0, &pool);
    assert_eq!(player.take_commands(), vec![]);
}

#[test]
fn a_new_note_stops_the_old_one_first() {
    let pool = pool_with_samples(1);
    let mut player = player_with_slots(1);
    let first = note_on(C4, 0);
    let second = note_on(C4 + 2, 0);
    player.handle_pattern_event(0, &notes_at(0, 22050, vec![Some(first)]), 0, &pool);
    player.handle_pattern_event(0, &notes_at(22050, 22050, vec![Some(second)]), 0, &pool);
    assert_eq!(
        player.take_commands(),
        vec![start(0, 0, 0, &first, 0), stop(0, 22050), start(1, 0, 0, &second, 22050)]
    );
    assert_eq!(
        player.playing_note(0, 0),
        Some(PlayingNote { voice: VoiceId(1), note: Note(C4 + 2), stop_time: None })
    );
}

#[test]
fn continue_layers_new_notes() {
    let pool = pool_with_samples(1);
    let mut player = player_with_slots(1);
    player.set_new_note_action(NewNoteAction::Continue);
    let first = note_on(C4, 0);
    let second = note_on(C4 + 2, 0);
    player.handle_pattern_event(0, &notes_at(0, 22050, vec![Some(first)]), 0, &pool);
    player.handle_pattern_event(0, &notes_at(22050, 22050, vec![Some(second)]), 0, &pool);
    let commands = player.take_commands();
    assert_eq!(commands.len(), 2);
    assert!(matches!(commands[0], VoiceCommand::Start(_)));
    assert!(matches!(commands[1], VoiceCommand::Start(_)));
    // a note-off still stops
    player.handle_pattern_event(0, &notes_at(44100, 22050, vec![Some(note_off())]), 0, &pool);
    assert_eq!(player.take_commands(), vec![stop(1, 44100)]);
}

#[test]
fn the_fade_out_follows_the_new_note_action() {
    let pool = pool_with_samples(1);
    for (action, fade_out) in [
        (NewNoteAction::Continue, Some(100_000)),
        (NewNoteAction::Stop, Some(100_000)),
        (NewNoteAction::Off(None), None),
        (NewNoteAction::Off(Some(5)), Some(5)),
    ] {
        assert_eq!(action.fade_out(), fade_out);
        let mut player = player_with_slots(1);
        player.set_new_note_action(action);
        player.handle_pattern_event(0, &notes_at(0, 10, vec![Some(note_on(C4, 0))]), 0, &pool);
        match player.take_commands()[0] {
            VoiceCommand::Start(start) => assert_eq!(start.fade_out, fade_out),
            _ => panic!("expected a start"),
        }
    }
}

#[test]
fn a_note_off_stops_once() {
    let pool = pool_with_samples(1);
    let mut player = player_with_slots(1);
    let note = note_on(C4, 0);
    player.handle_pattern_event(0, &notes_at(0, 100, vec![Some(note)]), 0, &pool);
    player.handle_pattern_event(0, &notes_at(100, 100, vec![Some(note_off())]), 0, &pool);
    // a later note-off does not move the stop
    let mut late = note_off();
    late.delay = MICRO / 2;
    player.handle_pattern_event(0, &notes_at(100, 100, vec![Some(late)]), 0, &pool);
    assert_eq!(player.take_commands(), vec![start(0, 0, 0, &note, 0), stop(0, 100)]);
    assert_eq!(player.playing_note(0, 0).unwrap().stop_time, Some(100));
    // a note-off in a voice without a note does nothing
    player.handle_pattern_event(0, &notes_at(100, 100, vec![None, Some(note_off())]), 0, &pool);
    assert_eq!(player.take_commands(), vec![]);
}

#[test]
fn an_earlier_note_off_moves_the_stop() {
    let pool = pool_with_samples(1);
    let mut player = player_with_slots(1);
    let note = note_on(C4, 0);
    let mut late = note_off();
    late.delay = MICRO;
    player.handle_pattern_event(0, &notes_at(0, 100, vec![Some(note)]), 0, &pool);
    player.handle_pattern_event(0, &notes_at(100, 100, vec![Some(late)]), 0, &pool);
    player.handle_pattern_event(0, &notes_at(150, 100, vec![Some(note_off())]), 0, &pool);
    assert_eq!(
        player.take_commands(),
        vec![start(0, 0, 0, &note, 0), stop(0, 200), stop(0, 150)]
    );
    assert_eq!(player.playing_note(0, 0).unwrap().stop_time, Some(150));
}

#[test]
fn stopped_notes_are_forgotten_once_their_stop_has_passed() {
    let pool = pool_with_samples(1);
    let mut player = player_with_slots(1);
    player.handle_pattern_event(0, &notes_at(0, 100, vec![Some(note_on(C4, 0))]), 7, &pool);
    player.handle_pattern_event(0, &notes_at(100, 100, vec![Some(note_off())]), 7, &pool);
    assert_eq!(player.playing_note(0, 0).unwrap().stop_time, Some(107));
    // at the time of the stop the note is still known
    player.handle_pattern_event(0, &PatternEvent { time: 100, duration: 1, event: None }, 7, &pool);
    assert!(player.playing_note(0, 0).is_some());
    player.handle_pattern_event(0, &PatternEvent { time: 101, duration: 1, event: None }, 7, &pool);
    assert_eq!(player.playing_note(0, 0), None);
}

#[test]
fn the_delay_is_a_share_of_the_duration() {
    let event = notes_at(1000, 22050, vec![]);
    let mut note = note_on(C4, 0);
    assert_eq!(SamplePlayer::note_event_time(&event, &note, 10), 1010);
    note.delay = 250_000;
    assert_eq!(SamplePlayer::note_event_time(&event, &note, 10), 1010 + 5512);
    note.delay = MICRO;
    assert_eq!(SamplePlayer::note_event_time(&event, &note, 10), 1010 + 22050);
    // delays beyond the duration are cut
    note.delay = 2 * MICRO;
    assert_eq!(SamplePlayer::note_event_time(&event, &note, 10), 1010 + 22050);
    // times saturate
    assert_eq!(SamplePlayer::note_event_time(&event, &note, u64::MAX), u64::MAX);
    assert_eq!(add_times(u64::MAX - 1, 5), u64::MAX);
    assert_eq!(add_times(1, 5), 6);
}

#[test]
fn a_delayed_note_starts_late() {
    let pool = pool_with_samples(1);
    let mut player = player_with_slots(1);
    let mut note = note_on(C4, 0);
    note.delay = 500_000;
    player.handle_pattern_event(0, &notes_at(0, 22050, vec![Some(note)]), 0, &pool);
    assert_eq!(player.take_commands(), vec![start(0, 0, 0, &note, 11025)]);
}

#[test]
fn glide_rates() {
    // no glide amount: the pitch applies at once
    assert_eq!(
        SamplePlayer::note_glide_value(0, Note(48), Note(50), 44100, 44100),
        GlideRate::Instant
    );
    // two semitones over an event of one second
    assert_eq!(
        SamplePlayer::note_glide_value(MICRO, Note(48), Note(50), 44100, 44100),
        GlideRate::SemitonesPerSecond(2_000_000)
    );
    assert_eq!(
        SamplePlayer::note_glide_value(MICRO, Note(50), Note(48), 44100, 44100),
        GlideRate::SemitonesPerSecond(2_000_000)
    );
    // half the event: twice as fast
    assert_eq!(
        SamplePlayer::note_glide_value(MICRO / 2, Note(48), Note(50), 44100, 44100),
        GlideRate::SemitonesPerSecond(4_000_000)
    );
    // half a second, twelve semitones
    assert_eq!(
        SamplePlayer::note_glide_value(MICRO, Note(48), Note(60), 44100, 22050),
        GlideRate::SemitonesPerSecond(24_000_000)
    );
    // no distance, no duration
    assert_eq!(
        SamplePlayer::note_glide_value(MICRO, Note(48), Note(48), 44100, 44100),
        GlideRate::Instant
    );
    assert_eq!(
        SamplePlayer::note_glide_value(MICRO, Note(48), Note(50), 44100, 0),
        GlideRate::Instant
    );
    // the rate saturates
    assert_eq!(
        SamplePlayer::note_glide_value(1, Note(0), Note(255), u32::MAX, 1),
        GlideRate::SemitonesPerSecond(u64::MAX)
    );
}

#[test]
fn a_gliding_note_moves_the_playing_voice() {
    let pool = pool_with_samples(1);
    let mut player = player_with_slots(1);
    let first = note_on(C4, 0);
    let mut second = note_on(C4 + 2, 0);
    second.glide = Some(MICRO);
    second.volume = 500_000;
    second.panning = 3 * MICRO as i64;
    player.handle_pattern_event(0, &notes_at(0, 44100, vec![Some(first)]), 0, &pool);
    player.handle_pattern_event(0, &notes_at(44100, 44100, vec![Some(second)]), 0, &pool);
    assert_eq!(
        player.take_commands(),
        vec![
            start(0, 0, 0, &first, 0),
            VoiceCommand::Glide(VoiceGlide {
                voice: VoiceId(0),
                key: 50,
                rate: GlideRate::SemitonesPerSecond(2_000_000),
                volume: 500_000,
                panning: 1_000_000,
                time: 44100,
            }),
        ]
    );
    // the voice is still tracked under the note that it was started with
    assert_eq!(
        player.playing_note(0, 0),
        Some(PlayingNote { voice: VoiceId(0), note: Note(C4), stop_time: None })
    );
}

#[test]
fn a_gliding_note_without_a_voice_starts_one() {
    let pool = pool_with_samples(1);
    let mut player = player_with_slots(1);
    let mut note = note_on(C4, 0);
    note.glide = Some(0);
    player.handle_pattern_event(0, &notes_at(0, 44100, vec![Some(note)]), 0, &pool);
    assert_eq!(player.take_commands(), vec![start(0, 0, 0, &note, 0)]);
    // a voice that is stopped by then cannot be glided either
    player.handle_pattern_event(0, &notes_at(100, 100, vec![Some(note_off())]), 0, &pool);
    let mut late = note_on(C4 + 1, 0);
    late.glide = Some(MICRO);
    player.handle_pattern_event(0, &notes_at(100, 100, vec![Some(late)]), 0, &pool);
    assert_eq!(player.take_commands(), vec![stop(0, 100), start(1, 0, 0, &late, 100)]);
}

#[test]
fn a_play_glided_note_call_says_whether_it_glided() {
    let pool = pool_with_samples(1);
    let mut player = player_with_slots(1);
    let mut note = note_on(C4, 0);
    note.glide = Some(MICRO);
    let event = notes_at(0, 44100, vec![Some(note)]);
    assert!(!player.play_glided_note(0, 0, &event, &note, 0));
    player.play_new_note(0, 0, &note, InstrumentId(0), 0, &pool);
    assert!(player.play_glided_note(0, 0, &event, &note, 5));
    assert!(!player.play_glided_note(0, 1, &event, &note, 5));
    assert_eq!(player.take_commands().len(), 2);
}

#[test]
fn voices_of_one_event_are_handled_in_order() {
    let pool = pool_with_samples(2);
    let mut player = player_with_slots(1);
    let low = note_on(C4, 0);
    let high = note_on(C4 + 12, 1);
    player.handle_pattern_event(0, &notes_at(0, 100, vec![Some(low), Some(high)]), 0, &pool);
    player.handle_pattern_event(
        0,
        &notes_at(100, 100, vec![Some(high), None, Some(low)]),
        0,
        &pool,
    );
    assert_eq!(
        player.take_commands(),
        vec![
            start(0, 0, 0, &low, 0),
            start(1, 0, 1, &high, 0),
            stop(0, 100),
            start(2, 0, 0, &high, 100),
            start(3, 0, 2, &low, 100),
        ]
    );
    assert_eq!(player.playing_note(0, 1).unwrap().voice, VoiceId(1));
}

#[test]
fn note_offs_alone_start_nothing() {
    let pool = pool_with_samples(1);
    let mut player = player_with_slots(1);
    let note = note_on(C4, 0);
    player.handle_pattern_event(0, &notes_at(0, 100, vec![Some(note), Some(note)]), 0, &pool);
    player.take_commands();
    player.handle_pattern_event_note_offs(
        0,
        0,
        &notes_at(100, 100, vec![Some(note_on(C4 + 1, 0)), Some(note_off()), Some(note_off())]),
    );
    assert_eq!(player.take_commands(), vec![stop(0, 100), stop(1, 100)]);
    assert_eq!(player.playing_note(0, 0).unwrap().note, Note(C4));
    assert_eq!(player.playing_note(0, 0).unwrap().stop_time, Some(100));
    assert_eq!(player.playing_note(0, 2), None);
}

#[test]
fn stop_all_sources_forgets_every_voice() {
    let pool = pool_with_samples(1);
    let mut player = player_with_slots(2);
    player.handle_pattern_event(0, &notes_at(0, 100, vec![Some(note_on(C4, 0))]), 0, &pool);
    player.handle_pattern_event(1, &notes_at(0, 100, vec![Some(note_on(C4, 0))]), 0, &pool);
    player.take_commands();
    player.stop_all_sources();
    assert_eq!(player.take_commands(), vec![VoiceCommand::StopAll]);
    assert_eq!(player.playing_note(0, 0), None);
    assert_eq!(player.playing_note(1, 0), None);
    assert_eq!(player.pattern_slot_count(), 2);
    // safe to call when nothing is playing
    player.stop_all_sources();
    assert_eq!(player.take_commands(), vec![VoiceCommand::StopAll]);
}

#[test]
fn stop_sources_in_pattern_slot_stops_each_voice_of_the_slot() {
    let pool = pool_with_samples(1);
    let mut player = player_with_slots(2);
    let note = note_on(C4, 0);
    player.handle_pattern_event(0, &notes_at(0, 100, vec![Some(note), None, Some(note)]), 0, &pool);
    player.handle_pattern_event(1, &notes_at(0, 100, vec![Some(note)]), 0, &pool);
    player.take_commands();
    player.stop_sources_in_pattern_slot(0);
    assert_eq!(
        player.take_commands(),
        vec![
            VoiceCommand::Stop { voice: VoiceId(0), time: None },
            VoiceCommand::Stop { voice: VoiceId(1), time: None },
        ]
    );
    assert_eq!(player.playing_note(0, 0), None);
    assert_eq!(player.playing_note(0, 2), None);
    assert!(player.playing_note(1, 0).is_some());
}

#[test]
fn playback_contexts_of_events() {
    let context = SamplePlaybackContext { pattern_index: Some(1), voice_index: Some(2) };
    assert_eq!(SamplePlaybackContext::from_event(Some(context)), context);
    assert_eq!(
        SamplePlaybackContext::from_event(None),
        SamplePlaybackContext { pattern_index: None, voice_index: None }
    );
}

#[test]
fn a_replaced_sequence_without_a_previous_one_stops_at_the_swap() {
    let pool = pool_with_samples(1);
    let mut engine = ScoreEngine::new(vec![vec![vec![Some(note_on(C4, 0))]]]);
    let mut errors = CallbackErrors::new();
    let mut player = player_with_slots(2);
    let note = note_on(C4, 0);
    player.handle_pattern_event(0, &notes_at(0, 100, vec![Some(note), Some(note)]), 500, &pool);
    player.handle_pattern_event(1, &notes_at(0, 100, vec![Some(note)]), 500, &pool);
    // one voice has its stop already
    player.handle_pattern_event(0, &notes_at(10, 100, vec![Some(note_off())]), 500, &pool);
    player.take_commands();
    let mut sequence = Sequence::new(
        time_base(),
        vec![PatternSlot::Pattern(pattern(&mut engine, 0, vec![MICRO]))],
    )
    .unwrap();
    player.prepare_run_until_time(None, &mut sequence, &mut engine, &mut errors, 500, 30000);
    // exactly one stop for each voice that had none, at the time of the swap
    assert_eq!(player.take_commands(), vec![stop(1, 30500), stop(2, 30500)]);
    assert_eq!(player.pattern_slot_count(), 1);
    assert_eq!(player.playing_note(0, 0).unwrap().stop_time, Some(510));
    assert_eq!(player.playing_note(0, 1).unwrap().stop_time, Some(30500));
    assert_eq!(player.playing_note(1, 0), None);
    // the new sequence is at the time of the swap
    assert_eq!(sequence.next_due(30000), None);
    assert_eq!(sequence.next_due(44101), Some(0));
    // preparing again stops nothing again
    player.prepare_run_until_time(None, &mut sequence, &mut engine, &mut errors, 500, 30000);
    assert_eq!(player.take_commands(), vec![]);
}

#[test]
fn a_replaced_sequence_is_looked_through_for_stops() {
    let pool = pool_with_samples(1);
    // the previous sequence plays a note and then turns it off, over and over
    let mut engine = ScoreEngine::new(vec![
        vec![vec![Some(note_on(C4, 0))], vec![Some(note_off())]],
        vec![vec![]],
    ]);
    let mut errors = CallbackErrors::new();
    let mut previous = Sequence::new(
        time_base(),
        vec![
            PatternSlot::Pattern(pattern(&mut engine, 0, vec![MICRO])),
            PatternSlot::Pattern(pattern(&mut engine, 1, vec![MICRO])),
        ],
    )
    .unwrap();
    let mut player = SamplePlayer::new(44100);
    player.reset_playback_position(&previous, 1000);
    player.take_commands();
    // run the first beat: the note starts
    let events = player.run_until_time(&mut previous, &mut engine, &mut errors, &pool, 1000, 22050);
    assert_eq!(events.len(), 2);
    assert_eq!(player.take_commands(), vec![start(0, 0, 0, &note_on(C4, 0), 1000)]);
    // a voice that the previous sequence never stops
    player.play_new_note(1, 0, &note_on(C4, 0), InstrumentId(0), 1000, &pool);
    player.take_commands();
    // replace the sequence: the stop of the note is found in the previous one
    let mut sequence = empty_sequence(2);
    player.prepare_run_until_time(
        Some(&mut previous),
        &mut sequence,
        &mut engine,
        &mut errors,
        1000,
        22050,
    );
    // the horizon: the swap and four steps of a beat, as the backend counts
    let horizon = 1000 + 22050 + 4 * 22050;
    assert_eq!(player.take_commands(), vec![stop(0, 1000 + 22050), stop(1, horizon)]);
    assert_eq!(player.playing_note(0, 0).unwrap().stop_time, Some(23050));
    assert_eq!(player.playing_note(1, 0).unwrap().stop_time, Some(horizon));
    // the previous sequence was run for four more steps of its own time, and no further
    let lookup = 22050 + 4 * 22050;
    assert_eq!(previous.next_due(lookup), None);
    assert_eq!(previous.next_due(lookup + 1), Some(0));
    assert!(errors_are_empty(&errors));
}

#[test]
fn a_stop_that_is_found_after_the_horizon_is_made_at_the_horizon() {
    let pool = pool_with_samples(1);
    // the previous sequence turns its note off late in the step
    let late_off = NoteEvent { delay: 500_000, ..note_off() };
    let mut engine = ScoreEngine::new(vec![vec![
        vec![Some(note_on(C4, 0))],
        vec![Some(note_on(C4, 0))],
        vec![Some(note_on(C4, 0))],
        vec![Some(note_on(C4, 0))],
        vec![Some(late_off)],
    ]]);
    let mut errors = CallbackErrors::new();
    let mut previous = Sequence::new(
        time_base(),
        vec![PatternSlot::Pattern(pattern(&mut engine, 0, vec![MICRO]))],
    )
    .unwrap();
    let mut player = SamplePlayer::new(44100);
    // new notes end no note
    player.set_new_note_action(NewNoteAction::Continue);
    player.reset_playback_position(&previous, 0);
    player.take_commands();
    player.run_until_time(&mut previous, &mut engine, &mut errors, &pool, 0, 1);
    assert_eq!(player.take_commands().len(), 1);
    let mut sequence = empty_sequence(1);
    player.prepare_run_until_time(
        Some(&mut previous),
        &mut sequence,
        &mut engine,
        &mut errors,
        0,
        1,
    );
    // the note-off of the fifth step is looked at, but it is due after the horizon
    let horizon = 1 + 4 * 22050;
    assert_eq!(previous.next_due(horizon), None);
    assert_eq!(player.take_commands(), vec![stop(0, horizon)]);
    assert_eq!(player.playing_note(0, 0).unwrap().stop_time, Some(horizon));
}

#[test]
fn note_offs_up_to_a_limit() {
    let pool = pool_with_samples(1);
    let mut player = player_with_slots(1);
    player.play_new_note(0, 0, &note_on(C4, 0), InstrumentId(0), 0, &pool);
    player.play_new_note(0, 1, &note_on(C4, 0), InstrumentId(0), 0, &pool);
    player.take_commands();
    let late_off = NoteEvent { delay: 500_000, ..note_off() };
    let event = notes_at(1000, 100, vec![Some(note_off()), Some(late_off)]);
    // the second stop is due at 1150, after the limit
    player.handle_pattern_event_note_offs_until(100, 0, &event, 1100);
    assert_eq!(player.take_commands(), vec![stop(0, 1100)]);
    assert_eq!(player.playing_note(0, 0).unwrap().stop_time, Some(1100));
    assert_eq!(player.playing_note(0, 1).unwrap().stop_time, None);
    // without a limit it is made
    player.handle_pattern_event_note_offs(100, 0, &event);
    assert_eq!(player.take_commands(), vec![stop(1, 1150)]);
}

#[test]
fn a_refused_start_is_taken_back() {
    let pool = pool_with_samples(1);
    let mut player = player_with_slots(2);
    player.play_new_note(0, 0, &note_on(C4, 0), InstrumentId(0), 0, &pool);
    player.play_new_note(1, 2, &note_on(C4 + 2, 0), InstrumentId(0), 10, &pool);
    let commands = player.take_commands();
    assert_eq!(commands.len(), 2);
    let voice = match &commands[1] {
        VoiceCommand::Start(start) => start.voice,
        other => panic!("unexpected command {:?}", other),
    };
    let first = player.playing_note(0, 0);
    assert!(player.playing_note(1, 2).is_some());
    player.start_confirmed(VoiceId(0));
    player.start_failed(voice);
    // the voice is not tracked, the other one is, and no command is issued
    assert_eq!(player.playing_note(1, 2), None);
    assert_eq!(player.playing_note(0, 0), first);
    assert_eq!(player.take_commands(), vec![]);
    // taking back a start twice, or one that was confirmed, changes nothing
    player.start_failed(voice);
    player.start_failed(VoiceId(0));
    assert_eq!(player.playing_note(0, 0), first);
    assert_eq!(player.pattern_slot_count(), 2);
}

#[test]
fn a_refused_start_gives_back_the_note_that_it_replaced() {
    let pool = pool_with_samples(1);
    let mut player = player_with_slots(1);
    // new notes end no note
    player.set_new_note_action(NewNoteAction::Continue);
    player.play_new_note(0, 0, &note_on(C4, 0), InstrumentId(0), 0, &pool);
    player.start_confirmed(VoiceId(0));
    let playing = player.playing_note(0, 0);
    assert_eq!(playing.unwrap().voice, VoiceId(0));
    // a second note in the voice, which the backend refuses
    player.play_new_note(0, 0, &note_on(C4 + 7, 0), InstrumentId(0), 100, &pool);
    assert_eq!(player.playing_note(0, 0).unwrap().voice, VoiceId(1));
    player.start_failed(VoiceId(1));
    assert_eq!(player.playing_note(0, 0), playing);
    player.take_commands();
    // the note that still sounds is stopped by a later note-off
    player.handle_pattern_event(0, &notes_at(200, 100, vec![Some(note_off())]), 0, &pool);
    assert_eq!(player.take_commands(), vec![stop(0, 200)]);
}

#[test]
fn refused_starts_in_one_voice_are_taken_back_in_turn() {
    let pool = pool_with_samples(1);
    let mut player = player_with_slots(1);
    player.set_new_note_action(NewNoteAction::Continue);
    player.play_new_note(0, 0, &note_on(C4, 0), InstrumentId(0), 0, &pool);
    player.start_confirmed(VoiceId(0));
    let playing = player.playing_note(0, 0);
    player.play_new_note(0, 0, &note_on(C4 + 2, 0), InstrumentId(0), 10, &pool);
    player.play_new_note(0, 0, &note_on(C4 + 4, 0), InstrumentId(0), 20, &pool);
    // the earlier start is refused while the later one holds the voice
    player.start_failed(VoiceId(1));
    assert_eq!(player.playing_note(0, 0).unwrap().voice, VoiceId(2));
    // then the later one is refused too: the first note is back
    player.start_failed(VoiceId(2));
    assert_eq!(player.playing_note(0, 0), playing);
    // a start in a voice that the slot did not have leaves no voice behind
    player.play_new_note(0, 5, &note_on(C4, 0), InstrumentId(0), 30, &pool);
    assert!(player.playing_note(0, 5).is_some());
    player.start_failed(VoiceId(3));
    assert_eq!(player.playing_note(0, 5), None);
    assert_eq!(player.playing_note(0, 0), playing);
}

fn errors_are_empty(errors: &CallbackErrors) -> bool {
    pattrns::script::has_lua_callback_errors(errors).is_none()
}

#[test]
fn nothing_playing_leaves_the_previous_sequence_alone() {
    let mut engine = ScoreEngine::new(vec![vec![vec![Some(note_on(C4, 0))]]]);
    let mut errors = CallbackErrors::new();
    let mut previous = Sequence::new(
        time_base(),
        vec![PatternSlot::Pattern(pattern(&mut engine, 0, vec![MICRO]))],
    )
    .unwrap();
    let mut sequence = empty_sequence(3);
    let mut player = player_with_slots(1);
    player.prepare_run_until_time(
        Some(&mut previous),
        &mut sequence,
        &mut engine,
        &mut errors,
        0,
        44100,
    );
    assert_eq!(player.take_commands(), vec![]);
    assert_eq!(player.pattern_slot_count(), 3);
    assert_eq!(previous.next_due(1), Some(0));
    assert_eq!(engine.calls[0], 0);
}

#[test]
fn run_until_time_handles_events_in_the_order_of_their_times() {
    let pool = pool_with_samples(2);
    let mut engine = ScoreEngine::new(vec![
        vec![vec![Some(note_on(C4, 0))]],
        vec![vec![Some(note_on(C4 + 7, 1))]],
    ]);
    let mut errors = CallbackErrors::new();
    let fast = Pattern::new(
        time_base(),
        TimeUnit::Beats,
        MICRO / 2,
        vec![MICRO],
        ScriptedEmitter::new(LuaCallback::new(&mut engine, FunctionHandle(1)), &time_base()),
        vec![],
    )
    .unwrap();
    let mut sequence = Sequence::new(
        time_base(),
        vec![
            PatternSlot::Pattern(pattern(&mut engine, 0, vec![MICRO])),
            PatternSlot::Continue,
            PatternSlot::Pattern(fast),
        ],
    )
    .unwrap();
    let mut player = SamplePlayer::new(44100);
    player.reset_playback_position(&sequence, 0);
    player.take_commands();
    let events = player.run_until_time(&mut sequence, &mut engine, &mut errors, &pool, 0, 22051);
    let order: Vec<(usize, u64)> = events.iter().map(|(slot, event)| (*slot, event.time)).collect();
    assert_eq!(order, vec![(0, 0), (2, 0), (2, 11025), (0, 22050), (2, 22050)]);
    let low = note_on(C4, 0);
    let high = note_on(C4 + 7, 1);
    assert_eq!(
        player.take_commands(),
        vec![
            start(0, 0, 0, &low, 0),
            start(1, 2, 0, &high, 0),
            stop(1, 11025),
            start(2, 2, 0, &high, 11025),
            stop(0, 22050),
            start(3, 0, 0, &low, 22050),
            stop(2, 22050),
            start(4, 2, 0, &high, 22050),
        ]
    );
    // nothing is due before the same time again
    assert_eq!(
        player.run_until_time(&mut sequence, &mut engine, &mut errors, &pool, 0, 22051),
        vec![]
    );
}

#[test]
fn advance_until_time_stops_everything_and_seeks() {
    let pool = pool_with_samples(1);
    let mut engine = ScoreEngine::new(vec![vec![vec![Some(note_on(C4, 0))]]]);
    let mut errors = CallbackErrors::new();
    let mut sequence = Sequence::new(
        time_base(),
        vec![PatternSlot::Pattern(pattern(&mut engine, 0, vec![MICRO]))],
    )
    .unwrap();
    let mut player = SamplePlayer::new(44100);
    player.reset_playback_position(&sequence, 0);
    player.run_until_time(&mut sequence, &mut engine, &mut errors, &pool, 0, 1);
    player.take_commands();
    player.advance_until_time(&mut sequence, &mut engine, &mut errors, 88200);
    assert_eq!(player.take_commands(), vec![VoiceCommand::StopAll]);
    assert_eq!(player.playing_note(0, 0), None);
    assert_eq!(sequence.next_due(88200), None);
    assert_eq!(sequence.next_due(88201), Some(0));
}

#[test]
fn a_run_emits_ahead_of_the_backend() {
    let time_base = time_base();
    let mut engine = ScoreEngine::new(vec![vec![vec![Some(note_on(C4, 0))]]]);
    let mut errors = CallbackErrors::new();
    let pool = pool_with_samples(1);
    let mut sequence = Sequence::new(
        time_base,
        vec![PatternSlot::Pattern(pattern(&mut engine, 0, vec![MICRO]))],
    )
    .unwrap();
    let mut player = SamplePlayer::new(44100);
    // the look-ahead of half a second is 22050 sample frames
    player.start_run(None, &mut sequence, &mut engine, &mut errors, false, 5000);
    assert_eq!(player.take_commands(), vec![VoiceCommand::StopAll]);
    assert_eq!(player.pattern_slot_count(), 1);
    // the first turn emits twice the look-ahead
    assert_eq!(player.next_run_action(&time_base, 5000), RunAction::Emit(44100));
    let (action, events) =
        player.run_until_step(&mut sequence, &mut engine, &mut errors, &pool, &time_base, 5000);
    assert_eq!(action, RunAction::Emit(44100));
    let times: Vec<u64> = events.iter().map(|(_, event)| event.time).collect();
    assert_eq!(times, vec![0, 22050]);
    let note = note_on(C4, 0);
    assert_eq!(
        player.take_commands(),
        vec![start(0, 0, 0, &note, 5000), stop(0, 27050), start(1, 0, 0, &note, 27050)]
    );
    // nothing has been played yet: sleep, but no longer than a tenth of a second
    assert_eq!(player.next_run_action(&time_base, 5000), RunAction::Sleep(MAX_SLEEP_TIME));
    let (action, events) =
        player.run_until_step(&mut sequence, &mut engine, &mut errors, &pool, &time_base, 5000);
    assert_eq!(action, RunAction::Sleep(100_000));
    assert!(events.is_empty());
    // 20000 sample frames later 2050 are missing for a look-ahead: 46485 microseconds
    assert_eq!(player.next_run_action(&time_base, 25000), RunAction::Sleep(46485));
    // once a look-ahead has been played, the run emits what has been played
    assert_eq!(player.next_run_action(&time_base, 27050), RunAction::Emit(22050));
    assert_eq!(player.next_run_action(&time_base, 28050), RunAction::Emit(23050));
    let (_, events) =
        player.run_until_step(&mut sequence, &mut engine, &mut errors, &pool, &time_base, 28050);
    let times: Vec<u64> = events.iter().map(|(_, event)| event.time).collect();
    assert_eq!(times, vec![44100, 66150]);
    // a backend that reports a position before the start has played nothing
    assert_eq!(player.next_run_action(&time_base, 0), RunAction::Sleep(MAX_SLEEP_TIME));
}

#[test]
fn a_resumed_run_takes_over_from_the_previous_sequence() {
    let time_base = time_base();
    let mut engine = ScoreEngine::new(vec![vec![vec![Some(note_on(C4, 0))]]]);
    let mut errors = CallbackErrors::new();
    let pool = pool_with_samples(1);
    let mut sequence = Sequence::new(
        time_base,
        vec![PatternSlot::Pattern(pattern(&mut engine, 0, vec![MICRO]))],
    )
    .unwrap();
    let mut player = SamplePlayer::new(44100);
    player.start_run(None, &mut sequence, &mut engine, &mut errors, false, 0);
    player.run_until_step(&mut sequence, &mut engine, &mut errors, &pool, &time_base, 0);
    player.take_commands();
    // the host replaces the sequence and does not hand in the previous one
    let mut replacement = empty_sequence(1);
    player.start_run(None, &mut replacement, &mut engine, &mut errors, false, 100);
    assert_eq!(player.take_commands(), vec![stop(1, 44100)]);
    // a reset stops everything at once
    player.start_run(None, &mut replacement, &mut engine, &mut errors, true, 100);
    assert_eq!(player.take_commands(), vec![VoiceCommand::StopAll]);
    assert_eq!(player.playing_note(0, 0), None);
}
