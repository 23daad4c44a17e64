use bbr::game::rhythm::RhythmGame;
use bbr::game::rhythm::Song;
use bbr::orchestrator::Feedback;
use bbr::orchestrator::Orchestrator;
use bbr::orchestrator::RunState;
use bbr::orchestrator::ToneCommand;
use bbr::sampler::SampleResult;
use bbr::orchestrator::HIT_THRESHOLD_SCALED;

/// A short song at tempo 1: a rest, then a pitched note due at tick 1
/// opening a two-iteration scoring window, then a long rest.
/// Timeline offsets: 0, 1, 3; total duration 10.
fn start_playing() -> Orchestrator {
    let song = Song::new(1, vec![(None, 1u32), (Some(440), 2u32), (None, 7u32)]);
    Orchestrator::new(RhythmGame::new(song))
}

#[test]
fn pitched_note_starts_tone_and_arms_window() {
    let mut orch = start_playing();
    let out = orch.advance();
    assert!(!out.game_over);
    assert_eq!(out.tone, ToneCommand::Start(440));
    assert!(out.sample_requested);
    assert!(out.rendered.is_some());
    assert_eq!(orch.window_expiry, Some(2));
    assert!(orch.points_available);
}

#[test]
fn valid_close_sample_scores_once_and_disarms() {
    let mut orch = start_playing();
    let out = orch.advance();
    assert!(out.sample_requested);
    let fb = orch.apply_sample(SampleResult::Distance(100));
    assert_eq!(fb, Feedback::Hit);
    assert_eq!(orch.engine.score, 1);
    assert!(!orch.points_available);
    // A later sample meets no armed window and changes nothing.
    let fb = orch.apply_sample(SampleResult::Distance(100));
    assert_eq!(fb, Feedback::Neutral);
    assert_eq!(orch.engine.score, 1);
}

#[test]
fn sample_at_threshold_or_timeout_is_a_miss() {
    let mut orch = start_playing();
    orch.advance();
    assert_eq!(orch.apply_sample(SampleResult::Distance(HIT_THRESHOLD_SCALED)), Feedback::Miss);
    assert_eq!(orch.engine.score, 0);
    assert!(orch.points_available);
    assert_eq!(orch.apply_sample(SampleResult::RiseTimeout), Feedback::Miss);
    assert_eq!(orch.apply_sample(SampleResult::FallTimeout), Feedback::Miss);
    assert_eq!(orch.apply_sample(SampleResult::Distance(HIT_THRESHOLD_SCALED - 1)), Feedback::Hit);
    assert_eq!(orch.engine.score, 1);
}

#[test]
fn unscored_window_disarms_at_expiry_with_tone_silenced() {
    let mut orch = start_playing();
    orch.advance();
    orch.apply_sample(SampleResult::RiseTimeout);
    // One iteration inside the window: nothing expires, tone left alone.
    let out = orch.advance();
    assert_eq!(out.tone, ToneCommand::Keep);
    assert!(!out.sample_requested);
    assert!(orch.points_available);
    // The window expires on the next iteration; the due rest also silences.
    let out = orch.advance();
    assert_eq!(out.tone, ToneCommand::Silence);
    assert_eq!(orch.window_expiry, None);
    assert!(!orch.points_available);
    assert_eq!(orch.engine.score, 0);
}

#[test]
fn game_ends_at_the_songs_total_duration() {
    let mut orch = start_playing();
    let mut iterations: u32 = 0;
    loop {
        let out = orch.advance();
        if out.game_over {
            break;
        }
        iterations += 1;
        assert!(iterations < 100, "game never ended");
    }
    // Total duration 10 at tempo 1: the tenth poll ends the game.
    assert_eq!(iterations, 9);
    assert_eq!(orch.state, RunState::GameOver);
    assert_eq!(orch.engine.current_tick, 10);
    assert_eq!(orch.engine.score, 0);
}

#[test]
fn feedback_clear_cadence() {
    let song = Song::new(4, vec![(None, 1u32), (Some(440), 2u32), (None, 7u32)]);
    let mut orch = Orchestrator::new(RhythmGame::new(song));
    // At tempo 4, only iterations 2, 6, 10, ... clear feedback.
    let expectations = [false, false, true, false, false, false, true];
    for &expected in expectations.iter() {
        let out = orch.advance();
        assert_eq!(out.clear_feedback, expected);
        assert!(!out.game_over);
    }
}

#[test]
fn rendered_track_shows_upcoming_notes() {
    let mut orch = start_playing();
    let out = orch.advance();
    // After the first poll the engine is at tick 1: the pitched note is due
    // now (position 0); the rests draw nothing.
    let track = out.rendered.expect("a poll iteration renders");
    let mut expected = vec![' '; 16];
    expected[0] = '|';
    assert_eq!(track, expected);
}
