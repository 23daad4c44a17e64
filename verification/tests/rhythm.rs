use bbr::game::rhythm::build_note_psa;
use bbr::game::rhythm::RhythmGame;
use bbr::game::rhythm::Song;

const A: u32 = 440;
const B: u32 = 493;
const C: u32 = 261;

#[test]
fn timeline_example() {
    let notes = vec![(Some(A), 2u32), (None, 2u32), (Some(B), 4u32)];
    let (timeline, max_ticks) = build_note_psa(&notes);
    assert_eq!(timeline, vec![(Some(A), 0u32), (None, 2u32), (Some(B), 4u32)]);
    assert_eq!(max_ticks, 2 + 2 + 4);
}

#[test]
fn timeline_empty() {
    let notes: Vec<(Option<u32>, u32)> = vec![];
    let (timeline, max_ticks) = build_note_psa(&notes);
    assert!(timeline.is_empty());
    assert_eq!(max_ticks, 0);
}

#[test]
fn timeline_zero_duration_collapses() {
    let notes = vec![(Some(A), 2u32), (Some(B), 0u32), (Some(C), 3u32)];
    let (timeline, max_ticks) = build_note_psa(&notes);
    assert_eq!(timeline, vec![(Some(A), 0u32), (Some(B), 2u32), (Some(C), 2u32)]);
    assert_eq!(max_ticks, 5);
}

#[test]
fn engine_construction() {
    let song = Song::new(2, vec![(Some(A), 2u32), (None, 2u32), (Some(B), 4u32)]);
    let game = RhythmGame::new(song);
    assert_eq!(game.current_tick, 0);
    assert_eq!(game.score, 0);
    assert_eq!(game.max_ticks, 8);
    assert_eq!(game.timeline, vec![(Some(A), 0u32), (None, 2u32), (Some(B), 4u32)]);
    assert_eq!(game.song.notes, vec![(Some(A), 2u32), (None, 2u32), (Some(B), 4u32)]);
    assert_eq!(game.tick_period(), 2);
}

#[test]
fn game_over_exactly_after_max_ticks_polls() {
    let song = Song::new(1, vec![(Some(A), 1u32), (None, 1u32)]);
    let mut game = RhythmGame::new(song);
    assert_eq!(game.max_ticks, 2);
    assert!(!game.is_game_over());
    game.poll();
    assert!(!game.is_game_over());
    game.poll();
    assert!(game.is_game_over());
    game.poll();
    assert!(game.is_game_over());
}

#[test]
fn current_note_matches_offset() {
    // offsets: 0, 2, 4
    let song = Song::new(1, vec![(Some(A), 2u32), (None, 2u32), (Some(B), 4u32)]);
    let mut game = RhythmGame::new(song);
    assert_eq!(game.get_current_note(), Some((Some(A), 0u32)));
    game.poll();
    assert_eq!(game.get_current_note(), None);
    game.poll();
    assert_eq!(game.get_current_note(), Some((None, 2u32)));
    game.poll();
    game.poll();
    assert_eq!(game.get_current_note(), Some((Some(B), 4u32)));
}

#[test]
fn current_note_first_of_shared_offset_wins() {
    // offsets: 0, 2, 2
    let song = Song::new(1, vec![(Some(A), 2u32), (Some(B), 0u32), (Some(C), 3u32)]);
    let mut game = RhythmGame::new(song);
    game.poll();
    game.poll();
    assert_eq!(game.get_current_note(), Some((Some(B), 2u32)));
}

#[test]
fn window_is_capped_and_ordered() {
    // offsets: 0, 0, 5, 10, 15
    let notes = vec![
        (Some(A), 0u32),
        (Some(B), 5u32),
        (Some(C), 5u32),
        (None, 5u32),
        (Some(A), 1u32),
    ];
    let song = Song::new(1, notes);
    let game = RhythmGame::new(song);
    let window = game.get_note_positions(3, 16);
    assert_eq!(window, vec![(Some(A), 0u32), (Some(B), 0u32), (Some(C), 5u32)]);
}

#[test]
fn window_stops_at_horizon() {
    // offsets: 0, 20
    let song = Song::new(1, vec![(Some(A), 20u32), (Some(B), 5u32)]);
    let game = RhythmGame::new(song);
    let window = game.get_note_positions(3, 16);
    assert_eq!(window, vec![(Some(A), 0u32)]);
}

#[test]
fn window_skips_passed_notes() {
    // offsets: 0, 2, 4
    let song = Song::new(1, vec![(Some(A), 2u32), (Some(B), 2u32), (Some(C), 4u32)]);
    let mut game = RhythmGame::new(song);
    game.poll();
    game.poll();
    game.poll();
    let window = game.get_note_positions(3, 16);
    assert_eq!(window, vec![(Some(C), 1u32)]);
}

#[test]
fn window_respects_max_count_zero() {
    let song = Song::new(1, vec![(Some(A), 2u32)]);
    let game = RhythmGame::new(song);
    assert!(game.get_note_positions(0, 16).is_empty());
}
