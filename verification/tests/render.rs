use bbr::render::render_track;
use bbr::render::DISPLAY_LENGTH;

const WIDTH: usize = DISPLAY_LENGTH as usize;

#[test]
fn rests_render_blank() {
    let window = vec![(None, 0u32), (None, 3u32), (None, 15u32)];
    let track = render_track(&window, WIDTH);
    assert_eq!(track, vec![' '; WIDTH]);
}

#[test]
fn empty_window_renders_blank() {
    let window: Vec<(Option<u32>, u32)> = vec![];
    let track = render_track(&window, WIDTH);
    assert_eq!(track, vec![' '; WIDTH]);
}

#[test]
fn pitched_notes_mark_their_positions() {
    let window = vec![(Some(440u32), 0u32), (None, 2u32), (Some(493u32), 5u32)];
    let track = render_track(&window, WIDTH);
    let mut expected = vec![' '; WIDTH];
    expected[0] = '|';
    expected[5] = '|';
    assert_eq!(track, expected);
}

#[test]
fn note_at_width_or_beyond_never_appears() {
    let window = vec![(Some(440u32), DISPLAY_LENGTH), (Some(493u32), DISPLAY_LENGTH + 7)];
    let track = render_track(&window, WIDTH);
    assert_eq!(track, vec![' '; WIDTH]);
}

#[test]
fn note_at_last_position_appears() {
    let window = vec![(Some(440u32), DISPLAY_LENGTH - 1)];
    let track = render_track(&window, WIDTH);
    let mut expected = vec![' '; WIDTH];
    expected[WIDTH - 1] = '|';
    assert_eq!(track, expected);
}
