//! The display renderer: maps a visible note window to a fixed-width
//! character track. Position 0 is "due now"; the last position is the
//! furthest visible. Pitched notes get a glyph at their ticks-remaining
//! position; rests and notes beyond the track leave it blank.

use vstd::prelude::*;

use crate::game::rhythm::Note;

verus! {

/// Width in characters of the display's note track.
pub const DISPLAY_LENGTH: u32 = 16;

/// Glyph marking an upcoming pitched note on the track.
pub const NOTE_CHARACTER: char = '|';

/// Filler for track positions with nothing to show.
pub const BLANK_CHARACTER: char = ' ';

/// Whether one of the first `hi` window entries is a pitched note due in
/// exactly `p` ticks.
pub open spec fn marked(notes: Seq<Note>, p: int, hi: int) -> bool {
    exists|j: int|
        0 <= j < hi <= notes.len() && (#[trigger] notes[j]).0 is Some && notes[j].1 as int == p
}

/// What the track shows at position `p`: the note glyph when some pitched
/// window entry is exactly `p` ticks away, else the blank filler.
pub open spec fn track_char(notes: Seq<Note>, p: int) -> char {
    if marked(notes, p, notes.len() as int) {
        NOTE_CHARACTER
    } else {
        BLANK_CHARACTER
    }
}

/// Render a visible window as a track of `width` characters.
pub fn render_track(notes: &Vec<Note>, width: usize) -> (r: Vec<char>)
    ensures
        r@.len() == width,
        forall|p: int| 0 <= p < width ==> #[trigger] r@[p] == track_char(notes@, p),
{
    let mut buf: Vec<char> = Vec::new();
    let mut f: usize = 0;
    while f < width
        invariant
            f <= width,
            buf@.len() == f,
            forall|p: int| 0 <= p < f ==> #[trigger] buf@[p] == BLANK_CHARACTER,
        decreases width - f,
    {
        buf.push(BLANK_CHARACTER);
        f = f + 1;
    }
    let n = notes.len();
    let mut j: usize = 0;
    while j < n
        invariant
            n == notes@.len(),
            j <= n,
            buf@.len() == width,
            forall|p: int|
                0 <= p < width ==> #[trigger] buf@[p] == (if marked(notes@, p, j as int) {
                    NOTE_CHARACTER
                } else {
                    BLANK_CHARACTER
                }),
        decreases n - j,
    {
        let (pitch, tr) = notes[j];
        let ghost prev = buf@;
        if pitch.is_some() && (tr as usize) < width {
            buf.set(tr as usize, NOTE_CHARACTER);
        }
        proof {
            assert forall|p: int| 0 <= p < width implies #[trigger] buf@[p] == (if marked(
                notes@,
                p,
                j as int + 1,
            ) {
                NOTE_CHARACTER
            } else {
                BLANK_CHARACTER
            }) by {
                if pitch is Some && tr < width && p == tr as int {
                    assert(notes@[j as int].0 is Some && notes@[j as int].1 as int == p);
                    assert(marked(notes@, p, j as int + 1));
                } else {
                    assert(buf@[p] == prev[p]);
                    if marked(notes@, p, j as int + 1) {
                        let w = choose|w: int|
                            0 <= w < j + 1 && (#[trigger] notes@[w]).0 is Some && notes@[w].1 as int
                                == p;
                        assert(w != j);
                        assert(marked(notes@, p, j as int));
                    }
                    if marked(notes@, p, j as int) {
                        let w = choose|w: int|
                            0 <= w < j && (#[trigger] notes@[w]).0 is Some && notes@[w].1 as int
                                == p;
                        assert(marked(notes@, p, j as int + 1));
                    }
                }
            }
        }
        j = j + 1;
    }
    buf
}

/// A window holding only rests renders to an all-blank track.
pub proof fn lemma_rests_render_blank(notes: Seq<Note>, p: int)
    requires
        forall|j: int| 0 <= j < notes.len() ==> (#[trigger] notes[j]).0 is None,
    ensures
        track_char(notes, p) == BLANK_CHARACTER,
{
    if marked(notes, p, notes.len() as int) {
        let w = choose|w: int|
            0 <= w < notes.len() && (#[trigger] notes[w]).0 is Some && notes[w].1 as int == p;
        assert(notes[w].0 is None);
    }
}

/// A note due at the track's width or beyond never appears on the track:
/// adding such an entry to a window changes no visible position.
pub proof fn lemma_beyond_width_invisible(notes: Seq<Note>, extra: Note, p: int, width: int)
    requires
        0 <= p < width,
        extra.1 >= width,
    ensures
        track_char(notes.push(extra), p) == track_char(notes, p),
{
    let s2 = notes.push(extra);
    if marked(s2, p, s2.len() as int) {
        let w = choose|w: int|
            0 <= w < s2.len() && (#[trigger] s2[w]).0 is Some && s2[w].1 as int == p;
        assert(w != notes.len());
        assert(s2[w] == notes[w]);
        assert(marked(notes, p, notes.len() as int));
    }
    if marked(notes, p, notes.len() as int) {
        let w = choose|w: int|
            0 <= w < notes.len() && (#[trigger] notes[w]).0 is Some && notes[w].1 as int == p;
        assert(s2[w] == notes[w]);
        assert(marked(s2, p, s2.len() as int));
    }
}

} // verus!
