//! The song timeline and the rhythm engine.
//!
//! A raw note is a pair of an optional pitch (in Hz; `None` is a rest) and a
//! duration in ticks. The timeline builder re-expresses a raw note sequence
//! with absolute tick offsets: entry `i`'s offset is the sum of the durations
//! of entries `0..i` (an exclusive prefix sum), and the grand total of all
//! durations is the song's length, `max_ticks`.

use vstd::prelude::*;

verus! {

/// A note: optional pitch in Hz (`None` is a rest) paired with a tick count.
/// In raw song form the tick count is the note's own duration; in timeline
/// form it is the note's absolute tick offset from the start of the song.
pub type Note = (Option<u32>, u32);

/// Sum of the durations of all notes in a raw sequence.
pub open spec fn sum_durations(s: Seq<Note>) -> int
    decreases s.len(),
{
    if s.len() == 0 {
        0
    } else {
        sum_durations(s.drop_last()) + s.last().1
    }
}

/// The timeline of a raw note sequence: pitches pass through unchanged and
/// each entry's tick count becomes its exclusive prefix sum of durations.
pub open spec fn timeline_of(s: Seq<Note>) -> Seq<Note> {
    Seq::new(s.len(), |i: int| (s[i].0, sum_durations(s.take(i)) as u32))
}

/// A duration sum is never negative.
pub proof fn lemma_sum_nonneg(s: Seq<Note>)
    ensures
        sum_durations(s) >= 0,
    decreases s.len(),
{
    if s.len() > 0 {
        lemma_sum_nonneg(s.drop_last());
    }
}

/// Extending a prefix by one note adds that note's duration to the sum.
pub proof fn lemma_sum_take_step(s: Seq<Note>, i: int)
    requires
        0 <= i < s.len(),
    ensures
        sum_durations(s.take(i + 1)) == sum_durations(s.take(i)) + s[i].1,
{
    assert(s.take(i + 1).drop_last() =~= s.take(i));
    assert(s.take(i + 1).last() == s[i]);
}

/// A prefix of a raw sequence never sums to more than the whole.
pub proof fn lemma_sum_take_le(s: Seq<Note>, i: int)
    requires
        0 <= i <= s.len(),
    ensures
        sum_durations(s.take(i)) <= sum_durations(s),
    decreases s.len() - i,
{
    if i == s.len() {
        assert(s.take(i) =~= s);
    } else {
        lemma_sum_take_step(s, i);
        lemma_sum_take_le(s, i + 1);
    }
}

/// The timeline builder's offsets are non-decreasing in sequence order.
/// This is how a zero-duration note is legal: it collapses onto the same
/// offset as its predecessor's end, and nothing is ever reordered.
pub proof fn lemma_timeline_offsets_monotone(s: Seq<Note>)
    requires
        sum_durations(s) <= u32::MAX,
    ensures
        forall|i: int, j: int|
            0 <= i <= j < s.len() ==> #[trigger] timeline_of(s)[i].1 <= #[trigger] timeline_of(s)[j].1,
{
    assert forall|i: int, j: int|
        0 <= i <= j < s.len() implies #[trigger] timeline_of(s)[i].1 <= #[trigger] timeline_of(s)[j].1 by {
        lemma_sum_prefix_monotone(s, i, j);
        lemma_sum_nonneg(s.take(i));
        lemma_sum_in_range(s, i);
        lemma_sum_in_range(s, j);
    }
}

/// Prefix sums grow with the prefix.
pub proof fn lemma_sum_prefix_monotone(s: Seq<Note>, i: int, j: int)
    requires
        0 <= i <= j <= s.len(),
    ensures
        sum_durations(s.take(i)) <= sum_durations(s.take(j)),
    decreases j - i,
{
    if i < j {
        lemma_sum_take_step(s, i);
        lemma_sum_prefix_monotone(s, i + 1, j);
    }
}

/// When the whole song fits in ticks, so does every prefix sum.
pub proof fn lemma_sum_in_range(s: Seq<Note>, i: int)
    requires
        0 <= i <= s.len(),
        sum_durations(s) <= u32::MAX,
    ensures
        0 <= sum_durations(s.take(i)) <= u32::MAX,
{
    lemma_sum_nonneg(s.take(i));
    lemma_sum_take_le(s, i);
    lemma_sum_nonneg(s);
}

/// Given notes as pairs of pitch and duration, produce the timeline: each
/// entry's tick count becomes the cumulative duration of all notes before
/// it, and the total duration of the song comes back with it.
pub fn build_note_psa(notes: &Vec<Note>) -> (r: (Vec<Note>, u32))
    requires
        sum_durations(notes@) <= u32::MAX,
    ensures
        r.0@ == timeline_of(notes@),
        r.1 == sum_durations(notes@),
{
    let mut out: Vec<Note> = Vec::new();
    let mut current_tick: u32 = 0;
    let n = notes.len();
    for i in 0..n
        invariant
            n == notes@.len(),
            out@.len() == i,
            current_tick == sum_durations(notes@.take(i as int)),
            sum_durations(notes@) <= u32::MAX,
            forall|k: int|
                0 <= k < i ==> out@[k] == (notes@[k].0, sum_durations(notes@.take(k)) as u32),
    {
        out.push((notes[i].0, current_tick));
        proof {
            lemma_sum_take_step(notes@, i as int);
            lemma_sum_in_range(notes@, i as int + 1);
        }
        current_tick = current_tick + notes[i].1;
    }
    proof {
        assert(notes@.take(n as int) =~= notes@);
        assert(out@ =~= timeline_of(notes@));
    }
    (out, current_tick)
}

/// An immutable song: a tempo scaling factor (outer-loop ticks per unit of
/// note duration) and the ordered raw note list.
pub struct Song {
    pub tempo: u32,
    pub notes: Vec<Note>,
}

impl Song {
    pub fn new(tempo: u32, notes: Vec<Note>) -> (r: Song)
        ensures
            r.tempo == tempo,
            r.notes == notes,
    {
        Song { tempo, notes }
    }
}

/// Index of the first note of a timeline whose absolute offset equals the
/// given tick, if any.
pub open spec fn first_index_at(s: Seq<Note>, tick: int) -> Option<int>
    decreases s.len(),
{
    if s.len() == 0 {
        None
    } else if s[0].1 == tick {
        Some(0int)
    } else {
        match first_index_at(s.skip(1), tick) {
            None => None,
            Some(j) => Some(j + 1),
        }
    }
}

/// `first_index_at` finds exactly the earliest note at the given tick: it
/// answers `None` when no offset matches, and otherwise the unique first
/// match in sequence order — later notes sharing the offset are passed over.
pub proof fn lemma_first_index_at_is_first_match(s: Seq<Note>, tick: int)
    ensures
        match first_index_at(s, tick) {
            None => forall|j: int| 0 <= j < s.len() ==> (#[trigger] s[j]).1 != tick,
            Some(i) => 0 <= i < s.len() && s[i].1 == tick && forall|j: int|
                0 <= j < i ==> (#[trigger] s[j]).1 != tick,
        },
    decreases s.len(),
{
    if s.len() > 0 && s[0].1 != tick {
        lemma_first_index_at_is_first_match(s.skip(1), tick);
        match first_index_at(s.skip(1), tick) {
            None => {
                assert forall|j: int| 0 <= j < s.len() implies (#[trigger] s[j]).1 != tick by {
                    if j > 0 {
                        assert(s.skip(1)[j - 1] == s[j]);
                    }
                }
            },
            Some(k) => {
                assert(s.skip(1)[k] == s[k + 1]);
                assert forall|j: int| 0 <= j < k + 1 implies (#[trigger] s[j]).1 != tick by {
                    if j > 0 {
                        assert(s.skip(1)[j - 1] == s[j]);
                    }
                }
            },
        }
    }
}

/// The upcoming portion of a timeline as seen from a given tick: notes whose
/// offset has not yet passed, re-expressed as (pitch, ticks remaining), in
/// timeline order. The scan stops once `max_count` notes have been retained
/// or a note at or beyond the `horizon` is seen; passed notes are skipped.
pub open spec fn window_spec(s: Seq<Note>, tick: int, max_count: int, horizon: int) -> Seq<Note>
    decreases s.len(),
{
    if s.len() == 0 || max_count <= 0 {
        Seq::empty()
    } else {
        let tr = s[0].1 - tick;
        if tr >= horizon {
            Seq::empty()
        } else if tr >= 0 {
            seq![(s[0].0, tr as u32)] + window_spec(s.skip(1), tick, max_count - 1, horizon)
        } else {
            window_spec(s.skip(1), tick, max_count, horizon)
        }
    }
}

/// The last timeline offset sits exactly one last-note duration short of
/// the song's total duration: offsets are exclusive prefix sums, so the
/// final entry's offset is where the last note begins, and the total is
/// where it ends.
pub proof fn lemma_last_offset_before_total(s: Seq<Note>)
    requires
        s.len() > 0,
        sum_durations(s) <= u32::MAX,
    ensures
        timeline_of(s).last().1 + s.last().1 == sum_durations(s),
{
    lemma_sum_take_step(s, s.len() - 1);
    lemma_sum_in_range(s, s.len() - 1);
    assert(s.take(s.len() as int) =~= s);
}

/// No single note lasts longer than the whole song.
pub proof fn lemma_note_duration_le_sum(s: Seq<Note>, i: int)
    requires
        0 <= i < s.len(),
    ensures
        s[i].1 <= sum_durations(s),
{
    lemma_sum_take_step(s, i);
    lemma_sum_nonneg(s.take(i));
    lemma_sum_take_le(s, i + 1);
}

/// Offsets never decrease along a timeline.
pub open spec fn offsets_non_decreasing(s: Seq<Note>) -> bool {
    forall|i: int, j: int| 0 <= i <= j < s.len() ==> (#[trigger] s[i]).1 <= (#[trigger] s[j]).1
}

/// A visible window holds at most `max_count` entries, and every entry's
/// ticks-remaining value is non-negative and strictly under the horizon.
pub proof fn lemma_window_bounds(s: Seq<Note>, tick: int, max_count: int, horizon: int)
    requires
        0 <= tick,
        0 <= max_count,
    ensures
        window_spec(s, tick, max_count, horizon).len() <= max_count,
        forall|k: int|
            0 <= k < window_spec(s, tick, max_count, horizon).len()
                ==> (#[trigger] window_spec(s, tick, max_count, horizon)[k]).1 < horizon,
    decreases s.len(),
{
    if s.len() == 0 || max_count <= 0 {
    } else {
        let tr = s[0].1 - tick;
        let w = window_spec(s, tick, max_count, horizon);
        if tr >= horizon {
        } else if tr >= 0 {
            lemma_window_bounds(s.skip(1), tick, max_count - 1, horizon);
            let w1 = window_spec(s.skip(1), tick, max_count - 1, horizon);
            assert forall|k: int| 0 <= k < w.len() implies (#[trigger] w[k]).1 < horizon by {
                if k > 0 {
                    assert(w[k] == w1[k - 1]);
                }
            }
        } else {
            lemma_window_bounds(s.skip(1), tick, max_count, horizon);
        }
    }
}

/// Every entry of a window over an ordered timeline lies at or beyond the
/// first note's distance from the current tick.
proof fn lemma_window_lower_bound(s: Seq<Note>, tick: int, max_count: int, horizon: int)
    requires
        0 <= tick,
        s.len() > 0,
        offsets_non_decreasing(s),
    ensures
        forall|k: int|
            0 <= k < window_spec(s, tick, max_count, horizon).len()
                ==> (#[trigger] window_spec(s, tick, max_count, horizon)[k]).1 >= s[0].1 - tick,
    decreases s.len(),
{
    if max_count <= 0 {
    } else {
        let tr = s[0].1 - tick;
        let w = window_spec(s, tick, max_count, horizon);
        assert forall|i: int, j: int|
            0 <= i <= j < s.skip(1).len() implies (#[trigger] s.skip(1)[i]).1
                <= (#[trigger] s.skip(1)[j]).1 by {
            assert(s.skip(1)[i] == s[i + 1]);
            assert(s.skip(1)[j] == s[j + 1]);
        }
        if tr >= horizon {
        } else if tr >= 0 {
            if s.skip(1).len() > 0 {
                lemma_window_lower_bound(s.skip(1), tick, max_count - 1, horizon);
            }
            let w1 = window_spec(s.skip(1), tick, max_count - 1, horizon);
            assert forall|k: int| 0 <= k < w.len() implies (#[trigger] w[k]).1 >= s[0].1 - tick by {
                if k > 0 {
                    assert(w[k] == w1[k - 1]);
                    assert(s.skip(1)[0] == s[1]);
                    assert(s[0].1 <= s[1].1);
                }
            }
        } else {
            if s.skip(1).len() > 0 {
                lemma_window_lower_bound(s.skip(1), tick, max_count, horizon);
                assert forall|k: int| 0 <= k < w.len() implies (#[trigger] w[k]).1 >= s[0].1
                    - tick by {
                    assert(s.skip(1)[0] == s[1]);
                    assert(s[0].1 <= s[1].1);
                }
            }
        }
    }
}

/// Windows keep timeline order: over an ordered timeline, the entries'
/// ticks-remaining values never decrease from one entry to the next.
pub proof fn lemma_window_ordered(s: Seq<Note>, tick: int, max_count: int, horizon: int)
    requires
        0 <= tick,
        offsets_non_decreasing(s),
    ensures
        forall|a: int, b: int|
            0 <= a <= b < window_spec(s, tick, max_count, horizon).len()
                ==> (#[trigger] window_spec(s, tick, max_count, horizon)[a]).1
                <= (#[trigger] window_spec(s, tick, max_count, horizon)[b]).1,
    decreases s.len(),
{
    if s.len() == 0 || max_count <= 0 {
    } else {
        let tr = s[0].1 - tick;
        let w = window_spec(s, tick, max_count, horizon);
        assert forall|i: int, j: int|
            0 <= i <= j < s.skip(1).len() implies (#[trigger] s.skip(1)[i]).1
                <= (#[trigger] s.skip(1)[j]).1 by {
            assert(s.skip(1)[i] == s[i + 1]);
            assert(s.skip(1)[j] == s[j + 1]);
        }
        if tr >= horizon {
        } else if tr >= 0 {
            lemma_window_ordered(s.skip(1), tick, max_count - 1, horizon);
            let w1 = window_spec(s.skip(1), tick, max_count - 1, horizon);
            if s.skip(1).len() > 0 {
                lemma_window_lower_bound(s.skip(1), tick, max_count - 1, horizon);
            }
            assert(w == seq![(s[0].0, tr as u32)] + w1);
            assert forall|a: int, b: int|
                0 <= a <= b < w.len() implies (#[trigger] w[a]).1 <= (#[trigger] w[b]).1 by {
                if a > 0 {
                    assert(w[a] == w1[a - 1]);
                    assert(w[b] == w1[b - 1]);
                } else if b > 0 {
                    assert(w[0] == (s[0].0, tr as u32));
                    assert(w[b] == w1[b - 1]);
                    assert(s.skip(1)[0] == s[1]);
                    assert(s[0].1 <= s[1].1);
                    assert(w1[b - 1].1 >= s.skip(1)[0].1 - tick);
                }
            }
        } else {
            lemma_window_ordered(s.skip(1), tick, max_count, horizon);
            let w1 = window_spec(s.skip(1), tick, max_count, horizon);
            assert(w == w1);
            assert forall|a: int, b: int|
                0 <= a <= b < w.len() implies (#[trigger] w[a]).1 <= (#[trigger] w[b]).1 by {
                assert(w[a] == w1[a]);
                assert(w[b] == w1[b]);
            }
        }
    }
}

/// The visible window of a well-formed engine never holds more than
/// `max_count` entries, never one at or past the horizon, and its entries
/// come in ascending timeline order.
pub proof fn lemma_visible_window_properties(g: RhythmGame, max_count: int, horizon: int)
    requires
        g.wf(),
        0 <= max_count,
    ensures
        window_spec(g.timeline@, g.current_tick as int, max_count, horizon).len() <= max_count,
        forall|k: int|
            0 <= k < window_spec(g.timeline@, g.current_tick as int, max_count, horizon).len()
                ==> (#[trigger] window_spec(g.timeline@, g.current_tick as int, max_count, horizon)[k]).1
                < horizon,
        forall|a: int, b: int|
            0 <= a <= b < window_spec(g.timeline@, g.current_tick as int, max_count, horizon).len()
                ==> (#[trigger] window_spec(g.timeline@, g.current_tick as int, max_count, horizon)[a]).1
                <= (#[trigger] window_spec(g.timeline@, g.current_tick as int, max_count, horizon)[b]).1,
{
    lemma_window_bounds(g.timeline@, g.current_tick as int, max_count, horizon);
    lemma_timeline_offsets_monotone(g.song.notes@);
    assert(offsets_non_decreasing(g.timeline@));
    lemma_window_ordered(g.timeline@, g.current_tick as int, max_count, horizon);
}

/// The rhythm engine: the timeline of the song being played, the current
/// tick, the player's score and the terminal tick. The raw song is kept as
/// constructed; the timeline is derived from it once, at construction.
pub struct RhythmGame {
    pub song: Song,
    pub timeline: Vec<Note>,
    pub current_tick: usize,
    pub score: i32,
    pub max_ticks: u32,
}

impl RhythmGame {
    /// Well-formedness: the timeline is the prefix-sum image of the song,
    /// `max_ticks` is the song's total duration, and the score is a count.
    pub open spec fn wf(self) -> bool {
        &&& self.timeline@ == timeline_of(self.song.notes@)
        &&& self.max_ticks == sum_durations(self.song.notes@)
        &&& self.score >= 0
        &&& self.song.notes@.len() > 0
    }

    /// The game is over once the current tick has reached the song's end.
    pub open spec fn spec_is_game_over(self) -> bool {
        self.current_tick >= self.max_ticks
    }

    /// Build an engine from a song. An empty song is a configuration error
    /// and is ruled out here, as is a song too long for the tick counter.
    pub fn new(song: Song) -> (r: RhythmGame)
        requires
            song.notes@.len() > 0,
            sum_durations(song.notes@) <= u32::MAX,
        ensures
            r.wf(),
            r.song == song,
            r.current_tick == 0,
            r.score == 0,
            r.max_ticks == sum_durations(song.notes@),
    {
        let (timeline, max_ticks) = build_note_psa(&song.notes);
        RhythmGame { song, timeline, current_tick: 0, score: 0, max_ticks }
    }

    /// Advance the game by one tick. Nothing else changes; checking for the
    /// end of the game stays with the caller.
    pub fn poll(&mut self)
        requires
            old(self).current_tick < usize::MAX,
        ensures
            final(self).current_tick == old(self).current_tick + 1,
            final(self).song == old(self).song,
            final(self).timeline == old(self).timeline,
            final(self).score == old(self).score,
            final(self).max_ticks == old(self).max_ticks,
    {
        self.current_tick = self.current_tick + 1;
    }

    /// The configured tempo scaling factor.
    pub fn tick_period(&self) -> (r: u32)
        ensures
            r == self.song.tempo,
    {
        self.song.tempo
    }

    /// Whether the game has reached its terminal tick.
    pub fn is_game_over(&self) -> (r: bool)
        ensures
            r == self.spec_is_game_over(),
    {
        self.current_tick >= self.max_ticks as usize
    }

    /// Index into the timeline of the first note due exactly now, if any.
    pub fn current_note_index(&self) -> (r: Option<usize>)
        ensures
            first_index_at(self.timeline@, self.current_tick as int) == (match r {
                Some(i) => Some(i as int),
                None => None::<int>,
            }),
            (match r {
                Some(i) => i < self.timeline@.len(),
                None => true,
            }),
    {
        let n = self.timeline.len();
        let ghost tick = self.current_tick as int;
        let mut i: usize = 0;
        while i < n
            invariant
                n == self.timeline@.len(),
                tick == self.current_tick as int,
                i <= n,
                forall|j: int| 0 <= j < i ==> (#[trigger] self.timeline@[j]).1 != tick,
            decreases n - i,
        {
            if self.timeline[i].1 as usize == self.current_tick {
                proof {
                    lemma_first_index_at_is_first_match(self.timeline@, tick);
                }
                return Some(i);
            }
            i = i + 1;
        }
        proof {
            lemma_first_index_at_is_first_match(self.timeline@, tick);
        }
        None
    }

    /// The first note of the timeline whose absolute offset equals the
    /// current tick, or none. When a zero-duration note makes two notes
    /// share an offset, the earliest-declared one wins.
    pub fn get_current_note(&self) -> (r: Option<Note>)
        ensures
            r == (match first_index_at(self.timeline@, self.current_tick as int) {
                Some(i) => Some(self.timeline@[i]),
                None => None::<Note>,
            }),
    {
        match self.current_note_index() {
            Some(i) => Some(self.timeline[i]),
            None => None,
        }
    }

    /// Polling advances the tick by exactly one, so an engine that started
    /// at tick zero sits at tick `n` after `n` polls: the game is over
    /// exactly when `n` has reached the song's total duration — never
    /// before, and from then on.
    pub proof fn lemma_game_over_at_total_duration(self)
        requires
            self.wf(),
        ensures
            self.spec_is_game_over() <==> self.current_tick as int >= sum_durations(
                self.song.notes@,
            ),
    {
    }

    /// The notes visible from the current tick: at most `max_count` of them,
    /// each strictly nearer than `horizon` ticks away, as (pitch, ticks
    /// remaining) in timeline order.
    pub fn get_note_positions(&self, max_count: usize, horizon: u32) -> (r: Vec<Note>)
        requires
            self.current_tick <= u32::MAX,
        ensures
            r@ == window_spec(
                self.timeline@,
                self.current_tick as int,
                max_count as int,
                horizon as int,
            ),
    {
        let mut r: Vec<Note> = Vec::new();
        let tick = self.current_tick as u32;
        if max_count == 0 {
            return r;
        }
        let n = self.timeline.len();
        let mut i: usize = 0;
        let mut done: bool = false;
        let ghost full = window_spec(
            self.timeline@,
            self.current_tick as int,
            max_count as int,
            horizon as int,
        );
        proof {
            assert(self.timeline@.skip(0) =~= self.timeline@);
            assert(r@ + full =~= full);
        }
        while i < n && !done
            invariant
                n == self.timeline@.len(),
                tick == self.current_tick as u32,
                self.current_tick <= u32::MAX,
                full == window_spec(
                    self.timeline@,
                    self.current_tick as int,
                    max_count as int,
                    horizon as int,
                ),
                i <= n,
                r@.len() <= max_count,
                done ==> full == r@,
                !done ==> r@.len() < max_count && full == r@ + window_spec(
                    self.timeline@.skip(i as int),
                    self.current_tick as int,
                    max_count - r@.len(),
                    horizon as int,
                ),
            decreases n - i,
        {
            let (pitch, off) = self.timeline[i];
            let ghost rest = self.timeline@.skip(i as int);
            proof {
                assert(rest[0] == self.timeline@[i as int]);
                assert(rest.skip(1) =~= self.timeline@.skip(i as int + 1));
            }
            if off >= tick {
                let tr = off - tick;
                if tr >= horizon {
                    done = true;
                    proof {
                        assert(full == r@ + Seq::<Note>::empty());
                        assert(r@ + Seq::<Note>::empty() =~= r@);
                    }
                } else {
                    r.push((pitch, tr));
                    proof {
                        assert(seq![(pitch, tr)] + window_spec(
                            rest.skip(1),
                            self.current_tick as int,
                            max_count - (r@.len() - 1) - 1,
                            horizon as int,
                        ) == window_spec(
                            rest,
                            self.current_tick as int,
                            max_count - (r@.len() - 1),
                            horizon as int,
                        ));
                        assert(r@.drop_last() + (seq![(pitch, tr)] + window_spec(
                            rest.skip(1),
                            self.current_tick as int,
                            max_count - r@.len(),
                            horizon as int,
                        )) =~= r@ + window_spec(
                            rest.skip(1),
                            self.current_tick as int,
                            max_count - r@.len(),
                            horizon as int,
                        ));
                    }
                    if r.len() == max_count {
                        done = true;
                        proof {
                            assert(window_spec(
                                rest.skip(1),
                                self.current_tick as int,
                                0,
                                horizon as int,
                            ) =~= Seq::<Note>::empty());
                            assert(r@ + Seq::<Note>::empty() =~= r@);
                        }
                    }
                }
            }
            i = i + 1;
        }
        proof {
            if !done {
                assert(i == n);
                assert(self.timeline@.skip(n as int) =~= Seq::<Note>::empty());
                assert(window_spec(
                    Seq::<Note>::empty(),
                    self.current_tick as int,
                    max_count - r@.len(),
                    horizon as int,
                ) =~= Seq::<Note>::empty());
                assert(r@ + Seq::<Note>::empty() =~= r@);
            }
        }
        r
    }
}

} // verus!
