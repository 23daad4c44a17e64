//! The real-time orchestrator: the decision core of the outer game loop.
//!
//! Once per outer-loop iteration `advance` is called. At the engine's
//! tick-period boundary it advances the engine, detects the end of the game,
//! renders the visible track, and — when a pitched note is due — asks for
//! tone output and arms a scoring window lasting the note's duration times
//! the tempo. While a window is armed, every `SAMPLE_CADENCE` iterations it
//! asks the caller for one distance sample, which is handed back through
//! `apply_sample`: a valid reading under the proximity threshold scores one
//! point and disarms the window at once; anything else leaves the window
//! armed until it expires on its own, when the tone is silenced and the
//! window closed exactly once.
//!
//! The caller owns the clock, the tone output, the display and the sensor:
//! it performs what an `AdvanceOutput` asks for and paces the iterations.

use vstd::prelude::*;

use crate::game::rhythm::RhythmGame;
use crate::game::rhythm::first_index_at;
use crate::game::rhythm::lemma_note_duration_le_sum;
use crate::game::rhythm::window_spec;
use crate::render::DISPLAY_LENGTH;
use crate::render::render_track;
use crate::render::track_char;
use crate::sampler::SampleResult;

verus! {

/// Most notes kept on screen at once.
pub const MAX_NOTES_ON_SCREEN: usize = 3;

/// Outer-loop iterations between distance samples while a window is armed.
pub const SAMPLE_CADENCE: u32 = 3;

/// Proximity threshold for a scoring hit: 30 physical units, expressed in
/// the sampler's scaled distance units.
pub const HIT_THRESHOLD_SCALED: u32 = 30 * 2000;

/// The orchestrator's two states: the loop runs until the engine reaches
/// the end of the song, and the end is terminal.
#[derive(Clone, Copy, Debug, PartialEq, Eq, Structural)]
pub enum RunState {
    Running,
    GameOver,
}

/// What the caller should do with the tone output this iteration.
#[derive(Clone, Copy, Debug, PartialEq, Eq, Structural)]
pub enum ToneCommand {
    /// Leave the tone output as it is.
    Keep,
    /// Begin tone output at this pitch in Hz.
    Start(u32),
    /// Silence the tone output.
    Silence,
}

/// Player feedback decided by a scoring attempt.
#[derive(Clone, Copy, Debug, PartialEq, Eq, Structural)]
pub enum Feedback {
    /// A point was just awarded.
    Hit,
    /// A sample arrived while a window was armed but did not qualify.
    Miss,
    /// No scoring window was armed.
    Neutral,
}

/// Everything one loop iteration asks of the caller.
pub struct AdvanceOutput {
    /// Clear earlier hit/miss feedback now.
    pub clear_feedback: bool,
    /// What to do with the tone output.
    pub tone: ToneCommand,
    /// A freshly rendered track to show, when this iteration rendered one.
    pub rendered: Option<Vec<char>>,
    /// Take one distance sample and hand it to `apply_sample`.
    pub sample_requested: bool,
    /// The game just ended; report the score and stop driving the loop.
    pub game_over: bool,
}

/// A sample qualifies for a point when it is a real distance reading —
/// not a timeout sentinel — strictly under the proximity threshold.
pub open spec fn spec_is_hit(sample: SampleResult) -> bool {
    match sample {
        SampleResult::Distance(d) => d < HIT_THRESHOLD_SCALED,
        _ => false,
    }
}

/// The orchestrator: the engine it drives, the outer-loop iteration count,
/// the scoring window (expiry iteration, and whether a point can still be
/// taken from it), and whether the game has ended.
pub struct Orchestrator {
    pub engine: RhythmGame,
    pub loop_tick: u32,
    pub window_expiry: Option<u32>,
    pub points_available: bool,
    pub state: RunState,
}

impl Orchestrator {
    /// The engine's tempo: outer-loop iterations per engine tick.
    pub open spec fn tempo(self) -> u32 {
        self.engine.song.tempo
    }

    /// Well-formedness: a sound engine, a positive tempo, a point only ever
    /// available from an armed window, and — while running — an engine that
    /// has not passed the end of the song.
    pub open spec fn wf(self) -> bool {
        &&& self.engine.wf()
        &&& self.tempo() >= 1
        &&& self.points_available ==> self.window_expiry is Some
        &&& self.state is Running ==> (self.engine.current_tick == 0
            || (self.engine.current_tick as int) < (self.engine.max_ticks as int))
    }

    /// This iteration falls on the engine's tick-period boundary.
    pub open spec fn polls_now(self) -> bool {
        self.loop_tick % self.tempo() == 0
    }

    /// The armed scoring window, if any, has reached its expiry iteration.
    pub open spec fn window_expires_now(self) -> bool {
        match self.window_expiry {
            Some(e) => self.loop_tick >= e,
            None => false,
        }
    }

    /// The scoring window state after this iteration's expiry handling,
    /// when no new window is armed: an expired window closes, any other
    /// stays as it is.
    pub open spec fn window_after(self) -> (Option<u32>, bool) {
        if self.window_expires_now() {
            (None::<u32>, false)
        } else {
            (self.window_expiry, self.points_available)
        }
    }

    /// Index of the timeline note that will be due once this iteration's
    /// poll has advanced the engine by one tick.
    pub open spec fn due_index_after_poll(self) -> Option<int> {
        first_index_at(self.engine.timeline@, self.engine.current_tick as int + 1)
    }

    /// Whether this iteration polls and finds the game over.
    pub open spec fn ends_now(self) -> bool {
        self.polls_now() && self.engine.current_tick as int + 1 >= self.engine.max_ticks as int
    }

    /// Whether this iteration arms a scoring window: it polls, the game
    /// goes on, and the note now due has a pitch.
    pub open spec fn arms_now(self) -> bool {
        &&& self.polls_now()
        &&& !self.ends_now()
        &&& match self.due_index_after_poll() {
            Some(i) => self.engine.timeline@[i].0 is Some,
            None => false,
        }
    }

    /// The expiry iteration of the window armed this iteration: the due
    /// note's raw duration, scaled by the tempo, past the current iteration.
    pub open spec fn armed_expiry(self) -> u32 {
        match self.due_index_after_poll() {
            Some(i) => (self.loop_tick + self.engine.song.notes@[i].1 * self.tempo()) as u32,
            None => self.loop_tick,
        }
    }

    /// The tone command this iteration decides: a pitched due note starts
    /// its tone, a due rest is silence, the end of the game is silence, an
    /// expiring window is silence, and otherwise the tone is left alone.
    pub open spec fn spec_tone(self) -> ToneCommand {
        if self.ends_now() {
            ToneCommand::Silence
        } else if self.polls_now() && self.due_index_after_poll() is Some {
            match self.engine.timeline@[self.due_index_after_poll()->Some_0].0 {
                Some(hz) => ToneCommand::Start(hz),
                None => ToneCommand::Silence,
            }
        } else if self.window_expires_now() {
            ToneCommand::Silence
        } else {
            ToneCommand::Keep
        }
    }

    /// Start the loop over a fresh engine.
    pub fn new(engine: RhythmGame) -> (r: Orchestrator)
        requires
            engine.wf(),
            engine.current_tick == 0,
            engine.song.tempo >= 1,
        ensures
            r.wf(),
            r.engine == engine,
            r.loop_tick == 0,
            r.window_expiry is None,
            !r.points_available,
            r.state is Running,
    {
        Orchestrator {
            engine,
            loop_tick: 0,
            window_expiry: None,
            points_available: false,
            state: RunState::Running,
        }
    }

    /// One outer-loop iteration: close an expired scoring window; at the
    /// tick-period boundary advance the engine, detect the end of the game,
    /// render the visible track and resolve the note due now; and say
    /// whether a distance sample should be taken.
    pub fn advance(&mut self) -> (out: AdvanceOutput)
        requires
            old(self).wf(),
            old(self).state is Running,
            old(self).loop_tick < u32::MAX,
            old(self).loop_tick + old(self).engine.max_ticks * old(self).tempo() <= u32::MAX,
        ensures
            final(self).wf(),
            final(self).engine.song == old(self).engine.song,
            final(self).engine.timeline == old(self).engine.timeline,
            final(self).engine.max_ticks == old(self).engine.max_ticks,
            final(self).engine.score == old(self).engine.score,
            out.clear_feedback == (old(self).loop_tick % old(self).tempo() == 2),
            out.game_over == old(self).ends_now(),
            final(self).engine.current_tick == (if old(self).polls_now() {
                old(self).engine.current_tick + 1
            } else {
                old(self).engine.current_tick as int
            }),
            final(self).state == (if out.game_over {
                RunState::GameOver
            } else {
                RunState::Running
            }),
            final(self).loop_tick == (if out.game_over {
                old(self).loop_tick as int
            } else {
                old(self).loop_tick + 1
            }),
            old(self).arms_now() ==> final(self).window_expiry == Some(old(self).armed_expiry())
                && final(self).points_available,
            !old(self).arms_now() ==> (final(self).window_expiry, final(self).points_available)
                == old(self).window_after(),
            out.tone == old(self).spec_tone(),
            (match out.rendered {
                Some(buf) => !out.game_over && old(self).polls_now() && buf@.len()
                    == DISPLAY_LENGTH as int && (forall|p: int|
                    0 <= p < DISPLAY_LENGTH as int ==> #[trigger] buf@[p] == track_char(
                        window_spec(
                            old(self).engine.timeline@,
                            old(self).engine.current_tick as int + 1,
                            MAX_NOTES_ON_SCREEN as int,
                            DISPLAY_LENGTH as int,
                        ),
                        p,
                    )),
                None => out.game_over || !old(self).polls_now(),
            }),
            out.sample_requested == (!out.game_over && final(self).points_available && old(
                self,
            ).loop_tick % SAMPLE_CADENCE == 0),
    {
        let mut tone: ToneCommand = ToneCommand::Keep;
        let mut rendered: Option<Vec<char>> = None;
        let clear_feedback = self.loop_tick % self.engine.song.tempo == 2;

        if let Some(e) = self.window_expiry {
            if self.loop_tick >= e {
                tone = ToneCommand::Silence;
                self.window_expiry = None;
                self.points_available = false;
            }
        }

        if self.loop_tick % self.engine.song.tempo == 0 {
            self.engine.poll();
            if self.engine.is_game_over() {
                self.state = RunState::GameOver;
                return AdvanceOutput {
                    clear_feedback,
                    tone: ToneCommand::Silence,
                    rendered: None,
                    sample_requested: false,
                    game_over: true,
                };
            }
            let window = self.engine.get_note_positions(MAX_NOTES_ON_SCREEN, DISPLAY_LENGTH);
            rendered = Some(render_track(&window, DISPLAY_LENGTH as usize));
            match self.engine.current_note_index() {
                Some(i) => {
                    proof {
                        assert(self.engine.timeline@.len() == self.engine.song.notes@.len());
                    }
                    let (pitch, _off) = self.engine.timeline[i];
                    match pitch {
                        Some(hz) => {
                            tone = ToneCommand::Start(hz);
                            let duration = self.engine.song.notes[i].1;
                            proof {
                                lemma_note_duration_le_sum(self.engine.song.notes@, i as int);
                                vstd::arithmetic::mul::lemma_mul_inequality(
                                    duration as int,
                                    self.engine.max_ticks as int,
                                    self.engine.song.tempo as int,
                                );
                            }
                            self.window_expiry = Some(
                                self.loop_tick + duration * self.engine.song.tempo,
                            );
                            self.points_available = true;
                        },
                        None => {
                            tone = ToneCommand::Silence;
                        },
                    }
                },
                None => {},
            }
        }

        let sample_requested = self.points_available && self.loop_tick % SAMPLE_CADENCE == 0;
        let out = AdvanceOutput {
            clear_feedback,
            tone,
            rendered,
            sample_requested,
            game_over: false,
        };
        self.loop_tick = self.loop_tick + 1;
        out
    }

    /// Resolve one distance sample against the armed scoring window: a
    /// qualifying sample awards exactly one point and disarms the window at
    /// once; any other sample changes nothing; without an armed window the
    /// sample is ignored.
    pub fn apply_sample(&mut self, sample: SampleResult) -> (fb: Feedback)
        requires
            old(self).wf(),
            old(self).engine.score < i32::MAX,
        ensures
            final(self).wf(),
            final(self).engine.song == old(self).engine.song,
            final(self).engine.timeline == old(self).engine.timeline,
            final(self).engine.current_tick == old(self).engine.current_tick,
            final(self).engine.max_ticks == old(self).engine.max_ticks,
            final(self).loop_tick == old(self).loop_tick,
            final(self).state == old(self).state,
            final(self).window_expiry == old(self).window_expiry,
            fb == (if old(self).points_available && spec_is_hit(sample) {
                Feedback::Hit
            } else if old(self).points_available {
                Feedback::Miss
            } else {
                Feedback::Neutral
            }),
            old(self).points_available && spec_is_hit(sample) ==> final(self).engine.score == old(
                self,
            ).engine.score + 1 && !final(self).points_available,
            !(old(self).points_available && spec_is_hit(sample)) ==> final(self).engine.score
                == old(self).engine.score && final(self).points_available == old(
                self,
            ).points_available,
    {
        if self.points_available {
            let hit = match sample {
                SampleResult::Distance(d) => d < HIT_THRESHOLD_SCALED,
                _ => false,
            };
            if hit {
                self.engine.score = self.engine.score + 1;
                self.points_available = false;
                Feedback::Hit
            } else {
                Feedback::Miss
            }
        } else {
            Feedback::Neutral
        }
    }
}

} // verus!
