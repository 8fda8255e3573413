//! The round controller: one frame of the game per call.
//!
//! A round is either `Playing` or `GameOver`. While playing, a frame
//! updates the mallet, resolves a completed slam against the enemies,
//! advances the spawn timer, spawns a new enemy on interval expiry —
//! tightening the interval whenever the score stands at a positive
//! multiple of five — and ends the round once more than ten enemies
//! stand. On the terminal screen only the mallet still animates, and a
//! click on the replay button starts a fresh round.
//!
//! Time is counted in milliseconds, pointer and camera positions in
//! milli-units of world space.

use crate::grid::{
    all_wf, distinct_cells, initial_scatter, occupied, spawn_cell, valid_cell, Enemy,
    choose_spawn_cell, spawn_initial_enemies,
};
use crate::mallet::{survivors, Mallet, MalletAnim, resolve_slam};
use vstd::prelude::*;

verus! {

/// Spawn interval at the start of a round: five seconds.
pub const START_INTERVAL_MS: u64 = 5000;
/// Floor of the spawn interval as difficulty ramps: a fifth of a second.
pub const MIN_INTERVAL_MS: u64 = 200;
/// The round is lost once more enemies than this stand at a frame's end.
pub const ENEMY_LIMIT: usize = 10;

/// The two states of the round controller.
#[derive(Clone, Copy, PartialEq, Eq, Structural, Debug)]
pub enum Phase {
    Playing,
    GameOver,
}

/// Round-scoped state: spawn timing, score, phase, and the enemies on the
/// playfield.
pub struct GameState {
    pub phase: Phase,
    /// Milliseconds between automatic spawns; decays with the score.
    pub spawn_interval: u64,
    /// Milliseconds elapsed since the last spawn.
    pub spawn_timer: u64,
    pub player_score: u32,
    pub enemies: Vec<Enemy>,
}

impl GameState {
    /// The round state a frame may rely on: the spawn interval sits
    /// between its floor and its starting value, the timer has not yet
    /// passed the interval, and the enemies stand on distinct interior
    /// cells.
    pub open spec fn wf(self) -> bool {
        &&& MIN_INTERVAL_MS <= self.spawn_interval <= START_INTERVAL_MS
        &&& self.spawn_timer <= self.spawn_interval
        &&& all_wf(self.enemies@)
        &&& distinct_cells(self.enemies@)
    }

    /// A fresh round: playing, full spawn interval, zero timer and score,
    /// no enemies yet.
    pub fn new() -> (s: GameState)
        ensures
            s.phase is Playing,
            s.spawn_interval == START_INTERVAL_MS,
            s.spawn_timer == 0,
            s.player_score == 0,
            s.enemies@ == Seq::<Enemy>::empty(),
            s.wf(),
    {
        let s = GameState {
            phase: Phase::Playing,
            spawn_interval: START_INTERVAL_MS,
            spawn_timer: 0,
            player_score: 0,
            enemies: Vec::new(),
        };
        proof {
            assert(s.enemies@ =~= Seq::<Enemy>::empty());
        }
        s
    }
}

/// One decay step of the spawn interval: four fifths of it, but never
/// below the floor.
pub open spec fn decayed_interval(iv: u64) -> int {
    if iv * 4 / 5 < MIN_INTERVAL_MS {
        MIN_INTERVAL_MS as int
    } else {
        iv * 4 / 5
    }
}

/// After any decay step the spawn interval stays at or above its floor,
/// and a decay step never lengthens an interval that was at or above the
/// floor.
pub proof fn lemma_decay_bounds(iv: u64)
    ensures
        decayed_interval(iv) >= MIN_INTERVAL_MS,
        iv >= MIN_INTERVAL_MS ==> decayed_interval(iv) <= iv,
{
    assert(iv * 4 <= iv * 5);
    vstd::arithmetic::div_mod::lemma_div_is_ordered(iv * 4, iv * 5, 5);
    vstd::arithmetic::div_mod::lemma_div_multiples_vanish(iv as int, 5);
}

/// The primary button went down with the pointer inside the replay
/// button's drawn rectangle: the button is 3 x 1 world units, centered
/// 1.7 units below the camera center, so the pointer must lie within
/// 1.5 units of the center horizontally and between 2.2 and 1.2 units
/// below it.
pub open spec fn replay_click_spec(pressed: bool, px: int, py: int, cx: int, cy: int) -> bool {
    &&& pressed
    &&& cx - 1500 < px < cx + 1500
    &&& cy - 2200 < py < cy - 1200
}

/// Tests a press against the replay button's screen rectangle.
pub fn replay_clicked(pressed: bool, px: i64, py: i64, cx: i64, cy: i64) -> (b: bool)
    ensures
        b == replay_click_spec(pressed, px as int, py as int, cx as int, cy as int),
{
    let pxw = px as i128;
    let pyw = py as i128;
    let cxw = cx as i128;
    let cyw = cy as i128;
    pressed && pxw > cxw - 1500 && pxw < cxw + 1500 && pyw > cyw - 2200 && pyw < cyw - 1200
}

/// Everything the engine hands the round controller for one frame.
pub struct FrameInput {
    /// Time elapsed since the previous frame, in milliseconds.
    pub delta_ms: u64,
    /// Pointer position in milli-units of world space.
    pub pointer_x: i64,
    pub pointer_y: i64,
    /// The primary button went down this frame.
    pub pressed: bool,
    /// Progress of the slam animation, in permille of its length.
    pub slam_progress: u32,
    /// Camera center in milli-units of world space.
    pub camera_x: i64,
    pub camera_y: i64,
    /// Random cell draws for this frame's spawn, tried in order.
    pub spawn_draws: Vec<Enemy>,
    /// Random scatter draws, one per interior cell, consumed on replay.
    pub scatter_draws: Vec<u8>,
}

/// Everything the engine must act on after a frame.
#[derive(Clone, Copy, PartialEq, Eq, Structural, Debug)]
pub struct FrameOutput {
    /// The slam finished this frame: play the hit sound.
    pub slam_completed: bool,
    /// Enemies destroyed this frame: play one reaction sound per hit.
    pub hits: usize,
    /// The enemy spawned this frame, if the interval expired.
    pub spawned: Option<Enemy>,
    /// The round was lost this frame.
    pub entered_game_over: bool,
    /// The replay button was clicked this frame.
    pub replay: bool,
}

/// The enemies still standing after this frame's hit detection: a
/// completed slam destroys everything within the hit radius of the
/// pointer, any other frame leaves the set alone.
pub open spec fn after_hits(
    es: Seq<Enemy>,
    slam_completed: bool,
    px: int,
    py: int,
) -> Seq<Enemy> {
    if slam_completed {
        survivors(es, px, py)
    } else {
        es
    }
}

/// How one playing frame relates the round state before it to the state
/// after it and to the frame's output.
pub open spec fn playing_step(
    pre: GameState,
    post: GameState,
    input: FrameInput,
    out: FrameOutput,
) -> bool {
    let remaining = after_hits(
        pre.enemies@,
        out.slam_completed,
        input.pointer_x as int,
        input.pointer_y as int,
    );
    let score_now = pre.player_score + pre.enemies@.len() - remaining.len();
    let timer_now = pre.spawn_timer + input.delta_ms;
    let expired = timer_now > pre.spawn_interval;
    &&& out.hits == pre.enemies@.len() - remaining.len()
    &&& post.player_score == score_now
    &&& !out.replay
    &&& (if expired {
        &&& post.spawn_timer == 0
        &&& post.spawn_interval == (if score_now > 0 && score_now % 5 == 0 {
            decayed_interval(pre.spawn_interval)
        } else {
            pre.spawn_interval as int
        })
        &&& out.spawned == spawn_cell(remaining, input.spawn_draws@)
        &&& post.enemies@ == (match out.spawned {
            Option::Some(c) => remaining.push(c),
            Option::None => remaining,
        })
    } else {
        &&& post.spawn_timer == timer_now
        &&& post.spawn_interval == pre.spawn_interval
        &&& out.spawned is None
        &&& post.enemies@ == remaining
    })
    &&& out.entered_game_over == (post.enemies@.len() > ENEMY_LIMIT)
    &&& post.phase == (if out.entered_game_over {
        Phase::GameOver
    } else {
        Phase::Playing
    })
}

/// How one terminal-screen frame relates the round state before it to
/// the state after it and to the frame's output: no hit detection, no
/// spawning, and nothing changes unless the replay button was clicked.
pub open spec fn game_over_step(
    pre: GameState,
    post: GameState,
    input: FrameInput,
    out: FrameOutput,
) -> bool {
    &&& out.hits == 0
    &&& out.spawned is None
    &&& !out.entered_game_over
    &&& out.replay == replay_click_spec(
        input.pressed,
        input.pointer_x as int,
        input.pointer_y as int,
        input.camera_x as int,
        input.camera_y as int,
    )
    &&& (out.replay ==> {
        &&& post.phase is Playing
        &&& post.spawn_interval == START_INTERVAL_MS
        &&& post.spawn_timer == 0
        &&& post.player_score == 0
        &&& post.enemies@ == initial_scatter(input.scatter_draws@)
    })
    &&& (!out.replay ==> post == pre)
}

impl GameState {
    /// One frame of the round. The mallet animation advances first; while
    /// playing, hit detection, spawn timing and the loss check follow in
    /// that order; on the terminal screen, only a replay click changes
    /// the state, resetting the round in place.
    pub fn update(&mut self, mallet: &mut Mallet, input: &FrameInput) -> (out: FrameOutput)
        requires
            old(self).wf(),
            old(self).player_score + old(self).enemies@.len() <= u32::MAX,
            input.delta_ms <= u64::MAX - START_INTERVAL_MS,
            forall|i: int|
                0 <= i < input.spawn_draws@.len() ==> #[trigger] input.spawn_draws@[i].wf(),
            input.scatter_draws@.len() == 150,
        ensures
            final(self).wf(),
            out.slam_completed == (old(mallet).anim is Slam && input.slam_progress
                > crate::mallet::SLAM_DONE_PERMILLE),
            final(mallet).anim == (if out.slam_completed {
                MalletAnim::Idle
            } else if input.pressed && old(mallet).anim is Idle {
                MalletAnim::Slam
            } else {
                old(mallet).anim
            }),
            old(self).phase is Playing ==> playing_step(*old(self), *final(self), *input, out),
            old(self).phase is GameOver ==> game_over_step(*old(self), *final(self), *input, out),
    {
        let slam_completed = mallet.step(input.pressed, input.slam_progress);
        match self.phase {
            Phase::GameOver => {
                let replay = replay_clicked(
                    input.pressed,
                    input.pointer_x,
                    input.pointer_y,
                    input.camera_x,
                    input.camera_y,
                );
                if replay {
                    self.phase = Phase::Playing;
                    self.spawn_interval = START_INTERVAL_MS;
                    self.spawn_timer = 0;
                    self.player_score = 0;
                    self.enemies = spawn_initial_enemies(&input.scatter_draws);
                }
                FrameOutput {
                    slam_completed,
                    hits: 0,
                    spawned: None,
                    entered_game_over: false,
                    replay,
                }
            },
            Phase::Playing => {
                let mut hits: usize = 0;
                if slam_completed {
                    hits = resolve_slam(&mut self.enemies, input.pointer_x, input.pointer_y);
                    self.player_score = self.player_score + hits as u32;
                }
                self.spawn_timer = self.spawn_timer + input.delta_ms;
                let mut spawned: Option<Enemy> = None;
                if self.spawn_timer > self.spawn_interval {
                    self.spawn_timer = 0;
                    if self.player_score > 0 && self.player_score % 5 == 0 {
                        proof {
                            lemma_decay_bounds(self.spawn_interval);
                        }
                        let raw: u64 = self.spawn_interval * 4 / 5;
                        self.spawn_interval = if raw < MIN_INTERVAL_MS {
                            MIN_INTERVAL_MS
                        } else {
                            raw
                        };
                    }
                    spawned = choose_spawn_cell(&self.enemies, &input.spawn_draws);
                    proof {
                        crate::grid::lemma_spawn_cell_free(self.enemies@, input.spawn_draws@);
                    }
                    match spawned {
                        Option::Some(c) => {
                            self.enemies.push(c);
                        },
                        Option::None => {},
                    }
                }
                let entered = self.enemies.len() > ENEMY_LIMIT;
                if entered {
                    self.phase = Phase::GameOver;
                }
                FrameOutput {
                    slam_completed,
                    hits,
                    spawned,
                    entered_game_over: entered,
                    replay: false,
                }
            },
        }
    }
}

/// Within a round the score only moves upward: a playing frame raises it
/// by exactly one per destroyed enemy, and nothing lowers it short of a
/// replay reset.
pub proof fn lemma_score_only_increases(
    pre: GameState,
    post: GameState,
    input: FrameInput,
    out: FrameOutput,
)
    requires
        playing_step(pre, post, input, out),
    ensures
        post.player_score == pre.player_score + out.hits,
        post.player_score >= pre.player_score,
{
}

/// After a playing frame the round stands in `GameOver` exactly when more
/// than ten enemies stand on the field.
pub proof fn lemma_game_over_iff(
    pre: GameState,
    post: GameState,
    input: FrameInput,
    out: FrameOutput,
)
    requires
        playing_step(pre, post, input, out),
    ensures
        post.phase is GameOver <==> post.enemies@.len() > ENEMY_LIMIT,
{
}

/// The terminal screen is a latch: no hits, no spawns, no second loss
/// event, and the state is untouched until the replay button is clicked.
pub proof fn lemma_game_over_latch(
    pre: GameState,
    post: GameState,
    input: FrameInput,
    out: FrameOutput,
)
    requires
        game_over_step(pre, post, input, out),
    ensures
        out.hits == 0,
        out.spawned is None,
        !out.entered_game_over,
        !out.replay ==> post == pre,
{
}

/// A replay click resets the round in place: score to zero, spawn
/// interval to its starting value, spawn timer to zero, and the enemies
/// to a fresh initial scatter.
pub proof fn lemma_replay_resets(
    pre: GameState,
    post: GameState,
    input: FrameInput,
    out: FrameOutput,
)
    requires
        game_over_step(pre, post, input, out),
        out.replay,
    ensures
        post.phase is Playing,
        post.spawn_interval == START_INTERVAL_MS,
        post.spawn_timer == 0,
        post.player_score == 0,
        post.enemies@ == initial_scatter(input.scatter_draws@),
{
}

/// A spawn event never lands on a cell occupied at the moment of the
/// spawn: the chosen cell is free of every enemy that survived this
/// frame's hit detection.
pub proof fn lemma_spawn_unoccupied(
    pre: GameState,
    post: GameState,
    input: FrameInput,
    out: FrameOutput,
)
    requires
        playing_step(pre, post, input, out),
        forall|i: int|
            0 <= i < input.spawn_draws@.len() ==> #[trigger] input.spawn_draws@[i].wf(),
    ensures
        out.spawned matches Some(c) ==> !occupied(
            after_hits(
                pre.enemies@,
                out.slam_completed,
                input.pointer_x as int,
                input.pointer_y as int,
            ),
            c.x as int,
            c.y as int,
        ),
        out.spawned matches Some(c) ==> post.enemies@ == after_hits(
            pre.enemies@,
            out.slam_completed,
            input.pointer_x as int,
            input.pointer_y as int,
        ).push(c),
{
    let remaining = after_hits(
        pre.enemies@,
        out.slam_completed,
        input.pointer_x as int,
        input.pointer_y as int,
    );
    crate::grid::lemma_spawn_cell_free(remaining, input.spawn_draws@);
}

/// A frame whose timer passes the interval and whose slam did not
/// complete resets the spawn timer and spawns exactly one new enemy on a
/// previously unoccupied interior cell — whenever any interior cell is
/// free at all. On a fully occupied grid nothing can be spawned.
pub proof fn lemma_expiry_spawns_one_enemy(
    pre: GameState,
    post: GameState,
    input: FrameInput,
    out: FrameOutput,
)
    requires
        playing_step(pre, post, input, out),
        !out.slam_completed,
        pre.spawn_timer + input.delta_ms > pre.spawn_interval,
        forall|i: int|
            0 <= i < input.spawn_draws@.len() ==> #[trigger] input.spawn_draws@[i].wf(),
        exists|a: int, b: int| valid_cell(a, b) && !#[trigger] occupied(pre.enemies@, a, b),
    ensures
        post.spawn_timer == 0,
        out.spawned is Some,
        post.enemies@.len() == pre.enemies@.len() + 1,
        out.spawned matches Some(c) ==> !occupied(pre.enemies@, c.x as int, c.y as int)
            && post.enemies@ == pre.enemies@.push(c),
{
    let (a, b) = choose|a: int, b: int|
        valid_cell(a, b) && !#[trigger] occupied(pre.enemies@, a, b);
    crate::grid::lemma_spawn_cell_exists(pre.enemies@, input.spawn_draws@, a, b);
    crate::grid::lemma_spawn_cell_free(pre.enemies@, input.spawn_draws@);
}

} // verus!
