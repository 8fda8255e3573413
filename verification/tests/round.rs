use head_bumpin::grid::Enemy;
use head_bumpin::mallet::{Mallet, MalletAnim};
use head_bumpin::round::{FrameInput, GameState, Phase};

fn quiet_input(delta_ms: u64) -> FrameInput {
    FrameInput {
        delta_ms,
        pointer_x: 0,
        pointer_y: 0,
        pressed: false,
        slam_progress: 0,
        camera_x: 8000,
        camera_y: 5500,
        spawn_draws: vec![],
        scatter_draws: vec![0u8; 150],
    }
}

fn playing_state(enemies: Vec<Enemy>) -> GameState {
    GameState {
        phase: Phase::Playing,
        spawn_interval: 5000,
        spawn_timer: 0,
        player_score: 0,
        enemies,
    }
}

#[test]
fn expiry_resets_timer_and_spawns() {
    // spawn_timer=4.9s, spawn_interval=5.0s, delta=0.2s: the timer resets
    // and one new enemy appears at a previously unoccupied cell.
    let mut s = playing_state(vec![Enemy { x: 2, y: 2 }]);
    s.spawn_timer = 4900;
    let mut mallet = Mallet::new();
    let mut input = quiet_input(200);
    input.spawn_draws = vec![Enemy { x: 7, y: 4 }];
    let out = s.update(&mut mallet, &input);
    assert_eq!(s.spawn_timer, 0);
    assert_eq!(s.spawn_interval, 5000);
    assert_eq!(out.spawned, Some(Enemy { x: 7, y: 4 }));
    assert_eq!(s.enemies.len(), 2);
    assert_eq!(s.enemies[1], Enemy { x: 7, y: 4 });
}

#[test]
fn expiry_is_strict() {
    // A timer that lands exactly on the interval does not yet spawn.
    let mut s = playing_state(vec![]);
    s.spawn_timer = 4998;
    let mut mallet = Mallet::new();
    let mut input = quiet_input(2);
    input.spawn_draws = vec![Enemy { x: 7, y: 4 }];
    let out = s.update(&mut mallet, &input);
    assert_eq!(out.spawned, None);
    assert_eq!(s.spawn_timer, 5000);
    assert!(s.enemies.is_empty());
}

#[test]
fn spawn_rejects_occupied_draw() {
    // The first draw lands on an occupied cell and is rejected; the next
    // free draw is taken.
    let mut s = playing_state(vec![Enemy { x: 5, y: 5 }]);
    s.spawn_timer = 4999;
    let mut mallet = Mallet::new();
    let mut input = quiet_input(2);
    input.spawn_draws = vec![Enemy { x: 5, y: 5 }, Enemy { x: 6, y: 5 }];
    let out = s.update(&mut mallet, &input);
    assert_eq!(out.spawned, Some(Enemy { x: 6, y: 5 }));
    assert_eq!(s.enemies, vec![Enemy { x: 5, y: 5 }, Enemy { x: 6, y: 5 }]);
}

#[test]
fn spawn_falls_back_to_scan_order() {
    // Every draw is rejected: the first free cell in scan order is taken.
    let mut s = playing_state(vec![Enemy { x: 1, y: 1 }, Enemy { x: 1, y: 2 }]);
    s.spawn_timer = 4999;
    let mut mallet = Mallet::new();
    let mut input = quiet_input(2);
    input.spawn_draws = vec![Enemy { x: 1, y: 1 }, Enemy { x: 1, y: 2 }];
    let out = s.update(&mut mallet, &input);
    assert_eq!(out.spawned, Some(Enemy { x: 1, y: 3 }));
}

#[test]
fn slam_destroys_and_scores() {
    // Two enemies inside the hit radius fall to one slam, a third outside
    // survives; the score rises by exactly one per destroyed enemy.
    let mut s = playing_state(vec![
        Enemy { x: 3, y: 3 },
        Enemy { x: 4, y: 3 },
        Enemy { x: 10, y: 8 },
    ]);
    let mut mallet = Mallet { anim: MalletAnim::Slam };
    let mut input = quiet_input(16);
    input.pointer_x = 3500;
    input.pointer_y = 3000;
    input.slam_progress = 950;
    let out = s.update(&mut mallet, &input);
    assert!(out.slam_completed);
    assert_eq!(out.hits, 2);
    assert_eq!(s.player_score, 2);
    assert_eq!(s.enemies, vec![Enemy { x: 10, y: 8 }]);
    assert_eq!(mallet.anim, MalletAnim::Idle);
}

#[test]
fn score_never_decreases_without_replay() {
    let mut s = playing_state(vec![Enemy { x: 3, y: 3 }]);
    s.player_score = 7;
    let mut mallet = Mallet::new();
    let before = s.player_score;
    let out = s.update(&mut mallet, &quiet_input(16));
    assert_eq!(out.hits, 0);
    assert!(s.player_score >= before);
    assert_eq!(s.player_score, before);
}

#[test]
fn fifth_point_tightens_interval() {
    // score=4, a hit brings it to 5; the next interval expiry multiplies
    // the interval by 0.8.
    let mut s = playing_state(vec![Enemy { x: 3, y: 3 }]);
    s.player_score = 4;
    let mut mallet = Mallet { anim: MalletAnim::Slam };
    let mut input = quiet_input(16);
    input.pointer_x = 3000;
    input.pointer_y = 3000;
    input.slam_progress = 950;
    let out = s.update(&mut mallet, &input);
    assert_eq!(out.hits, 1);
    assert_eq!(s.player_score, 5);
    assert_eq!(s.spawn_interval, 5000);

    let mut input = quiet_input(5000);
    input.spawn_draws = vec![Enemy { x: 9, y: 9 }];
    let out = s.update(&mut mallet, &input);
    assert_eq!(s.spawn_interval, 4000);
    assert_eq!(out.spawned, Some(Enemy { x: 9, y: 9 }));
}

#[test]
fn zero_score_expiry_keeps_interval() {
    // The interval tightens only at positive multiples of five.
    let mut s = playing_state(vec![]);
    s.spawn_timer = 4900;
    let mut mallet = Mallet::new();
    let mut input = quiet_input(200);
    input.spawn_draws = vec![Enemy { x: 2, y: 2 }];
    s.update(&mut mallet, &input);
    assert_eq!(s.spawn_interval, 5000);
}

#[test]
fn interval_never_below_floor() {
    // A decay step from just above the floor clamps to the floor, and a
    // decay step at the floor stays there.
    for start in [250u64, 200u64] {
        let mut s = playing_state(vec![]);
        s.spawn_interval = start;
        s.spawn_timer = start - 1;
        s.player_score = 5;
        let mut mallet = Mallet::new();
        let mut input = quiet_input(2);
        input.spawn_draws = vec![Enemy { x: 2, y: 2 }];
        s.update(&mut mallet, &input);
        assert_eq!(s.spawn_interval, 200);
    }
}

#[test]
fn eleven_enemies_end_the_round() {
    // 11 enemies at frame start: the round is lost this frame, and the
    // next frame runs no hit detection.
    let mut enemies = Vec::new();
    for y in 1..=10u8 {
        enemies.push(Enemy { x: 1, y });
    }
    enemies.push(Enemy { x: 2, y: 1 });
    let mut s = playing_state(enemies);
    let mut mallet = Mallet::new();
    let out = s.update(&mut mallet, &quiet_input(16));
    assert!(out.entered_game_over);
    assert_eq!(s.phase, Phase::GameOver);

    // A slam on the terminal screen is cosmetic: nothing is destroyed.
    let mut mallet = Mallet { anim: MalletAnim::Slam };
    let mut input = quiet_input(16);
    input.pointer_x = 1000;
    input.pointer_y = 1000;
    input.slam_progress = 950;
    let out = s.update(&mut mallet, &input);
    assert!(out.slam_completed);
    assert_eq!(out.hits, 0);
    assert_eq!(s.enemies.len(), 11);
    assert_eq!(s.phase, Phase::GameOver);
}

#[test]
fn ten_enemies_keep_playing() {
    let mut enemies = Vec::new();
    for y in 1..=10u8 {
        enemies.push(Enemy { x: 1, y });
    }
    let mut s = playing_state(enemies);
    let mut mallet = Mallet::new();
    let out = s.update(&mut mallet, &quiet_input(16));
    assert!(!out.entered_game_over);
    assert_eq!(s.phase, Phase::Playing);
}

#[test]
fn replay_resets_the_round() {
    // A click inside the replay button resets score, timer and interval,
    // destroys all enemies and repopulates the initial scatter.
    let mut s = playing_state(vec![Enemy { x: 4, y: 4 }]);
    s.phase = Phase::GameOver;
    s.spawn_interval = 1638;
    s.spawn_timer = 1000;
    s.player_score = 23;
    let mut mallet = Mallet::new();
    let mut input = quiet_input(16);
    input.pressed = true;
    input.pointer_x = 8000;
    input.pointer_y = 3800;
    let mut scatter = vec![0u8; 150];
    scatter[0] = 1; // cell (1, 1)
    scatter[149] = 1; // cell (15, 10)
    input.scatter_draws = scatter;
    let out = s.update(&mut mallet, &input);
    assert!(out.replay);
    assert_eq!(s.phase, Phase::Playing);
    assert_eq!(s.player_score, 0);
    assert_eq!(s.spawn_interval, 5000);
    assert_eq!(s.spawn_timer, 0);
    assert_eq!(s.enemies, vec![Enemy { x: 1, y: 1 }, Enemy { x: 15, y: 10 }]);
}

#[test]
fn click_outside_replay_button_changes_nothing() {
    let mut s = playing_state(vec![Enemy { x: 4, y: 4 }]);
    s.phase = Phase::GameOver;
    s.player_score = 23;
    let mut mallet = Mallet::new();
    let mut input = quiet_input(16);
    input.pressed = true;
    input.pointer_x = 8000;
    input.pointer_y = 5500;
    let out = s.update(&mut mallet, &input);
    assert!(!out.replay);
    assert_eq!(s.phase, Phase::GameOver);
    assert_eq!(s.player_score, 23);
    assert_eq!(s.enemies.len(), 1);

    // A press just below the drawn button misses it too.
    input.pointer_y = 3100;
    let out = s.update(&mut mallet, &input);
    assert!(!out.replay);
    assert_eq!(s.phase, Phase::GameOver);
    assert_eq!(s.player_score, 23);
}

#[test]
fn full_scatter_loses_at_once() {
    // The largest possible scatter fills all 150 cells; the first frame
    // then ends the round.
    let draws = vec![1u8; 150];
    let enemies = head_bumpin::grid::spawn_initial_enemies(&draws);
    assert_eq!(enemies.len(), 150);
    let mut s = playing_state(enemies);
    let mut mallet = Mallet::new();
    let out = s.update(&mut mallet, &quiet_input(16));
    assert!(out.entered_game_over);
    assert_eq!(s.phase, Phase::GameOver);
}

#[test]
fn new_round_has_initial_values() {
    let s = GameState::new();
    assert_eq!(s.phase, Phase::Playing);
    assert_eq!(s.spawn_interval, 5000);
    assert_eq!(s.spawn_timer, 0);
    assert_eq!(s.player_score, 0);
    assert!(s.enemies.is_empty());
}
