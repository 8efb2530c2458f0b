use snake::dirs::DirQueue;
use snake::game::FrameInput;
use snake::game::GameState;
use snake::game::Segment;
use snake::game::SnakeState;
use snake::grid::Dir;
use snake::grid::Pos;
use snake::tag::Tag;
use snake::tag::TagType;

fn no_keys() -> FrameInput {
    FrameInput { up: false, down: false, left: false, right: false, pause: false }
}

fn pause_key() -> FrameInput {
    FrameInput { up: false, down: false, left: false, right: false, pause: true }
}

fn head_cell(g: &GameState) -> Pos {
    g.body[g.head].pos
}

fn occupied_cells(g: &GameState) -> Vec<Pos> {
    let mut found = Vec::new();
    for y in 0..16u32 {
        for x in 0..16u32 {
            let p = Pos::new(x, y);
            if g.occ.contains_cell(p) {
                found.push(p);
            }
        }
    }
    found
}

#[test]
fn new_game_matches_setup_state() {
    let g = GameState::new();
    assert_eq!(g.head, 3);
    assert_eq!(g.body.len(), 4);
    for i in 0..4u32 {
        assert_eq!(g.body[i as usize].pos, Pos::new(i + 1, 8));
    }
    assert_eq!(head_cell(&g), Pos::new(4, 8));
    assert_eq!(g.snake_state, SnakeState::Dead);
    assert_eq!(g.food, Pos::new(12, 8));
    assert_eq!(g.sched.duration_ms, 600);
    assert_eq!(g.sched.elapsed_ms, 0);
    assert_eq!(g.dir.len(), 1);
    assert_eq!(g.dir.current(), Dir::Right);
    assert_eq!(g.score(), 0);
}

#[test]
fn straight_run_of_ten_ticks_reaches_column_fourteen() {
    let mut g = GameState::new();
    g.food = Pos::new(0, 0);
    for _ in 0..10 {
        let out = g.step();
        assert!(out.moved);
        assert!(!out.ate);
        assert_eq!(occupied_cells(&g).len(), 4);
    }
    assert_eq!(head_cell(&g), Pos::new(14, 8));
    assert_eq!(g.body.len(), 4);
}

#[test]
fn eating_grows_scores_and_relocates_food() {
    let mut g = GameState::new();
    // the default food at (12, 8) lies on the straight path from (4, 8)
    for _ in 0..7 {
        let out = g.step();
        assert!(!out.ate);
    }
    assert_eq!(head_cell(&g), Pos::new(11, 8));
    let out = g.step();
    assert!(out.ate);
    assert!(out.moved);
    assert_eq!(head_cell(&g), Pos::new(12, 8));
    assert_eq!(g.body.len(), 5);
    assert_eq!(g.score(), 1);
    assert_eq!(g.sched.duration_ms, 100);
    assert_ne!(g.food, Pos::new(12, 8));
    assert!(g.food.x < 16 && g.food.y < 16);
    assert!(!g.occ.contains_cell(g.food));
}

#[test]
fn occupancy_size_equals_length_except_growth_window() {
    let mut g = GameState::new();
    for _ in 0..8 {
        g.step();
    }
    // the eighth tick ate: two segments share the old tail cell for a tick
    assert_eq!(g.body.len(), 5);
    assert_eq!(occupied_cells(&g).len(), 4);
    g.food = Pos::new(0, 0);
    let out = g.step();
    assert!(out.moved);
    assert_eq!(g.body.len(), 5);
    assert_eq!(occupied_cells(&g).len(), 5);
}

#[test]
fn wall_hit_enters_forgiveness_without_committing() {
    let mut g = GameState::new();
    g.food = Pos::new(0, 0);
    for _ in 0..11 {
        g.step();
    }
    assert_eq!(head_cell(&g), Pos::new(15, 8));
    let before_body: Vec<Segment> = g.body.clone();
    let before_head = g.head;
    let out = g.step();
    assert!(!out.moved);
    assert!(!out.died);
    assert_eq!(g.snake_state, SnakeState::Forgive);
    assert_eq!(g.body, before_body);
    assert_eq!(g.head, before_head);
    assert_eq!(g.sched.duration_ms, 100);
    assert_eq!(g.sched.elapsed_ms, 0);
}

#[test]
fn second_collision_in_forgiveness_resets_the_game() {
    let mut g = GameState::new();
    g.food = Pos::new(0, 0);
    for _ in 0..12 {
        g.step();
    }
    assert_eq!(g.snake_state, SnakeState::Forgive);
    let out = g.step();
    assert!(out.died);
    assert_eq!(out.death_score, 0);
    assert_eq!(g.snake_state, SnakeState::Dead);
    assert_eq!(g.body.len(), 4);
    for i in 0..4u32 {
        assert_eq!(g.body[i as usize].pos, Pos::new(i + 1, 8));
    }
    let occ = occupied_cells(&g);
    assert_eq!(occ, vec![Pos::new(1, 8), Pos::new(2, 8), Pos::new(3, 8), Pos::new(4, 8)]);
    assert_eq!(g.food, Pos::new(12, 8));
    assert_eq!(g.sched.duration_ms, 600);
    assert_eq!(g.dir.len(), 1);
    assert_eq!(g.dir.current(), Dir::Right);
    assert_eq!(g.score(), 0);
}

#[test]
fn death_after_growth_reports_final_score_and_truncates() {
    let mut g = GameState::new();
    // eat the default food at (12, 8), then run into the right wall twice
    for _ in 0..8 {
        g.step();
    }
    assert_eq!(g.score(), 1);
    g.food = Pos::new(0, 0);
    for _ in 0..3 {
        let out = g.step();
        assert!(out.moved);
    }
    assert_eq!(head_cell(&g), Pos::new(15, 8));
    g.step();
    assert_eq!(g.snake_state, SnakeState::Forgive);
    let out = g.step();
    assert!(out.died);
    assert_eq!(out.death_score, 1);
    assert_eq!(g.body.len(), 4);
    assert_eq!(g.score(), 0);
}

#[test]
fn proposals_accepted_only_perpendicular() {
    let mut q = DirQueue::new();
    assert_eq!(q.back(), Dir::Right);
    assert!(!q.propose(Dir::Left));
    assert!(!q.propose(Dir::Right));
    assert_eq!(q.len(), 1);
    assert!(q.propose(Dir::Up));
    assert_eq!(q.len(), 2);
    assert_eq!(q.back(), Dir::Up);
    assert_eq!(q.current(), Dir::Right);
    assert!(!q.propose(Dir::Down));
    assert!(!q.propose(Dir::Up));
    assert_eq!(q.len(), 2);
    assert!(q.propose(Dir::Left));
    assert_eq!(q.len(), 3);
    assert_eq!(q.back(), Dir::Left);
}

#[test]
fn queue_never_empties() {
    let mut q = DirQueue::new();
    q.advance();
    q.advance();
    assert_eq!(q.len(), 1);
    assert_eq!(q.current(), Dir::Right);
    q.propose(Dir::Up);
    q.advance();
    assert_eq!(q.len(), 1);
    assert_eq!(q.current(), Dir::Up);
    q.advance();
    assert_eq!(q.len(), 1);
}

#[test]
fn turning_through_frames_steers_the_snake() {
    let mut g = GameState::new();
    g.food = Pos::new(0, 0);
    // first firing of the death pause moves the snake and revives it
    let out = g.frame(no_keys(), 600);
    assert!(out.moved);
    assert_eq!(g.snake_state, SnakeState::Alive);
    assert_eq!(head_cell(&g), Pos::new(5, 8));
    assert_eq!(g.sched.duration_ms, 150);
    // a same-axis key while heading right proposes nothing
    let left = FrameInput { left: true, ..no_keys() };
    g.frame(left, 0);
    assert_eq!(g.dir.len(), 1);
    // an up key proposes a quarter turn, applied on the next firing
    let up = FrameInput { up: true, ..no_keys() };
    g.frame(up, 0);
    assert_eq!(g.dir.len(), 2);
    let out = g.frame(no_keys(), 150);
    assert!(out.moved);
    assert_eq!(head_cell(&g), Pos::new(5, 9));
    assert_eq!(g.dir.len(), 1);
    assert_eq!(g.dir.current(), Dir::Up);
}

#[test]
fn accepted_turn_in_forgiveness_fires_immediately() {
    let mut g = GameState::new();
    g.food = Pos::new(0, 0);
    for _ in 0..12 {
        g.step();
    }
    assert_eq!(g.snake_state, SnakeState::Forgive);
    assert_eq!(head_cell(&g), Pos::new(15, 8));
    let up = FrameInput { up: true, ..no_keys() };
    let out = g.frame(up, 0);
    assert!(out.moved);
    assert_eq!(g.snake_state, SnakeState::Alive);
    assert_eq!(head_cell(&g), Pos::new(15, 9));
}

#[test]
fn pause_toggle_round_trip_restores_everything() {
    let mut g = GameState::new();
    g.food = Pos::new(0, 0);
    for _ in 0..3 {
        g.step();
    }
    g.frame(no_keys(), 37);
    let before_body: Vec<Segment> = g.body.clone();
    let before_head = g.head;
    let before_sched = g.sched;
    let before_food = g.food;
    let before_occ = occupied_cells(&g);
    let before_dir_len = g.dir.len();
    let before_dir_front = g.dir.current();
    assert_eq!(g.snake_state, SnakeState::Alive);
    let out = g.frame(pause_key(), 25);
    assert!(!out.moved);
    assert_eq!(g.snake_state, SnakeState::Pause(Box::new(SnakeState::Alive)));
    // frames spent paused change nothing, whatever time passes
    g.frame(no_keys(), 10_000);
    assert_eq!(g.sched, before_sched);
    let out = g.frame(pause_key(), 0);
    assert!(!out.moved);
    assert_eq!(g.snake_state, SnakeState::Alive);
    assert_eq!(g.body, before_body);
    assert_eq!(g.head, before_head);
    assert_eq!(g.sched, before_sched);
    assert_eq!(g.food, before_food);
    assert_eq!(occupied_cells(&g), before_occ);
    assert_eq!(g.dir.len(), before_dir_len);
    assert_eq!(g.dir.current(), before_dir_front);
}

#[test]
fn pause_wraps_any_unpaused_state() {
    let mut g = GameState::new();
    assert_eq!(g.snake_state, SnakeState::Dead);
    g.frame(pause_key(), 0);
    assert_eq!(g.snake_state, SnakeState::Pause(Box::new(SnakeState::Dead)));
    g.frame(pause_key(), 0);
    assert_eq!(g.snake_state, SnakeState::Dead);
}

#[test]
fn movement_keys_ignored_while_paused_and_dead() {
    let mut g = GameState::new();
    let up = FrameInput { up: true, ..no_keys() };
    // dead: turn input is ignored, the queue stays seeded
    g.frame(up, 0);
    assert_eq!(g.dir.len(), 1);
    // paused: everything but the pause toggle is ignored
    g.frame(pause_key(), 0);
    g.frame(up, 500);
    assert_eq!(g.dir.len(), 1);
    assert!(matches!(g.snake_state, SnakeState::Pause(_)));
}

#[test]
fn scheduler_accumulates_across_frames_before_firing() {
    let mut g = GameState::new();
    g.food = Pos::new(0, 0);
    let out = g.frame(no_keys(), 599);
    assert!(!out.moved);
    assert_eq!(g.sched.elapsed_ms, 599);
    assert_eq!(head_cell(&g), Pos::new(4, 8));
    let out = g.frame(no_keys(), 1);
    assert!(out.moved);
    assert_eq!(head_cell(&g), Pos::new(5, 8));
    assert_eq!(g.sched.elapsed_ms, 0);
}

#[test]
fn randomize_lands_on_the_board() {
    for _ in 0..50 {
        let mut p = Pos::new(99, 77);
        p.randomize();
        assert!(p.x < 16);
        assert!(p.y < 16);
    }
}

#[test]
fn score_text_and_food_tags_differ() {
    assert_eq!(Tag::score_text(), Tag(TagType::ScoreText));
    assert_eq!(Tag::food(), Tag(TagType::Food));
    assert_ne!(Tag::score_text(), Tag::food());
    assert_eq!(TagType::default(), TagType::Food);
}

#[test]
fn update_moves_one_cell_and_reports_walls() {
    let mut p = Pos::new(0, 0);
    assert!(p.update(Dir::Left));
    assert_eq!(p, Pos::new(0, 0));
    assert!(p.update(Dir::Down));
    assert_eq!(p, Pos::new(0, 0));
    assert!(!p.update(Dir::Right));
    assert_eq!(p, Pos::new(1, 0));
    assert!(!p.update(Dir::Up));
    assert_eq!(p, Pos::new(1, 1));
    let mut q = Pos::new(15, 15);
    assert!(q.update(Dir::Right));
    assert!(q.update(Dir::Up));
    assert_eq!(q, Pos::new(15, 15));
}
