//! The game state and the per-tick simulation: direction buffering,
//! collision detection against the occupancy grid, growth and food
//! placement, and the Alive / Forgive / Dead / Pause state machine.
//!
//! The body is a ring over a growable vector: `head` indexes the newest
//! segment, and the segment at `(head + 1) % len` is the oldest, the one
//! a moving tick vacates and reuses as the new head. Growth inserts a new
//! segment right behind the current tail, holding the tail's cell, so for
//! one tick two segments share that cell; the occupancy grid counts both.

use vstd::prelude::*;
use crate::grid::BOARD_SIZE;
use crate::grid::Dir;
use crate::grid::Pos;
use crate::grid::in_bounds;
use crate::grid::step_ok;
use crate::grid::stepped;
use crate::grid::vertical;
use crate::dirs::DirQueue;
use crate::sched::Scheduler;
use crate::sched::sat_add;
use crate::occ::OccGrid;
use crate::occ::cell_count;
use crate::occ::lemma_cell_count4;
use crate::occ::lemma_cell_count_insert;
use crate::occ::lemma_cell_count_le_len;
use crate::occ::lemma_cell_count_membership;
use crate::occ::lemma_cell_count_update;

verus! {

/// Number of body segments a life starts with.
pub const INIT_LENGTH: usize = 4;

/// Scheduler duration after a normal movement tick, in milliseconds.
pub const SPEED: u64 = 150;

/// Scheduler duration entered on death.
pub const DEATH_TIME: u64 = 600;

/// Scheduler duration after a successful eat.
pub const FOOD_BREAK: u64 = 100;

/// Scheduler duration of the grace window after a first collision.
pub const FORGIVENESS_BREAK: u64 = 100;

/// One body segment: the cell it covers and an opaque handle for the
/// presentation object that draws it.
#[derive(Clone, Copy, PartialEq, Eq, Structural, Debug)]
pub struct Segment {
    pub pos: Pos,
    pub id: u64,
}

/// The state machine. `Pause` nests the state to resume into; nesting is
/// never deeper than one level.
#[derive(Debug, PartialEq, Eq)]
pub enum SnakeState {
    Alive,
    Dead,
    Forgive,
    Pause(Box<SnakeState>),
}

/// A paused state never nests another pause.
pub open spec fn state_wf(s: SnakeState) -> bool {
    match s {
        SnakeState::Pause(prev) => !((*prev) is Pause),
        _ => true,
    }
}

/// The state a pause toggle resumes into.
pub open spec fn pause_prev(s: SnakeState) -> SnakeState {
    match s {
        SnakeState::Pause(prev) => *prev,
        _ => s,
    }
}

/// The keys pressed since the previous frame.
#[derive(Clone, Copy, PartialEq, Eq, Structural, Debug)]
pub struct FrameInput {
    pub up: bool,
    pub down: bool,
    pub left: bool,
    pub right: bool,
    pub pause: bool,
}

/// What a frame did: whether the snake moved, ate, or died — and on
/// death, the final score to report.
#[derive(Clone, Copy, PartialEq, Eq, Structural, Debug)]
pub struct StepOutcome {
    pub moved: bool,
    pub ate: bool,
    pub died: bool,
    pub death_score: usize,
}

/// The outcome of a frame in which the simulation did not step.
pub open spec fn no_step() -> StepOutcome {
    StepOutcome { moved: false, ate: false, died: false, death_score: 0 }
}

/// The cells the body covers, in storage order.
pub open spec fn seg_cells(body: Seq<Segment>) -> Seq<Pos> {
    body.map_values(|s: Segment| s.pos)
}

/// Cell of the `i`-th default segment: the starting row at mid-board.
pub open spec fn init_cell(i: int) -> Pos {
    Pos { x: (i + 1) as u32, y: BOARD_SIZE / 2 }
}

/// The default food cell.
pub open spec fn init_food() -> Pos {
    Pos { x: (BOARD_SIZE * 3 / 4) as u32, y: BOARD_SIZE / 2 }
}

/// The direction queue as it stands after a tick consumes it: the front
/// entry is dropped when more than one is buffered, otherwise kept.
pub open spec fn step_dirs(dirs: Seq<Dir>) -> Seq<Dir> {
    if dirs.len() > 1 {
        dirs.drop_first()
    } else {
        dirs
    }
}

/// The turn the pressed keys propose, given the back-most queued
/// direction: only a quarter turn is ever proposed, and opposite keys
/// pressed together cancel.
pub open spec fn proposed_dir(back: Dir, input: FrameInput) -> Option<Dir> {
    if vertical(back) {
        if input.left && !input.right {
            Some(Dir::Left)
        } else if input.right && !input.left {
            Some(Dir::Right)
        } else {
            None
        }
    } else {
        if input.down && !input.up {
            Some(Dir::Down)
        } else if input.up && !input.down {
            Some(Dir::Up)
        } else {
            None
        }
    }
}

/// The whole simulation state.
pub struct GameState {
    pub head: usize,
    pub body: Vec<Segment>,
    pub occ: OccGrid,
    pub dir: DirQueue,
    pub snake_state: SnakeState,
    pub sched: Scheduler,
    pub food: Pos,
    pub next_id: u64,
}

impl GameState {
    /// The cells the body covers.
    pub open spec fn cells(&self) -> Seq<Pos> {
        seg_cells(self.body@)
    }

    /// Some segment covers `p`.
    pub open spec fn occupied(&self, p: Pos) -> bool {
        cell_count(self.cells(), p) > 0
    }

    /// The well-formedness invariant every public operation preserves:
    /// the body never shrinks below its initial length, the head index is
    /// valid, every segment is on the board, the direction queue is never
    /// empty, pauses never nest, the occupancy grid counts exactly the
    /// segments on each cell, the food is on the board and on no segment,
    /// and the scheduler has a positive duration.
    pub open spec fn wf(&self) -> bool {
        &&& self.body@.len() >= INIT_LENGTH
        &&& self.head < self.body@.len()
        &&& (forall|i: int|
            0 <= i < self.body@.len() ==> in_bounds((#[trigger] self.body@[i]).pos))
        &&& self.dir.wf()
        &&& state_wf(self.snake_state)
        &&& self.occ.wf()
        &&& (forall|p: Pos|
            in_bounds(p) ==> #[trigger] self.occ.count(p) == cell_count(
                seg_cells(self.body@),
                p,
            ))
        &&& in_bounds(self.food)
        &&& cell_count(seg_cells(self.body@), self.food) == 0
        &&& self.sched.wf()
    }

    /// The cell of the current head segment.
    pub open spec fn head_pos(&self) -> Pos {
        self.body@[self.head as int].pos
    }

    /// Index of the oldest segment, the one a moving tick turns into the
    /// new head.
    pub open spec fn incoming_index(&self) -> int {
        (self.head + 1) % (self.body@.len() as int)
    }

    /// The cell that segment vacates on a moving tick.
    pub open spec fn vacating_pos(&self) -> Pos {
        self.body@[self.incoming_index()].pos
    }

    /// The direction a tick applies, after the queue is consumed.
    pub open spec fn step_dir_of(&self, dirs: Seq<Dir>) -> Dir {
        step_dirs(dirs)[0]
    }

    /// The tick's move leaves the board.
    pub open spec fn wall_hit(&self, dirs: Seq<Dir>) -> bool {
        !step_ok(self.head_pos(), self.step_dir_of(dirs))
    }

    /// The cell the head tries to enter; meaningful when the move stays
    /// on the board.
    pub open spec fn candidate(&self, dirs: Seq<Dir>) -> Pos {
        stepped(self.head_pos(), self.step_dir_of(dirs))
    }

    /// The collision policy: out of the board, or into an occupied cell
    /// other than the one being vacated this same tick.
    pub open spec fn collides(&self, dirs: Seq<Dir>) -> bool {
        self.wall_hit(dirs) || (self.occupied(self.candidate(dirs)) && self.candidate(dirs)
            != self.vacating_pos())
    }

    /// Score is derived, never stored: body length minus the initial
    /// length. Well-formedness keeps it non-negative.
    pub fn score(&self) -> (r: usize)
        requires
            self.wf(),
        ensures
            r + INIT_LENGTH == self.body@.len(),
    {
        self.body.len() - INIT_LENGTH
    }
}

/// After a first collision: nothing committed, the grace window armed.
pub open spec fn forgive_post(pre: GameState, post: GameState, dirs: Seq<Dir>) -> bool {
    &&& post.head == pre.head
    &&& post.body == pre.body
    &&& post.occ == pre.occ
    &&& post.food == pre.food
    &&& post.next_id == pre.next_id
    &&& post.dir@ == step_dirs(dirs)
    &&& post.snake_state == SnakeState::Forgive
    &&& post.sched == (Scheduler { duration_ms: FORGIVENESS_BREAK, elapsed_ms: 0 })
}

/// After the reset a second collision triggers: the body truncated to the
/// default row (keeping the surviving segments' handles), the queue back
/// to `Right`, food at its default cell, the death pause armed.
pub open spec fn death_post(pre: GameState, post: GameState) -> bool {
    &&& post.head == INIT_LENGTH - 1
    &&& post.body@.len() == INIT_LENGTH
    &&& (forall|i: int|
        0 <= i < INIT_LENGTH ==> #[trigger] post.body@[i] == Segment {
            pos: init_cell(i),
            id: pre.body@[i].id,
        })
    &&& post.dir@ =~= seq![Dir::Right]
    &&& post.snake_state == SnakeState::Dead
    &&& post.sched == (Scheduler { duration_ms: DEATH_TIME, elapsed_ms: 0 })
    &&& post.food == init_food()
    &&& post.next_id == pre.next_id
}

/// After a clean move without eating: the oldest segment becomes the new
/// head on the candidate cell, everything else stands.
pub open spec fn move_post(pre: GameState, post: GameState, dirs: Seq<Dir>) -> bool {
    let t1 = pre.incoming_index();
    &&& post.head == t1
    &&& post.body@ == pre.body@.update(
        t1,
        Segment { pos: pre.candidate(dirs), id: pre.body@[t1].id },
    )
    &&& post.dir@ == step_dirs(dirs)
    &&& post.food == pre.food
    &&& post.next_id == pre.next_id
    &&& post.snake_state == SnakeState::Alive
    &&& post.sched == (Scheduler { duration_ms: SPEED, elapsed_ms: 0 })
}

/// After a move onto the food cell: the move commits as in `move_post`,
/// then a new segment is inserted right behind the tail holding the
/// tail's cell, and the food lands on some free cell of the board.
pub open spec fn eat_post(pre: GameState, post: GameState, dirs: Seq<Dir>) -> bool {
    let t1 = pre.incoming_index();
    let len = pre.body@.len() as int;
    let moved = pre.body@.update(t1, Segment { pos: pre.candidate(dirs), id: pre.body@[t1].id });
    let t2 = (t1 + 1) % len;
    let grown = moved.insert(t2, Segment { pos: moved[t2].pos, id: pre.next_id });
    &&& post.body@ == grown
    &&& post.head == if t2 == 0 {
        len
    } else {
        t1
    }
    &&& post.dir@ == step_dirs(dirs)
    &&& in_bounds(post.food)
    &&& cell_count(seg_cells(post.body@), post.food) == 0
    &&& post.food != pre.food
    &&& post.next_id == if pre.next_id == u64::MAX {
        0u64
    } else {
        (pre.next_id + 1) as u64
    }
    &&& post.snake_state == SnakeState::Alive
    &&& post.sched == (Scheduler { duration_ms: FOOD_BREAK, elapsed_ms: 0 })
}

/// What one firing of the scheduler does, given the queue contents
/// `dirs` and the effective state `state0` at firing time.
pub open spec fn step_post_core(
    pre: GameState,
    state0: SnakeState,
    dirs: Seq<Dir>,
    post: GameState,
    out: StepOutcome,
) -> bool {
    &&& out.moved == !pre.collides(dirs)
    &&& out.ate == (!pre.collides(dirs) && pre.candidate(dirs) == pre.food)
    &&& out.died == (pre.collides(dirs) && state0 is Forgive)
    &&& (out.died ==> out.death_score + INIT_LENGTH == pre.body@.len())
    &&& (!out.died ==> out.death_score == 0)
    &&& if pre.collides(dirs) {
        if state0 is Forgive {
            death_post(pre, post)
        } else {
            forgive_post(pre, post, dirs)
        }
    } else if pre.candidate(dirs) == pre.food {
        eat_post(pre, post, dirs)
    } else {
        move_post(pre, post, dirs)
    }
}

/// `step_post_core` for a direct call of `step`.
pub open spec fn step_post(pre: GameState, post: GameState, out: StepOutcome) -> bool {
    step_post_core(pre, pre.snake_state, pre.dir@, post, out)
}

impl GameState {
    /// A new game in its post-setup state: the default body on the middle
    /// row with the head at its right end, facing right, food at its
    /// default cell, and the death pause counting down to the first move.
    pub fn new() -> (g: GameState)
        ensures
            g.wf(),
            g.head == INIT_LENGTH - 1,
            g.body@.len() == INIT_LENGTH,
            forall|i: int|
                0 <= i < INIT_LENGTH ==> #[trigger] g.body@[i] == (Segment {
                    pos: init_cell(i),
                    id: i as u64,
                }),
            g.dir@ =~= seq![Dir::Right],
            g.snake_state == SnakeState::Dead,
            g.sched == (Scheduler { duration_ms: DEATH_TIME, elapsed_ms: 0 }),
            g.food == init_food(),
            g.next_id == INIT_LENGTH as u64,
    {
        let mut body: Vec<Segment> = Vec::new();
        body.push(Segment { pos: Pos { x: 1, y: BOARD_SIZE / 2 }, id: 0 });
        body.push(Segment { pos: Pos { x: 2, y: BOARD_SIZE / 2 }, id: 1 });
        body.push(Segment { pos: Pos { x: 3, y: BOARD_SIZE / 2 }, id: 2 });
        body.push(Segment { pos: Pos { x: 4, y: BOARD_SIZE / 2 }, id: 3 });
        let mut occ = OccGrid::new();
        occ.inc(Pos { x: 1, y: BOARD_SIZE / 2 });
        occ.inc(Pos { x: 2, y: BOARD_SIZE / 2 });
        occ.inc(Pos { x: 3, y: BOARD_SIZE / 2 });
        occ.inc(Pos { x: 4, y: BOARD_SIZE / 2 });
        let g = GameState {
            head: INIT_LENGTH - 1,
            body,
            occ,
            dir: DirQueue::new(),
            snake_state: SnakeState::Dead,
            sched: Scheduler::new(DEATH_TIME),
            food: Pos { x: BOARD_SIZE * 3 / 4, y: BOARD_SIZE / 2 },
            next_id: 4,
        };
        proof {
            assert(seg_cells(g.body@) =~= seq![
                init_cell(0),
                init_cell(1),
                init_cell(2),
                init_cell(3),
            ]);
            assert forall|p: Pos| in_bounds(p) implies #[trigger] g.occ.count(p) == cell_count(
                seg_cells(g.body@),
                p,
            ) by {
                lemma_cell_count4(init_cell(0), init_cell(1), init_cell(2), init_cell(3), p);
            }
            lemma_cell_count4(init_cell(0), init_cell(1), init_cell(2), init_cell(3), g.food);
        }
        g
    }

    /// The Forgive-to-Dead reset: report nothing here — the caller reads
    /// the final score from the outcome — truncate the body to the
    /// default row, reset queue, occupancy, food, and arm the death
    /// pause.
    fn die(&mut self)
        requires
            old(self).wf(),
        ensures
            final(self).wf(),
            death_post(*old(self), *final(self)),
    {
        self.sched.restart(DEATH_TIME);
        self.head = INIT_LENGTH - 1;
        self.dir.reset();
        self.snake_state = SnakeState::Dead;
        self.body.truncate(INIT_LENGTH);
        let id0 = self.body[0].id;
        self.body.set(0, Segment { pos: Pos { x: 1, y: BOARD_SIZE / 2 }, id: id0 });
        let id1 = self.body[1].id;
        self.body.set(1, Segment { pos: Pos { x: 2, y: BOARD_SIZE / 2 }, id: id1 });
        let id2 = self.body[2].id;
        self.body.set(2, Segment { pos: Pos { x: 3, y: BOARD_SIZE / 2 }, id: id2 });
        let id3 = self.body[3].id;
        self.body.set(3, Segment { pos: Pos { x: 4, y: BOARD_SIZE / 2 }, id: id3 });
        self.occ.reset();
        self.occ.inc(Pos { x: 1, y: BOARD_SIZE / 2 });
        self.occ.inc(Pos { x: 2, y: BOARD_SIZE / 2 });
        self.occ.inc(Pos { x: 3, y: BOARD_SIZE / 2 });
        self.occ.inc(Pos { x: 4, y: BOARD_SIZE / 2 });
        self.food = Pos { x: BOARD_SIZE * 3 / 4, y: BOARD_SIZE / 2 };
        proof {
            assert(seg_cells(self.body@) =~= seq![
                init_cell(0),
                init_cell(1),
                init_cell(2),
                init_cell(3),
            ]);
            assert forall|p: Pos| in_bounds(p) implies #[trigger] self.occ.count(p) == cell_count(
                seg_cells(self.body@),
                p,
            ) by {
                lemma_cell_count4(init_cell(0), init_cell(1), init_cell(2), init_cell(3), p);
            }
            lemma_cell_count4(init_cell(0), init_cell(1), init_cell(2), init_cell(3), self.food);
        }
    }
}

/// What a frame does when no pause toggle intervenes, from the effective
/// state `state0`: elapsed time accumulates, an in-play state may accept
/// a proposed quarter turn (which in the grace window also force-fires
/// the scheduler), and if the scheduler has fired the simulation steps.
pub open spec fn advance_post(
    pre: GameState,
    state0: SnakeState,
    post: GameState,
    input: FrameInput,
    delta_ms: u64,
    out: StepOutcome,
) -> bool {
    let sched1 = Scheduler {
        duration_ms: pre.sched.duration_ms,
        elapsed_ms: sat_add(pre.sched.elapsed_ms, delta_ms),
    };
    let in_play = state0 is Alive || state0 is Forgive;
    let turn = if in_play {
        proposed_dir(pre.dir@.last(), input)
    } else {
        Option::<Dir>::None
    };
    let dirs1 = match turn {
        Some(t) => pre.dir@.push(t),
        None => pre.dir@,
    };
    let fired = (turn is Some && state0 is Forgive) || sched1.fired();
    if fired {
        step_post_core(pre, state0, dirs1, post, out)
    } else {
        &&& post.head == pre.head
        &&& post.body == pre.body
        &&& post.occ == pre.occ
        &&& (turn is None ==> post.dir == pre.dir)
        &&& post.dir@ == dirs1
        &&& post.snake_state == state0
        &&& post.sched == sched1
        &&& post.food == pre.food
        &&& post.next_id == pre.next_id
        &&& out == no_step()
    }
}

/// The whole per-frame behavior: the pause gate, then `advance_post`.
/// Toggling pause on, or a frame spent paused, changes nothing else.
pub open spec fn frame_post(
    pre: GameState,
    post: GameState,
    input: FrameInput,
    delta_ms: u64,
    out: StepOutcome,
) -> bool {
    if pre.snake_state is Pause {
        if input.pause {
            advance_post(pre, pause_prev(pre.snake_state), post, input, delta_ms, out)
        } else {
            post == pre && out == no_step()
        }
    } else if input.pause {
        &&& post.snake_state matches SnakeState::Pause(prev) && *prev == pre.snake_state
        &&& post.head == pre.head
        &&& post.body == pre.body
        &&& post.occ == pre.occ
        &&& post.dir == pre.dir
        &&& post.sched == pre.sched
        &&& post.food == pre.food
        &&& post.next_id == pre.next_id
        &&& out == no_step()
    } else {
        advance_post(pre, pre.snake_state, post, input, delta_ms, out)
    }
}

impl GameState {
    /// One frame of the cooperative loop: handle the pause toggle, feed
    /// elapsed time to the scheduler, buffer a proposed turn, and run the
    /// simulation step if the scheduler fired.
    pub fn frame(&mut self, input: FrameInput, delta_ms: u64) -> (out: StepOutcome)
        requires
            old(self).wf(),
            old(self).body@.len() < crate::occ::CELL_COUNT,
        ensures
            final(self).wf(),
            frame_post(*old(self), *final(self), input, delta_ms, out),
    {
        if matches!(self.snake_state, SnakeState::Pause(_)) {
            if input.pause {
                let mut prev_holder = SnakeState::Dead;
                core::mem::swap(&mut self.snake_state, &mut prev_holder);
                match prev_holder {
                    SnakeState::Pause(prev) => {
                        self.snake_state = *prev;
                    },
                    other => {
                        self.snake_state = other;
                    },
                }
            } else {
                return StepOutcome { moved: false, ate: false, died: false, death_score: 0 };
            }
        } else if input.pause {
            let mut prev_holder = SnakeState::Alive;
            core::mem::swap(&mut self.snake_state, &mut prev_holder);
            self.snake_state = SnakeState::Pause(Box::new(prev_holder));
            return StepOutcome { moved: false, ate: false, died: false, death_score: 0 };
        }
        self.sched.tick(delta_ms);
        let in_play = matches!(self.snake_state, SnakeState::Alive | SnakeState::Forgive);
        if in_play {
            let back = self.dir.back();
            let nd: Option<Dir> = if back == Dir::Up || back == Dir::Down {
                if input.left && !input.right {
                    Some(Dir::Left)
                } else if input.right && !input.left {
                    Some(Dir::Right)
                } else {
                    None
                }
            } else {
                if input.down && !input.up {
                    Some(Dir::Down)
                } else if input.up && !input.down {
                    Some(Dir::Up)
                } else {
                    None
                }
            };
            proof {
                assert(nd == proposed_dir(old(self).dir@.last(), input));
            }
            match nd {
                Some(d2) => {
                    let accepted = self.dir.propose(d2);
                    proof {
                        assert(accepted);
                    }
                    if matches!(self.snake_state, SnakeState::Forgive) {
                        self.sched.force_fire();
                    }
                },
                None => {},
            }
        }
        if self.sched.is_fired() {
            let out = self.step();
            return out;
        }
        StepOutcome { moved: false, ate: false, died: false, death_score: 0 }
    }
}

/// Draw random cells until one is free; after a bounded number of
/// unlucky draws, fall back to scanning the board for its first free
/// cell, which the precondition guarantees exists.
fn relocate_food(occ: &OccGrid) -> (f: Pos)
    requires
        occ.wf(),
        exists|p: Pos| in_bounds(p) && !occ.contains(p),
    ensures
        in_bounds(f),
        !occ.contains(f),
{
    let mut tries: u32 = 0;
    let mut f = Pos { x: 0, y: 0 };
    f.randomize();
    while tries < 1024 && occ.contains_cell(f)
        invariant
            occ.wf(),
            in_bounds(f),
        decreases 1024 - tries,
    {
        f.randomize();
        tries = tries + 1;
    }
    if !occ.contains_cell(f) {
        return f;
    }
    let mut y: u32 = 0;
    while y < BOARD_SIZE
        invariant
            occ.wf(),
            y <= BOARD_SIZE,
            forall|q: Pos| in_bounds(q) && q.y < y ==> occ.contains(q),
        decreases BOARD_SIZE - y,
    {
        let mut x: u32 = 0;
        while x < BOARD_SIZE
            invariant
                occ.wf(),
                y < BOARD_SIZE,
                x <= BOARD_SIZE,
                forall|q: Pos| in_bounds(q) && q.y < y ==> occ.contains(q),
                forall|q: Pos| in_bounds(q) && q.y == y && q.x < x ==> occ.contains(q),
            decreases BOARD_SIZE - x,
        {
            let c = Pos { x, y };
            if !occ.contains_cell(c) {
                return c;
            }
            x = x + 1;
        }
        y = y + 1;
    }
    proof {
        let p = choose|p: Pos| in_bounds(p) && !occ.contains(p);
        assert(occ.contains(p));
        assert(false);
    }
    Pos { x: 0, y: 0 }
}

impl GameState {
    /// One firing of the scheduler: consume the direction queue, move the
    /// head, apply the collision policy, handle eating and growth, and
    /// normalize the state.
    ///
    /// The body must be shorter than the board: on a board with no free
    /// cell left, relocating the food after an eat has nowhere to go, so
    /// such states are left out. Play never reaches them — the snake
    /// collides with itself long before covering the board.
    pub fn step(&mut self) -> (out: StepOutcome)
        requires
            old(self).wf(),
            !(old(self).snake_state is Pause),
            old(self).body@.len() < crate::occ::CELL_COUNT,
        ensures
            final(self).wf(),
            step_post(*old(self), *final(self), out),
    {
        let ghost dirs0 = self.dir@;
        self.dir.advance();
        let d = self.dir.current();
        let len = self.body.len();
        let t1 = (self.head + 1) % len;
        let vac = self.body[t1].pos;
        let mut cand = self.body[self.head].pos;
        let hit = cand.update(d);
        proof {
            assert(self.dir@ == step_dirs(dirs0));
            assert(d == old(self).step_dir_of(dirs0));
            assert(t1 as int == old(self).incoming_index());
            assert(seg_cells(old(self).body@)[t1 as int] == vac);
            assert(seg_cells(old(self).body@)[old(self).head as int] == old(self).head_pos());
        }
        let collision = hit || (self.occ.contains_cell(cand) && !(cand == vac));
        proof {
            assert(collision == old(self).collides(dirs0));
        }
        if collision {
            if matches!(self.snake_state, SnakeState::Forgive) {
                let sc = self.body.len() - INIT_LENGTH;
                self.die();
                return StepOutcome { moved: false, ate: false, died: true, death_score: sc };
            } else {
                self.snake_state = SnakeState::Forgive;
                self.sched.restart(FORGIVENESS_BREAK);
                return StepOutcome { moved: false, ate: false, died: false, death_score: 0 };
            }
        }
        // commit the move: the oldest segment becomes the head on `cand`
        proof {
            lemma_cell_count_membership(seg_cells(self.body@), vac);
            lemma_cell_count_le_len(seg_cells(self.body@), cand);
        }
        self.occ.dec(vac);
        self.occ.inc(cand);
        let id1 = self.body[t1].id;
        self.body.set(t1, Segment { pos: cand, id: id1 });
        let ate = cand == self.food;
        self.head = t1;
        proof {
            assert(seg_cells(self.body@) =~= seg_cells(old(self).body@).update(t1 as int, cand));
            assert forall|p: Pos| in_bounds(p) implies #[trigger] self.occ.count(p) == cell_count(
                seg_cells(self.body@),
                p,
            ) by {
                lemma_cell_count_update(seg_cells(old(self).body@), t1 as int, cand, p);
            }
            lemma_cell_count_update(seg_cells(old(self).body@), t1 as int, cand, old(self).food);
        }
        if ate {
            proof {
                crate::occ::lemma_free_cell_exists(seg_cells(self.body@));
            }
            self.food = relocate_food(&self.occ);
            let ghost mid_cells = seg_cells(self.body@);
            let len2 = self.body.len();
            let t2 = (self.head + 1) % len2;
            let tail_seg = self.body[t2];
            proof {
                lemma_cell_count_le_len(mid_cells, tail_seg.pos);
                assert(mid_cells[t2 as int] == tail_seg.pos);
                lemma_cell_count_membership(mid_cells, tail_seg.pos);
            }
            let nid = self.next_id;
            self.body.insert(t2, Segment { pos: tail_seg.pos, id: nid });
            self.occ.inc(tail_seg.pos);
            if t2 == 0 {
                self.head = len2;
            }
            self.next_id = if nid == u64::MAX {
                0
            } else {
                nid + 1
            };
            self.sched.restart(FOOD_BREAK);
            proof {
                assert(seg_cells(self.body@) =~= mid_cells.insert(t2 as int, tail_seg.pos));
                assert forall|p: Pos| in_bounds(p) implies #[trigger] self.occ.count(p)
                    == cell_count(seg_cells(self.body@), p) by {
                    lemma_cell_count_insert(mid_cells, t2 as int, tail_seg.pos, p);
                }
                lemma_cell_count_insert(mid_cells, t2 as int, tail_seg.pos, self.food);
            }
            self.snake_state = SnakeState::Alive;
            StepOutcome { moved: true, ate: true, died: false, death_score: 0 }
        } else {
            self.sched.restart(SPEED);
            self.snake_state = SnakeState::Alive;
            StepOutcome { moved: true, ate: false, died: false, death_score: 0 }
        }
    }
}

} // verus!
