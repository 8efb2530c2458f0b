//! Board geometry: cells, directions, and bounds-checked movement on the
//! fixed 16 x 16 grid. No wraparound: a move that would leave the board is
//! reported as a wall hit and leaves the cell unchanged.

use vstd::prelude::*;

verus! {

/// Width and height of the square board, in cells.
pub const BOARD_SIZE: u32 = 16;

/// One of the four cardinal movement directions.
#[derive(Clone, Copy, PartialEq, Eq, Structural, Debug)]
pub enum Dir {
    Up,
    Down,
    Left,
    Right,
}

/// True when the direction moves along the vertical axis.
pub open spec fn vertical(d: Dir) -> bool {
    d == Dir::Up || d == Dir::Down
}

/// Two directions are perpendicular when they lie on different axes.
/// A quarter turn is perpendicular; a reversal or a repeat is not.
pub open spec fn perpendicular(a: Dir, b: Dir) -> bool {
    vertical(a) != vertical(b)
}

/// A cell of the board, addressed by its column and row.
#[derive(Clone, Copy, PartialEq, Eq, Structural, Debug)]
pub struct Pos {
    pub x: u32,
    pub y: u32,
}

/// True when the cell lies on the board.
pub open spec fn in_bounds(p: Pos) -> bool {
    p.x < BOARD_SIZE && p.y < BOARD_SIZE
}

/// True when one step from `p` in direction `d` stays on the board.
pub open spec fn step_ok(p: Pos, d: Dir) -> bool {
    match d {
        Dir::Right => p.x + 1 < BOARD_SIZE,
        Dir::Up => p.y + 1 < BOARD_SIZE,
        Dir::Left => p.x > 0,
        Dir::Down => p.y > 0,
    }
}

/// The cell one step from `p` in direction `d`; meaningful when
/// `step_ok(p, d)` holds.
pub open spec fn stepped(p: Pos, d: Dir) -> Pos {
    match d {
        Dir::Right => Pos { x: (p.x + 1) as u32, y: p.y },
        Dir::Up => Pos { x: p.x, y: (p.y + 1) as u32 },
        Dir::Left => Pos { x: (p.x - 1) as u32, y: p.y },
        Dir::Down => Pos { x: p.x, y: (p.y - 1) as u32 },
    }
}

impl Pos {
    pub fn new(x: u32, y: u32) -> (r: Self)
        ensures
            r == (Pos { x, y }),
    {
        Self { x, y }
    }

    /// Move one cell in `dir`, staying on the board. Returns true — and
    /// leaves the cell unchanged — when the move would leave the board.
    pub fn update(&mut self, dir: Dir) -> (hit_wall: bool)
        requires
            in_bounds(*old(self)),
        ensures
            in_bounds(*final(self)),
            hit_wall == !step_ok(*old(self), dir),
            step_ok(*old(self), dir) ==> *final(self) == stepped(*old(self), dir),
            !step_ok(*old(self), dir) ==> *final(self) == *old(self),
    {
        match dir {
            Dir::Right => {
                if self.x == BOARD_SIZE - 1 {
                    true
                } else {
                    self.x = self.x + 1;
                    false
                }
            },
            Dir::Up => {
                if self.y == BOARD_SIZE - 1 {
                    true
                } else {
                    self.y = self.y + 1;
                    false
                }
            },
            Dir::Left => {
                if 0 < self.x {
                    self.x = self.x - 1;
                    false
                } else {
                    true
                }
            },
            Dir::Down => {
                if 0 < self.y {
                    self.y = self.y - 1;
                    false
                } else {
                    true
                }
            },
        }
    }

    /// Relies on rand: `thread_rng().sample` over `Uniform::from(0..BOARD_SIZE)`
    /// returns a value in that range. Nothing more is assumed of the draw.
    #[verifier::external_body]
    pub fn randomize(&mut self)
        ensures
            in_bounds(*final(self)),
    {
        let mut rng = rand::thread_rng();
        let distr = rand::distributions::Uniform::from(0..BOARD_SIZE);
        self.x = rand::Rng::sample(&mut rng, distr);
        self.y = rand::Rng::sample(&mut rng, distr);
    }
}

} // verus!
