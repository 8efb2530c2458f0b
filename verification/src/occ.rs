//! The occupancy grid: for every board cell, how many body segments cover
//! it. Membership ("is this cell occupied?") is a single array read, which
//! keeps collision detection constant-time. The grid mirrors the body: its
//! count for a cell always equals the number of segments on that cell,
//! so occupied cells are exactly the cells some segment covers, even in
//! the one-tick window after eating when two segments share the old tail
//! cell.

use vstd::prelude::*;
use crate::grid::BOARD_SIZE;
use crate::grid::Pos;
use crate::grid::in_bounds;

verus! {

/// Number of cells on the board.
pub const CELL_COUNT: usize = 256;

/// How many entries of `cells` equal `p`.
pub open spec fn cell_count(cells: Seq<Pos>, p: Pos) -> nat
    decreases cells.len(),
{
    if cells.len() == 0 {
        0
    } else {
        cell_count(cells.drop_last(), p) + if cells.last() == p {
            1nat
        } else {
            0nat
        }
    }
}

pub proof fn lemma_cell_count_concat(a: Seq<Pos>, b: Seq<Pos>, p: Pos)
    ensures
        cell_count(a + b, p) == cell_count(a, p) + cell_count(b, p),
    decreases b.len(),
{
    if b.len() == 0 {
        assert(a + b =~= a);
    } else {
        assert((a + b).drop_last() =~= a + b.drop_last());
        assert((a + b).last() == b.last());
        lemma_cell_count_concat(a, b.drop_last(), p);
    }
}

pub proof fn lemma_cell_count_singleton(v: Pos, p: Pos)
    ensures
        cell_count(seq![v], p) == if v == p {
            1nat
        } else {
            0nat
        },
{
    assert(cell_count(Seq::<Pos>::empty(), p) == 0);
    assert(seq![v].drop_last() =~= Seq::<Pos>::empty());
    assert(seq![v].last() == v);
}

pub proof fn lemma_cell_count_push(s: Seq<Pos>, v: Pos, p: Pos)
    ensures
        cell_count(s.push(v), p) == cell_count(s, p) + if v == p {
            1nat
        } else {
            0nat
        },
{
    assert(s.push(v) =~= s + seq![v]);
    lemma_cell_count_concat(s, seq![v], p);
    lemma_cell_count_singleton(v, p);
}

pub proof fn lemma_cell_count_le_len(s: Seq<Pos>, p: Pos)
    ensures
        cell_count(s, p) <= s.len(),
    decreases s.len(),
{
    if s.len() > 0 {
        lemma_cell_count_le_len(s.drop_last(), p);
    }
}

/// A cell is counted at least once exactly when some entry equals it.
pub proof fn lemma_cell_count_membership(s: Seq<Pos>, p: Pos)
    ensures
        cell_count(s, p) > 0 <==> exists|i: int| 0 <= i < s.len() && s[i] == p,
    decreases s.len(),
{
    if s.len() > 0 {
        lemma_cell_count_membership(s.drop_last(), p);
        if s.last() == p {
            assert(s[s.len() - 1] == p);
        } else {
            if cell_count(s.drop_last(), p) > 0 {
                let i = choose|i: int| 0 <= i < s.drop_last().len() && s.drop_last()[i] == p;
                assert(s[i] == p);
            }
            if exists|i: int| 0 <= i < s.len() && s[i] == p {
                let i = choose|i: int| 0 <= i < s.len() && s[i] == p;
                assert(i < s.len() - 1);
                assert(s.drop_last()[i] == p);
            }
        }
    }
}

pub proof fn lemma_cell_count_update(s: Seq<Pos>, i: int, v: Pos, p: Pos)
    requires
        0 <= i < s.len(),
    ensures
        cell_count(s.update(i, v), p) == cell_count(s, p) - (if s[i] == p {
            1nat
        } else {
            0nat
        }) + (if v == p {
            1nat
        } else {
            0nat
        }),
{
    let pre = s.subrange(0, i);
    let post = s.subrange(i + 1, s.len() as int);
    assert(s =~= pre + seq![s[i]] + post);
    assert(s.update(i, v) =~= pre + seq![v] + post);
    lemma_cell_count_concat(pre + seq![s[i]], post, p);
    lemma_cell_count_concat(pre, seq![s[i]], p);
    lemma_cell_count_concat(pre + seq![v], post, p);
    lemma_cell_count_concat(pre, seq![v], p);
    lemma_cell_count_singleton(s[i], p);
    lemma_cell_count_singleton(v, p);
    lemma_cell_count_le_len(pre, p);
    lemma_cell_count_le_len(post, p);
}

pub proof fn lemma_cell_count_insert(s: Seq<Pos>, i: int, v: Pos, p: Pos)
    requires
        0 <= i <= s.len(),
    ensures
        cell_count(s.insert(i, v), p) == cell_count(s, p) + if v == p {
            1nat
        } else {
            0nat
        },
{
    let pre = s.subrange(0, i);
    let post = s.subrange(i, s.len() as int);
    assert(s =~= pre + post);
    assert(s.insert(i, v) =~= pre + seq![v] + post);
    lemma_cell_count_concat(pre, post, p);
    lemma_cell_count_concat(pre + seq![v], post, p);
    lemma_cell_count_concat(pre, seq![v], p);
    lemma_cell_count_singleton(v, p);
}

/// Counting over a four-cell sequence, spelled out: what each default
/// body configuration needs.
pub proof fn lemma_cell_count4(a: Pos, b: Pos, c: Pos, d: Pos, p: Pos)
    ensures
        cell_count(seq![a, b, c, d], p) == (if a == p {
            1nat
        } else {
            0nat
        }) + (if b == p {
            1nat
        } else {
            0nat
        }) + (if c == p {
            1nat
        } else {
            0nat
        }) + (if d == p {
            1nat
        } else {
            0nat
        }),
{
    assert(seq![a, b, c, d] =~= seq![a, b, c].push(d));
    assert(seq![a, b, c] =~= seq![a, b].push(c));
    assert(seq![a, b] =~= seq![a].push(b));
    lemma_cell_count_push(seq![a, b, c], d, p);
    lemma_cell_count_push(seq![a, b], c, p);
    lemma_cell_count_push(seq![a], b, p);
    lemma_cell_count_singleton(a, p);
}

/// Pigeonhole: fewer entries than board cells leaves some cell uncounted.
pub proof fn lemma_free_cell_exists(cells: Seq<Pos>)
    requires
        cells.len() < CELL_COUNT,
    ensures
        exists|p: Pos| in_bounds(p) && cell_count(cells, p) == 0,
{
    broadcast use vstd::seq_lib::seq_to_set_is_finite;
    broadcast use vstd::set::group_set_axioms;

    let all = Seq::new(CELL_COUNT as nat, |i: int| Pos { x: (i % 16) as u32, y: (i / 16) as u32 });
    assert forall|i: int, j: int| 0 <= i < all.len() && 0 <= j < all.len() && i != j implies all[i]
        != all[j] by {
        assert(i == 16 * (i / 16) + (i % 16));
        assert(j == 16 * (j / 16) + (j % 16));
    }
    assert(all.no_duplicates());
    all.unique_seq_to_set();
    if forall|p: Pos| in_bounds(p) ==> cell_count(cells, p) > 0 {
        assert forall|p: Pos| all.to_set().contains(p) implies cells.to_set().contains(p) by {
            let i = choose|i: int| 0 <= i < all.len() && all[i] == p;
            assert(0 <= i % 16 < 16 && 0 <= i / 16 < 16);
            assert(in_bounds(p));
            lemma_cell_count_membership(cells, p);
            let k = choose|k: int| 0 <= k < cells.len() && cells[k] == p;
            assert(cells.contains(p));
        }
        vstd::set_lib::lemma_len_subset(all.to_set(), cells.to_set());
        cells.lemma_cardinality_of_set();
        assert(false);
    }
}

/// Per-cell segment counts, indexed row-major.
pub struct OccGrid {
    counts: Vec<usize>,
}

/// Row-major index of a cell.
pub open spec fn spec_cell_index(p: Pos) -> int {
    p.y * BOARD_SIZE + p.x
}

impl OccGrid {
    pub closed spec fn wf(&self) -> bool {
        self.counts@.len() == CELL_COUNT
    }

    /// The stored count for a cell; zero off the board.
    pub closed spec fn count(&self, p: Pos) -> nat {
        if in_bounds(p) && 0 <= spec_cell_index(p) < self.counts@.len() {
            self.counts@[spec_cell_index(p)] as nat
        } else {
            0
        }
    }

    /// A cell is occupied when at least one segment covers it.
    pub open spec fn contains(&self, p: Pos) -> bool {
        self.count(p) > 0
    }

    /// Off the board, nothing is ever counted.
    pub proof fn lemma_count_out_of_bounds(&self, p: Pos)
        requires
            !in_bounds(p),
        ensures
            self.count(p) == 0,
    {
    }

    /// An empty grid: every count zero.
    pub fn new() -> (r: Self)
        ensures
            r.wf(),
            forall|p: Pos| r.count(p) == 0,
    {
        let mut counts: Vec<usize> = Vec::new();
        let mut i: usize = 0;
        while i < CELL_COUNT
            invariant
                counts@.len() == i,
                i <= CELL_COUNT,
                forall|j: int| 0 <= j < i ==> counts@[j] == 0,
            decreases CELL_COUNT - i,
        {
            counts.push(0);
            i = i + 1;
        }
        OccGrid { counts }
    }

    /// Forget every count.
    pub fn reset(&mut self)
        ensures
            final(self).wf(),
            forall|p: Pos| final(self).count(p) == 0,
    {
        let fresh = OccGrid::new();
        self.counts = fresh.counts;
    }

    /// O(1) membership test.
    pub fn contains_cell(&self, p: Pos) -> (b: bool)
        requires
            self.wf(),
            in_bounds(p),
        ensures
            b == self.contains(p),
    {
        let idx = (p.y * BOARD_SIZE + p.x) as usize;
        self.counts[idx] > 0
    }

    /// One more segment covers `p`.
    pub fn inc(&mut self, p: Pos)
        requires
            old(self).wf(),
            in_bounds(p),
            old(self).count(p) < usize::MAX,
        ensures
            final(self).wf(),
            final(self).count(p) == old(self).count(p) + 1,
            forall|q: Pos| q != p ==> final(self).count(q) == old(self).count(q),
    {
        let idx = (p.y * BOARD_SIZE + p.x) as usize;
        let c = self.counts[idx];
        self.counts.set(idx, c + 1);
        proof {
            assert forall|q: Pos| q != p implies self.count(q) == old(self).count(q) by {
                if in_bounds(q) && spec_cell_index(q) == spec_cell_index(p) {
                    assert(q.x == p.x && q.y == p.y);
                }
            }
        }
    }

    /// One fewer segment covers `p`.
    pub fn dec(&mut self, p: Pos)
        requires
            old(self).wf(),
            in_bounds(p),
            old(self).count(p) > 0,
        ensures
            final(self).wf(),
            final(self).count(p) == old(self).count(p) - 1,
            forall|q: Pos| q != p ==> final(self).count(q) == old(self).count(q),
    {
        let idx = (p.y * BOARD_SIZE + p.x) as usize;
        let c = self.counts[idx];
        self.counts.set(idx, c - 1);
        proof {
            assert forall|q: Pos| q != p implies self.count(q) == old(self).count(q) by {
                if in_bounds(q) && spec_cell_index(q) == spec_cell_index(p) {
                    assert(q.x == p.x && q.y == p.y);
                }
            }
        }
    }
}

} // verus!
