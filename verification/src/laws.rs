//! The library-wide laws, stated and proved over the views and spec
//! functions that the operations' own contracts use.

use vstd::prelude::*;
use crate::grid::Pos;
use crate::grid::in_bounds;
use crate::game::GameState;
use crate::game::FrameInput;
use crate::game::StepOutcome;
use crate::game::SnakeState;
use crate::game::INIT_LENGTH;
use crate::game::frame_post;
use crate::occ::lemma_cell_count_membership;

verus! {

/// In every well-formed state, the direction queue holds at least one
/// direction, so the currently applied direction always exists.
pub proof fn lemma_direction_queue_never_empty(g: GameState)
    requires
        g.wf(),
    ensures
        g.dir@.len() >= 1,
{
}

/// The occupancy grid mirrors the body: a cell is occupied exactly when
/// it is among the body's cells, and whenever the body's cells are
/// distinct — which is every time except the one-tick window after
/// eating, while two segments share the old tail cell — the number of
/// occupied cells equals the body length.
pub proof fn lemma_occupancy_mirrors_body(g: GameState)
    requires
        g.wf(),
    ensures
        forall|p: Pos| #[trigger] g.occ.contains(p) <==> g.cells().to_set().contains(p),
        g.cells().no_duplicates() ==> g.cells().to_set().len() == g.body@.len(),
{
    broadcast use vstd::set::group_set_axioms;

    assert forall|p: Pos| #[trigger] g.occ.contains(p) <==> g.cells().to_set().contains(p) by {
        lemma_cell_count_membership(g.cells(), p);
        if !in_bounds(p) {
            g.occ.lemma_count_out_of_bounds(p);
            if g.cells().to_set().contains(p) {
                let i = choose|i: int| 0 <= i < g.cells().len() && g.cells()[i] == p;
                assert(in_bounds(g.body@[i].pos));
            }
        }
    }
    if g.cells().no_duplicates() {
        g.cells().unique_seq_to_set();
    }
}

/// The score is derived, body length minus the initial length, and is
/// never negative: a well-formed body never shrinks below that length.
pub proof fn lemma_score_never_negative(g: GameState)
    requires
        g.wf(),
    ensures
        g.body@.len() >= INIT_LENGTH,
{
}

/// Toggling pause twice in a row, with no direction key pressed and no
/// time passed on the resuming frame, restores exactly the state from
/// before the pause: body, occupancy, direction queue, scheduler phase,
/// food and state machine all unchanged.
pub proof fn lemma_pause_toggle_round_trip(
    g0: GameState,
    g1: GameState,
    g2: GameState,
    input: FrameInput,
    delta_first: u64,
    o1: StepOutcome,
    o2: StepOutcome,
)
    requires
        g0.wf(),
        !(g0.snake_state is Pause),
        !g0.sched.fired(),
        input.pause,
        !input.up,
        !input.down,
        !input.left,
        !input.right,
        frame_post(g0, g1, input, delta_first, o1),
        frame_post(g1, g2, input, 0, o2),
    ensures
        g2 == g0,
{
    assert(g1.snake_state matches SnakeState::Pause(prev) && *prev == g0.snake_state);
}

} // verus!
