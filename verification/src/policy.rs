//! The movement policy: which neighbouring cells a robot should try next.
//!
//! The policy is a strict priority chain. The first rule whose condition
//! holds decides the whole answer; the cells come out in order of preference
//! so that a caller can fall back to the next one when a cell is taken.

use vstd::prelude::*;
use crate::grid::{
    below_pod_row, highway_state, in_pod_row, is_below_pod_row, is_pod_row, lane_state,
    HighwayState, LAST_ROW,
};
use crate::position::{points, sentinel, Point, Pos, Step};

verus! {

/// The robot is in the row from which it approaches its target column. A
/// robot that carries a pod towards a storage cell travels in the row below
/// that cell; every other robot travels in the target's own row.
pub open spec fn in_correct_row(pos: Point, target: Point, carrying: bool) -> bool {
    if carrying && is_pod_row(target) {
        pos.y == target.y + 1
    } else {
        pos.y == target.y
    }
}

/// The robot carries a pod and stands directly under the cell where the pod
/// belongs.
pub open spec fn under_drop_cell(pos: Point, target: Point, carrying: bool) -> bool {
    carrying && below_pod_row(pos) && pos.x == target.x && pos.y == target.y + 1
}

/// The moves of a robot in a highway lane.
pub open spec fn lane_candidates(
    lane: HighwayState,
    pos: Point,
    target: Point,
    carrying: bool,
) -> Seq<Point> {
    match lane {
        HighwayState::LeftLane => {
            if pos.y == target.y && target.x > pos.x {
                seq![pos.down(), pos.left()]
            } else if in_correct_row(pos, target, carrying) {
                seq![pos.left(), pos.down()]
            } else if pos.y == LAST_ROW {
                seq![pos.right()]
            } else if pos.y > target.y {
                seq![pos.right(), pos.down()]
            } else {
                seq![pos.down()]
            }
        },
        HighwayState::RightLane => {
            if pos.y == 0 {
                seq![pos.left()]
            } else if pos.y < target.y {
                seq![pos.left(), pos.up()]
            } else {
                seq![pos.up()]
            }
        },
    }
}

/// The moves of a robot on open floor: first reach the correct row, then
/// close in on the target column.
pub open spec fn floor_candidates(pos: Point, target: Point, carrying: bool) -> Seq<Point> {
    if !in_correct_row(pos, target, carrying) {
        if carrying && below_pod_row(pos) {
            seq![pos.right()]
        } else {
            seq![pos.right(), pos.up(), pos.down()]
        }
    } else if pos.x > target.x {
        if carrying {
            seq![pos.left(), pos.right()]
        } else {
            seq![pos.left(), pos.up(), pos.down()]
        }
    } else if pos.x < target.x {
        seq![pos.right()]
    } else {
        seq![pos]
    }
}

/// The ordered list of cells to try next for a robot at `pos` that heads for
/// `target`.
pub open spec fn candidates(pos: Point, target: Point, carrying: bool) -> Seq<Point> {
    if carrying && is_pod_row(pos) {
        seq![pos.down()]
    } else if under_drop_cell(pos, target, carrying) {
        seq![pos.up(), pos.right()]
    } else if let Some(lane) = lane_state(pos) {
        lane_candidates(lane, pos, target, carrying)
    } else {
        floor_candidates(pos, target, carrying)
    }
}

/// Every candidate cell has coordinates that fit a `Pos`.
pub open spec fn candidates_representable(pos: Point, target: Point, carrying: bool) -> bool {
    forall|i: int|
        0 <= i < candidates(pos, target, carrying).len() ==> (#[trigger] candidates(
            pos,
            target,
            carrying,
        )[i]).representable()
}

/// Tells whether a robot at `pos` is in the row from which it approaches
/// `target_pos`.
pub fn is_in_correct_row(pos: &Pos, target_pos: &Pos, is_carrying: bool) -> (b: bool)
    ensures
        b == in_correct_row(pos@, target_pos@, is_carrying),
{
    if is_carrying && in_pod_row(target_pos) {
        target_pos.y < i32::MAX && pos.y == target_pos.y + 1
    } else {
        pos.y == target_pos.y
    }
}

/// The cells that a list of steps leads to from `pos`, in the same order.
pub open spec fn route(pos: Point, steps: Seq<Step>) -> Seq<Point> {
    steps.map_values(|step: Step| pos.moved(step))
}

/// Decides which steps a robot at `pos` should try next on its way to
/// `target_pos`, in order of preference. The decision needs no arithmetic on
/// the robot's own coordinates, so it is made for every position.
pub fn plan_steps(pos: &Pos, target_pos: &Pos, is_carrying: bool) -> (steps: Vec<Step>)
    ensures
        route(pos@, steps@) == candidates(pos@, target_pos@, is_carrying),
        steps@.len() == candidates(pos@, target_pos@, is_carrying).len(),
{
    let is_in_pod_row = in_pod_row(pos);
    let is_below_pod_row = is_below_pod_row(pos);
    let is_in_correct_row = is_in_correct_row(pos, target_pos, is_carrying);

    if is_carrying && is_in_pod_row {
        vec![Step::Down]
    } else if is_carrying && is_below_pod_row && pos.x == target_pos.x && target_pos.y
        < i32::MAX && pos.y == target_pos.y + 1 {
        vec![Step::Up, Step::Right]
    } else {
        match highway_state(pos) {
            Some(HighwayState::LeftLane) => {
                if pos.y == target_pos.y && target_pos.x > pos.x {
                    vec![Step::Down, Step::Left]
                } else if is_in_correct_row {
                    vec![Step::Left, Step::Down]
                } else if pos.y == LAST_ROW {
                    vec![Step::Right]
                } else if pos.y > target_pos.y {
                    vec![Step::Right, Step::Down]
                } else {
                    vec![Step::Down]
                }
            },
            Some(HighwayState::RightLane) => {
                if pos.y == 0 {
                    vec![Step::Left]
                } else if pos.y < target_pos.y {
                    vec![Step::Left, Step::Up]
                } else {
                    vec![Step::Up]
                }
            },
            None => {
                if !is_in_correct_row {
                    if is_carrying && is_below_pod_row {
                        vec![Step::Right]
                    } else {
                        vec![Step::Right, Step::Up, Step::Down]
                    }
                } else if pos.x > target_pos.x {
                    if is_carrying {
                        vec![Step::Left, Step::Right]
                    } else {
                        vec![Step::Left, Step::Up, Step::Down]
                    }
                } else if pos.x < target_pos.x {
                    vec![Step::Right]
                } else {
                    vec![Step::Stay]
                }
            },
        }
    }
}

/// Tells whether every step of the list leads from `pos` to a cell whose
/// coordinates fit a `Pos`.
pub fn steps_fit(pos: &Pos, steps: &Vec<Step>) -> (fit: bool)
    ensures
        fit == forall|i: int|
            0 <= i < steps@.len() ==> pos@.moved(#[trigger] steps@[i]).representable(),
{
    let mut k: usize = 0;
    while k < steps.len()
        invariant
            k <= steps@.len(),
            forall|i: int| 0 <= i < k ==> pos@.moved(#[trigger] steps@[i]).representable(),
        decreases steps@.len() - k,
    {
        if !pos.can_step(steps[k]) {
            return false;
        }
        k += 1;
    }
    true
}

/// The positions that the steps of the list lead to from `pos`.
pub fn take_steps(pos: &Pos, steps: &Vec<Step>) -> (cells: Vec<Pos>)
    requires
        forall|i: int| 0 <= i < steps@.len() ==> pos@.moved(#[trigger] steps@[i]).representable(),
    ensures
        points(cells@) == route(pos@, steps@),
{
    let mut cells: Vec<Pos> = Vec::new();
    let mut k: usize = 0;
    while k < steps.len()
        invariant
            k <= steps@.len(),
            cells@.len() == k,
            forall|i: int|
                0 <= i < steps@.len() ==> pos@.moved(#[trigger] steps@[i]).representable(),
            forall|i: int| 0 <= i < k ==> (#[trigger] cells@[i])@ == pos@.moved(steps@[i]),
        decreases steps@.len() - k,
    {
        cells.push(pos.step(steps[k]));
        k += 1;
    }
    cells
}

/// The candidate cells are representable exactly when each planned step is.
proof fn lemma_route_fits(pos: Point, target: Point, carrying: bool, steps: Seq<Step>)
    requires
        route(pos, steps) == candidates(pos, target, carrying),
    ensures
        candidates_representable(pos, target, carrying) <==> forall|i: int|
            0 <= i < steps.len() ==> pos.moved(#[trigger] steps[i]).representable(),
{
    let want = candidates(pos, target, carrying);
    if candidates_representable(pos, target, carrying) {
        assert forall|i: int| 0 <= i < steps.len() implies pos.moved(
            #[trigger] steps[i],
        ).representable() by {
            assert(want[i] == pos.moved(steps[i]));
        }
    }
}

/// The ordered list of cells that a robot at `pos` should try next on its
/// way to `target_pos`. The caller takes the first cell that is free.
///
/// Every cell of the answer must have coordinates that fit a `Pos`; this
/// holds whenever `pos` is not on the rim of the `i32` range.
pub fn available_moves(pos: &Pos, target_pos: &Pos, is_carrying: bool) -> (moves: Vec<Pos>)
    requires
        candidates_representable(pos@, target_pos@, is_carrying),
    ensures
        points(moves@) == candidates(pos@, target_pos@, is_carrying),
        moves@.len() == candidates(pos@, target_pos@, is_carrying).len(),
        forall|i: int|
            0 <= i < moves@.len() ==> (#[trigger] moves@[i])@ == candidates(
                pos@,
                target_pos@,
                is_carrying,
            )[i],
{
    let steps = plan_steps(pos, target_pos, is_carrying);
    proof {
        lemma_route_fits(pos@, target_pos@, is_carrying, steps@);
    }
    take_steps(pos, &steps)
}

/// The same list as `available_moves` gives, for any position at all: where
/// a candidate cell would have a coordinate beyond the `i32` range, there is
/// no list to give and the answer is `None`.
pub fn try_available_moves(pos: &Pos, target_pos: &Pos, is_carrying: bool) -> (moves: Option<
    Vec<Pos>,
>)
    ensures
        moves is Some <==> candidates_representable(pos@, target_pos@, is_carrying),
        moves matches Some(cells) ==> points(cells@) == candidates(
            pos@,
            target_pos@,
            is_carrying,
        ),
{
    let steps = plan_steps(pos, target_pos, is_carrying);
    proof {
        lemma_route_fits(pos@, target_pos@, is_carrying, steps@);
    }
    if steps_fit(pos, &steps) {
        Some(take_steps(pos, &steps))
    } else {
        None
    }
}

/// A candidate list laid out in `slots` cells: the candidates first, then
/// the sentinel in every slot that is left.
pub open spec fn padded(moves: Seq<Point>, slots: nat) -> Seq<Point> {
    Seq::new(
        slots,
        |i: int|
            if i < moves.len() {
                moves[i]
            } else {
                sentinel()
            },
    )
}

/// Writes the candidate cells for a robot at `pos` into the three slots of
/// `result`, in order of preference, and the sentinel `(-1, -1)` into every
/// slot that is left over.
pub fn available_moves_u(pos: Pos, target_pos: Pos, is_carrying: bool, result: &mut [Pos; 3])
    requires
        candidates_representable(pos@, target_pos@, is_carrying),
    ensures
        points(final(result)@) == padded(candidates(pos@, target_pos@, is_carrying), 3),
        forall|i: int|
            0 <= i < 3 ==> (#[trigger] final(result)@[i])@ == padded(
                candidates(pos@, target_pos@, is_carrying),
                3,
            )[i],
{
    let moves = available_moves(&pos, &target_pos, is_carrying);
    let ghost want = padded(candidates(pos@, target_pos@, is_carrying), 3);
    let mut i: usize = 0;
    while i < 3
        invariant
            i <= 3,
            points(moves@) == candidates(pos@, target_pos@, is_carrying),
            want == padded(candidates(pos@, target_pos@, is_carrying), 3),
            forall|k: int| 0 <= k < i ==> (#[trigger] result@[k])@ == want[k],
        decreases 3 - i,
    {
        let slot = if i < moves.len() {
            moves[i]
        } else {
            Pos::none()
        };
        result[i] = slot;
        i += 1;
    }
}

/// The robot has nothing left to do: it is off the highway, in the correct
/// row and in the target's column, and neither the pickup nor the drop rule
/// applies.
pub open spec fn arrived(pos: Point, target: Point, carrying: bool) -> bool {
    &&& !(carrying && is_pod_row(pos))
    &&& !under_drop_cell(pos, target, carrying)
    &&& lane_state(pos) is None
    &&& in_correct_row(pos, target, carrying)
    &&& pos.x == target.x
}

/// The policy always answers with one to three cells, no cell twice. A robot
/// that has arrived is told to stay where it is; every other robot is offered
/// only cells that are one step away along a single axis.
pub proof fn lemma_candidates_shape(pos: Point, target: Point, carrying: bool)
    ensures
        1 <= candidates(pos, target, carrying).len() <= 3,
        forall|i: int, j: int|
            0 <= i < j < candidates(pos, target, carrying).len() ==> candidates(
                pos,
                target,
                carrying,
            )[i] != candidates(pos, target, carrying)[j],
        arrived(pos, target, carrying) ==> candidates(pos, target, carrying) == seq![pos],
        !arrived(pos, target, carrying) ==> forall|i: int|
            0 <= i < candidates(pos, target, carrying).len() ==> pos.adjacent(
                #[trigger] candidates(pos, target, carrying)[i],
            ),
{
}

/// A robot that does not carry a pod and already stands on its target, off
/// the highway, stays there. On the highway the lane rules win and the robot
/// keeps moving, so lane cells are left out.
pub proof fn lemma_stay_on_target(p: Point)
    requires
        lane_state(p) is None,
    ensures
        candidates(p, p, false) == seq![p],
{
}

/// A robot that carries a pod and stands in a pod-storage row leaves the row
/// downwards, whatever its target is.
pub proof fn lemma_pickup_escape(p: Point, target: Point)
    requires
        is_pod_row(p),
    ensures
        candidates(p, target, true) == seq![p.down()],
{
}

/// In a highway lane every candidate is a straight step: it keeps the column
/// or it keeps the row, and it never stays in place.
pub proof fn lemma_lane_moves_are_straight(pos: Point, target: Point, carrying: bool)
    requires
        lane_state(pos) is Some,
    ensures
        forall|i: int|
            0 <= i < candidates(pos, target, carrying).len() ==> {
                let m = #[trigger] candidates(pos, target, carrying)[i];
                (m.x == pos.x || m.y == pos.y) && pos.adjacent(m)
            },
{
}

/// A position whose neighbours all fit a `Pos` meets the demand that
/// `available_moves` makes of its arguments.
pub proof fn lemma_interior_is_representable(pos: Point, target: Point, carrying: bool)
    requires
        i32::MIN < pos.x < i32::MAX,
        i32::MIN < pos.y < i32::MAX,
    ensures
        candidates_representable(pos, target, carrying),
{
}

} // verus!
