//! The fixed warehouse layout and the predicates that classify a cell.

use vstd::prelude::*;
use crate::position::{Point, Pos};

verus! {

/// Pods are stored in columns `0..POD_COLUMNS`.
pub const POD_COLUMNS: i32 = 6;

/// Pods are stored in every second row from row 0 up to this row.
pub const LAST_POD_ROW: i32 = 8;

/// The column of the left highway lane.
pub const LEFT_LANE_COLUMN: i32 = 8;

/// The column of the right highway lane.
pub const RIGHT_LANE_COLUMN: i32 = 9;

/// The bottom row of the grid.
pub const LAST_ROW: i32 = 9;

/// One of the two vertical highway lanes.
#[derive(Clone, Copy, Debug, PartialEq, Eq, Structural)]
pub enum HighwayState {
    LeftLane,
    RightLane,
}

/// `y` is one of the pod-storage rows: an even row from 0 to `LAST_POD_ROW`.
pub open spec fn is_storage_row(y: int) -> bool {
    0 <= y <= LAST_POD_ROW && y % 2 == 0
}

/// The cell lies in a pod-storage row, left of the end of the storage
/// columns. Columns left of column 0 count as storage too.
pub open spec fn is_pod_row(p: Point) -> bool {
    is_storage_row(p.y) && p.x < POD_COLUMNS
}

/// The cell directly above lies in a pod-storage row.
pub open spec fn below_pod_row(p: Point) -> bool {
    is_pod_row(p.up())
}

/// The lane that the cell's column belongs to, if any.
pub open spec fn lane_state(p: Point) -> Option<HighwayState> {
    if p.x == LEFT_LANE_COLUMN {
        Some(HighwayState::LeftLane)
    } else if p.x == RIGHT_LANE_COLUMN {
        Some(HighwayState::RightLane)
    } else {
        None
    }
}

/// Classifies a position's column as left lane, right lane or neither.
pub fn highway_state(pos: &Pos) -> (state: Option<HighwayState>)
    ensures
        state == lane_state(pos@),
{
    if pos.x == LEFT_LANE_COLUMN {
        Some(HighwayState::LeftLane)
    } else if pos.x == RIGHT_LANE_COLUMN {
        Some(HighwayState::RightLane)
    } else {
        None
    }
}

/// Tells whether a position lies in a pod-storage row.
pub fn in_pod_row(grid_pos: &Pos) -> (b: bool)
    ensures
        b == is_pod_row(grid_pos@),
{
    0 <= grid_pos.y && grid_pos.y <= LAST_POD_ROW && grid_pos.y % 2 == 0 && grid_pos.x
        < POD_COLUMNS
}

/// Tells whether the cell directly above a position lies in a pod-storage
/// row. No position in the topmost representable row is below anything.
pub fn is_below_pod_row(grid_pos: &Pos) -> (b: bool)
    ensures
        b == below_pod_row(grid_pos@),
{
    grid_pos.y > i32::MIN && in_pod_row(&grid_pos.up())
}

} // verus!
