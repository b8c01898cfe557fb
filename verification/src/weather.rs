//! The weather grid's cache bound: only cells near the player are kept, so
//! the cost of the weather stays flat however far the ship sails.

use vstd::prelude::*;

verus! {

/// Cells are filled this many cells around the player's cell, along each axis.
pub const WEATHER_RADIUS: i32 = 6;

/// Cells further than this from the player's cell, along either axis, are dropped.
pub const WEATHER_KEEP: i32 = 8;

/// Cell `cell` lies within `keep` cells of `center` along both axes.
pub open spec fn cell_within(cell: (i32, i32), center: (i32, i32), keep: int) -> bool {
    &&& -keep <= cell.0 - center.0 <= keep
    &&& -keep <= cell.1 - center.1 <= keep
}

/// Whether the weather grid keeps cell `cell` while the player is in cell
/// `center`: it does exactly when the cell lies within `WEATHER_KEEP` cells
/// along both axes.
pub fn keep_weather_cell(cell: (i32, i32), center: (i32, i32)) -> (kept: bool)
    requires
        i32::MIN < cell.0 - center.0 <= i32::MAX,
        i32::MIN < cell.1 - center.1 <= i32::MAX,
    ensures
        kept == cell_within(cell, center, WEATHER_KEEP as int),
{
    let dx = cell.0 - center.0;
    let dy = cell.1 - center.1;
    -WEATHER_KEEP <= dx && dx <= WEATHER_KEEP && -WEATHER_KEEP <= dy && dy <= WEATHER_KEEP
}

} // verus!
