//! Raster tiling, paint budgets and cache retention.

use vstd::prelude::*;

use crate::reader::{PixelRect, RasterSize, TileKey};

verus! {

/// Edge length, in pixels, of a full raster tile.
pub const TILE_SIZE: u32 = 1024;

/// The pixels of the raster that a tile owns: its grid cell clipped to the
/// raster, or nothing when the cell starts outside it.
pub open spec fn tile_core_spec(key: TileKey) -> Option<PixelRect> {
    let x = key.column as int * TILE_SIZE as int;
    let y = key.row as int * TILE_SIZE as int;
    if x < key.raster.width && y < key.raster.height {
        Some(
            PixelRect {
                x: x as u32,
                y: y as u32,
                width: (if key.raster.width - x < TILE_SIZE {
                    key.raster.width - x
                } else {
                    TILE_SIZE as int
                }) as u32,
                height: (if key.raster.height - y < TILE_SIZE {
                    key.raster.height - y
                } else {
                    TILE_SIZE as int
                }) as u32,
            },
        )
    } else {
        None
    }
}

/// The rectangle holds the pixel `(px, py)`.
pub open spec fn pixel_in_rect(rect: PixelRect, px: int, py: int) -> bool {
    rect.x <= px < rect.x + rect.width && rect.y <= py < rect.y + rect.height
}

/// The pixels a tile renders without its bleed margin: the tile's grid cell
/// clipped to the raster, or `None` for a cell outside the raster.
pub fn tile_core_rect(key: TileKey) -> (rect: Option<PixelRect>)
    ensures
        rect == tile_core_spec(key),
{
    let x: u64 = key.column as u64 * TILE_SIZE as u64;
    let y: u64 = key.row as u64 * TILE_SIZE as u64;
    let width = key.raster.width as u64;
    let height = key.raster.height as u64;
    if x >= width || y >= height {
        return None;
    }
    let tile_width = if width - x < TILE_SIZE as u64 {
        width - x
    } else {
        TILE_SIZE as u64
    };
    let tile_height = if height - y < TILE_SIZE as u64 {
        height - y
    } else {
        TILE_SIZE as u64
    };
    Some(PixelRect { x: x as u32, y: y as u32, width: tile_width as u32, height: tile_height as u32 })
}

/// Every tile of the grid is at least one pixel wide and high and at most a
/// full tile; every pixel of the raster lies in exactly one tile, the one of its
/// grid cell.
pub proof fn law_tile_grid_partitions_raster(page: usize, raster: RasterSize, px: u32, py: u32, other: TileKey)
    requires
        px < raster.width,
        py < raster.height,
        other.page == page,
        other.raster == raster,
    ensures
        tile_core_spec(TileKey { page, raster, column: px / TILE_SIZE, row: py / TILE_SIZE }) is Some,
        pixel_in_rect(
            tile_core_spec(TileKey { page, raster, column: px / TILE_SIZE, row: py / TILE_SIZE })->0,
            px as int,
            py as int,
        ),
        tile_core_spec(other) is Some ==> {
            &&& 1 <= tile_core_spec(other)->0.width <= TILE_SIZE
            &&& 1 <= tile_core_spec(other)->0.height <= TILE_SIZE
        },
        tile_core_spec(other) is Some && pixel_in_rect(tile_core_spec(other)->0, px as int, py as int)
            ==> other.column == px / TILE_SIZE && other.row == py / TILE_SIZE,
{
    let column = px / TILE_SIZE;
    let row = py / TILE_SIZE;
    assert(column as int * 1024 <= px < column as int * 1024 + 1024) by (nonlinear_arith)
        requires
            column == px / 1024,
    ;
    assert(row as int * 1024 <= py < row as int * 1024 + 1024) by (nonlinear_arith)
        requires
            row == py / 1024,
    ;
    if tile_core_spec(other) is Some && pixel_in_rect(tile_core_spec(other)->0, px as int, py as int) {
        let c = other.column as int;
        let r = other.row as int;
        assert(c == column) by (nonlinear_arith)
            requires
                c * 1024 <= px < c * 1024 + 1024,
                column * 1024 <= px < column * 1024 + 1024,
        ;
        assert(r == row) by (nonlinear_arith)
            requires
                r * 1024 <= py < r * 1024 + 1024,
                row * 1024 <= py < row * 1024 + 1024,
        ;
    }
}

/// A hard cap on the number of items one paint pass may draw.
pub struct PaintBudget {
    remaining: usize,
}

impl View for PaintBudget {
    type V = nat;

    /// How many more items may be drawn.
    closed spec fn view(&self) -> nat {
        self.remaining as nat
    }
}

/// One `take` on a budget with `left` items: the items left afterwards and
/// whether the item was granted.
pub open spec fn take_spec(left: nat) -> (nat, bool) {
    if left > 0 {
        ((left - 1) as nat, true)
    } else {
        (0, false)
    }
}

/// How many of `k` successive takes a budget with `left` items grants.
pub open spec fn takes_granted(left: nat, k: nat) -> nat
    decreases k,
{
    if k == 0 {
        0
    } else {
        let (rest, granted) = take_spec(left);
        (if granted {
            1nat
        } else {
            0nat
        }) + takes_granted(rest, (k - 1) as nat)
    }
}

impl PaintBudget {
    pub fn new(limit: usize) -> (budget: Self)
        ensures
            budget@ == limit,
    {
        PaintBudget { remaining: limit }
    }

    /// No item may be drawn any more.
    pub fn exhausted(&self) -> (done: bool)
        ensures
            done == (self@ == 0),
    {
        self.remaining == 0
    }

    /// How many more items may be drawn.
    pub fn remaining(&self) -> (left: usize)
        ensures
            left == self@,
    {
        self.remaining
    }

    /// Claims one item; `false`, with nothing changed, once the budget is spent.
    pub fn take(&mut self) -> (granted: bool)
        ensures
            (final(self)@, granted) == take_spec(old(self)@),
    {
        if self.remaining == 0 {
            false
        } else {
            self.remaining = self.remaining - 1;
            true
        }
    }

    /// Claims up to `count` items, as many as are left.
    pub fn take_up_to(&mut self, count: usize)
        ensures
            final(self)@ == (if count < old(self)@ {
                old(self)@ - count
            } else {
                0
            }),
    {
        if count < self.remaining {
            self.remaining = self.remaining - count;
        } else {
            self.remaining = 0;
        }
    }
}

/// A budget of `limit` items grants exactly `min(k, limit)` of `k` successive
/// takes: never more than its limit, and every take while items are left.
pub proof fn law_paint_budget_is_hard(limit: nat, k: nat)
    ensures
        takes_granted(limit, k) == (if k < limit {
            k
        } else {
            limit
        }),
    decreases k,
{
    if k > 0 {
        if limit > 0 {
            law_paint_budget_is_hard((limit - 1) as nat, (k - 1) as nat);
        } else {
            law_paint_budget_is_hard(0, (k - 1) as nat);
        }
    }
}

/// Identity of an annotation in the document's annotation set.
#[derive(Clone, Copy, Debug, PartialEq, Eq, Hash, PartialOrd, Ord, Structural)]
pub struct AnnotationId(pub u64);

/// Whether an item is not the active one; sorting by it puts the active item first.
pub fn is_inactive(id: AnnotationId, active: Option<AnnotationId>) -> (inactive: bool)
    ensures
        inactive == (active != Some(id)),
{
    match active {
        Some(current) => current.0 != id.0,
        None => true,
    }
}

/// `percent` percent of `limit`, rounded up: `ceil(limit * percent / 100)`.
pub open spec fn retained_limit_spec(limit: nat, percent: nat) -> nat {
    ((limit * percent + 99) / 100) as nat
}

/// The part of a cache limit kept while the reader idles: `percent` percent of
/// it, rounded up so that a small non-zero limit keeps at least one byte.
pub fn retained_cache_limit(limit: usize, percent: usize) -> (retained: usize)
    requires
        percent <= 100,
    ensures
        retained == retained_limit_spec(limit as nat, percent as nat),
        retained <= limit,
{
    let whole = limit / 100;
    let rest = limit % 100;
    proof {
        assert(whole * percent <= whole * 100) by (nonlinear_arith)
            requires
                percent <= 100,
        ;
        assert(rest * percent <= 99 * 100) by (nonlinear_arith)
            requires
                percent <= 100,
                rest < 100,
        ;
    }
    let scaled = whole * percent;
    let partial = (rest * percent + 99) / 100;
    proof {
        assert(scaled + partial == (limit * percent + 99) / 100) by (nonlinear_arith)
            requires
                limit == whole * 100 + rest,
                scaled == whole * percent,
                partial == (rest * percent + 99) / 100,
                rest < 100,
        ;
        assert((limit * percent + 99) / 100 <= limit) by (nonlinear_arith)
            requires
                percent <= 100,
        ;
    }
    scaled + partial
}

/// Idle retention never rounds a non-zero limit with a non-zero percentage down
/// to nothing, and never keeps more than the limit.
pub proof fn law_retention_keeps_small_limits(limit: nat, percent: nat)
    requires
        percent <= 100,
    ensures
        limit > 0 && percent > 0 ==> retained_limit_spec(limit, percent) >= 1,
        retained_limit_spec(limit, percent) <= limit,
        percent == 100 ==> retained_limit_spec(limit, percent) == limit,
{
    assert(limit * percent <= limit * 100) by (nonlinear_arith)
        requires
            percent <= 100,
    ;
    if limit > 0 && percent > 0 {
        assert(limit * percent >= 1) by (nonlinear_arith)
            requires
                limit > 0,
                percent > 0,
        ;
    }
    if percent == 100 {
        assert((limit * 100 + 99) / 100 == limit) by (nonlinear_arith);
    }
}

} // verus!
