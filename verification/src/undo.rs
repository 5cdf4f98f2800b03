//! The undo engine: snapshots of the rectangle under a brush stroke, taken
//! before the stroke and written back on request.

use crate::codec::{
    decode_cells, encode_cells, lemma_cells_round_trip, pack_cells, unpack_cells, zstd_content,
    zstd_frame, CompressionError,
};
use crate::state::{keep_newest, AppState, RegionModel, UndoRegion};
use vstd::prelude::*;

verus! {

/// The compression level of undo snapshots.
pub const SNAPSHOT_LEVEL: i32 = 3;

/// A rectangle of cells: its top left corner and its extents.
#[derive(Debug, Clone, Copy, PartialEq, Eq, Structural)]
pub struct RegionRect {
    pub x: u32,
    pub y: u32,
    pub width: u32,
    pub height: u32,
}

impl RegionRect {
    /// The number of cells of the rectangle.
    pub open spec fn area(&self) -> int {
        self.width * self.height
    }

    /// The rectangle is not empty and lies inside a grid of the given size.
    pub open spec fn inside(&self, world_width: int, world_height: int) -> bool {
        &&& self.width > 0
        &&& self.height > 0
        &&& self.x + self.width <= world_width
        &&& self.y + self.height <= world_height
    }

    /// The index, in a row-major field `world_width` cells wide, of the
    /// rectangle's cell number `d`, counted row by row.
    pub open spec fn target(&self, world_width: int, d: int) -> int {
        (self.y + d / (self.width as int)) * world_width + self.x + d % (self.width as int)
    }

    /// Whether entry `d` of a payload of `data_len` cells has a place in a
    /// field of `field_len` cells when the payload is written back.
    pub open spec fn writes(&self, world_width: int, data_len: int, field_len: int, d: int) -> bool {
        &&& 0 <= d < self.area()
        &&& d < data_len
        &&& self.target(world_width, d) < field_len
    }

    /// Whether the cell at index `i` of a row-major field `world_width`
    /// cells wide lies in the rectangle.
    pub open spec fn contains(&self, world_width: int, i: int) -> bool {
        &&& self.x <= i % world_width < self.x + self.width
        &&& self.y <= i / world_width < self.y + self.height
    }

    /// The rectangle's cells in `field`, row by row.
    pub open spec fn cells_of(&self, field: Seq<u32>, world_width: int) -> Seq<u32> {
        Seq::new(self.area() as nat, |d: int| field[self.target(world_width, d)])
    }
}

/// The square from `center - radius` to `center + radius` on both axes,
/// clipped to a grid of the given size; nothing if no cell is left.
pub open spec fn clip(
    center_x: int,
    center_y: int,
    radius: int,
    world_width: int,
    world_height: int,
) -> Option<RegionRect> {
    let x0 = if center_x - radius > 0 {
        center_x - radius
    } else {
        0
    };
    let y0 = if center_y - radius > 0 {
        center_y - radius
    } else {
        0
    };
    let x1 = if center_x + radius < world_width - 1 {
        center_x + radius
    } else {
        world_width - 1
    };
    let y1 = if center_y + radius < world_height - 1 {
        center_y + radius
    } else {
        world_height - 1
    };
    if x1 < x0 || y1 < y0 {
        None
    } else {
        Some(
            RegionRect {
                x: x0 as u32,
                y: y0 as u32,
                width: (x1 - x0 + 1) as u32,
                height: (y1 - y0 + 1) as u32,
            },
        )
    }
}

/// A clipped square is never empty and lies inside the grid.
pub proof fn lemma_clip_inside(
    center_x: i32,
    center_y: i32,
    radius: u32,
    world_width: u32,
    world_height: u32,
)
    ensures
        clip(
            center_x as int,
            center_y as int,
            radius as int,
            world_width as int,
            world_height as int,
        ) matches Some(rect) ==> rect.inside(world_width as int, world_height as int),
{
}

/// Clips the square of the given center and radius to the grid.
pub fn clip_region(
    center_x: i32,
    center_y: i32,
    radius: u32,
    world_width: u32,
    world_height: u32,
) -> (clipped: Option<RegionRect>)
    ensures
        clipped == clip(
            center_x as int,
            center_y as int,
            radius as int,
            world_width as int,
            world_height as int,
        ),
{
    let cx: i64 = center_x as i64;
    let cy: i64 = center_y as i64;
    let r: i64 = radius as i64;
    let x0: i64 = if cx - r > 0 {
        cx - r
    } else {
        0
    };
    let y0: i64 = if cy - r > 0 {
        cy - r
    } else {
        0
    };
    let x1: i64 = if cx + r < world_width as i64 - 1 {
        cx + r
    } else {
        world_width as i64 - 1
    };
    let y1: i64 = if cy + r < world_height as i64 - 1 {
        cy + r
    } else {
        world_height as i64 - 1
    };
    if x1 < x0 || y1 < y0 {
        None
    } else {
        Some(
            RegionRect {
                x: x0 as u32,
                y: y0 as u32,
                width: (x1 - x0 + 1) as u32,
                height: (y1 - y0 + 1) as u32,
            },
        )
    }
}

/// Cell `d` of a rectangle inside the grid lies in row `d / width` and
/// column `d % width` of the rectangle, and at a valid index of the field.
pub proof fn lemma_target_in_field(rect: RegionRect, world_width: int, world_height: int, d: int)
    requires
        rect.inside(world_width, world_height),
        0 <= d < rect.area(),
    ensures
        0 <= d / (rect.width as int) < rect.height,
        0 <= d % (rect.width as int) < rect.width,
        0 <= rect.target(world_width, d) < world_width * world_height,
{
    let w = rect.width as int;
    let row = d / w;
    let col = d % w;
    vstd::arithmetic::div_mod::lemma_fundamental_div_mod(d, w);
    assert(0 <= row) by (nonlinear_arith)
        requires
            0 <= d,
            0 < w,
            row == d / w,
    ;
    assert(row < rect.height) by (nonlinear_arith)
        requires
            d == w * row + col,
            0 <= col,
            d < w * rect.height,
            0 < w,
    ;
    assert((rect.y + row) * world_width + world_width <= world_width * world_height)
        by (nonlinear_arith)
        requires
            rect.y + row + 1 <= world_height,
            0 <= world_width,
    ;
    assert((rect.y + row) * world_width >= 0) by (nonlinear_arith)
        requires
            rect.y + row >= 0,
            0 <= world_width,
    ;
}

/// Two different cells of a rectangle inside the grid lie at different
/// indices of the field.
pub proof fn lemma_target_injective(rect: RegionRect, world_width: int, d: int, e: int)
    requires
        rect.width > 0,
        rect.x + rect.width <= world_width,
        0 <= d,
        0 <= e,
        rect.target(world_width, d) == rect.target(world_width, e),
    ensures
        d == e,
{
    let w = rect.width as int;
    vstd::arithmetic::div_mod::lemma_fundamental_div_mod(d, w);
    vstd::arithmetic::div_mod::lemma_fundamental_div_mod(e, w);
    let rd = d / w;
    let re = e / w;
    let cd = d % w;
    let ce = e % w;
    assert(rd == re) by (nonlinear_arith)
        requires
            (rect.y + rd) * world_width + rect.x + cd == (rect.y + re) * world_width + rect.x
                + ce,
            0 <= cd < w,
            0 <= ce < w,
            rect.x + w <= world_width,
            rect.x >= 0,
    ;
}

/// Copies the cells of `rect` out of `field`, row by row.
pub fn copy_region(field: &Vec<u32>, world_width: u32, world_height: u32, rect: &RegionRect) -> (cells:
    Vec<u32>)
    requires
        field@.len() == world_width * world_height,
        rect.inside(world_width as int, world_height as int),
    ensures
        cells@ == rect.cells_of(field@, world_width as int),
{
    proof {
        assert(rect.width * rect.height <= world_width * world_height) by (nonlinear_arith)
            requires
                0 < rect.width <= world_width,
                0 < rect.height <= world_height,
        ;
    }
    let cell_count: usize = field.len();
    let area: usize = rect.width as usize * rect.height as usize;
    let mut cells: Vec<u32> = Vec::new();
    let mut d: usize = 0;
    while d < area
        invariant
            field@.len() == world_width * world_height,
            field@.len() == cell_count,
            rect.inside(world_width as int, world_height as int),
            area == rect.area(),
            d <= area,
            cells@.len() == d,
            forall|e: int|
                0 <= e < d ==> cells@[e] == field@[#[trigger] rect.target(world_width as int, e)],
        decreases area - d,
    {
        proof {
            lemma_target_in_field(*rect, world_width as int, world_height as int, d as int);
            assert((rect.y + d as int / (rect.width as int)) * world_width >= 0)
                by (nonlinear_arith)
                requires
                    rect.y + d as int / (rect.width as int) >= 0,
                    world_width >= 0,
            ;
        }
        let row: usize = d / rect.width as usize;
        let col: usize = d % rect.width as usize;
        let source: usize = (rect.y as usize + row) * world_width as usize + rect.x as usize
            + col;
        cells.push(field[source]);
        d = d + 1;
    }
    assert(cells@ =~= rect.cells_of(field@, world_width as int));
    cells
}

/// `after` is `before` with the payload `data` of `rect` written back: each
/// entry of the payload goes to its cell's index, entries without a place
/// in the payload or in the field are skipped, and where several entries
/// share an index the last one stays.
pub open spec fn restored(
    before: Seq<u32>,
    after: Seq<u32>,
    rect: RegionRect,
    world_width: int,
    data: Seq<u32>,
) -> bool {
    &&& after.len() == before.len()
    &&& forall|s: int|
        0 <= s < before.len() && (forall|d: int| #[trigger]
            rect.writes(world_width, data.len() as int, before.len() as int, d) ==> rect.target(
                world_width,
                d,
            ) != s) ==> #[trigger] after[s] == before[s]
    &&& forall|d: int|
        #![trigger rect.writes(world_width, data.len() as int, before.len() as int, d)]
        rect.writes(world_width, data.len() as int, before.len() as int, d) && (forall|e: int|
            d < e && #[trigger] rect.writes(world_width, data.len() as int, before.len() as int, e)
                ==> rect.target(world_width, e) != rect.target(world_width, d)) ==> after[rect.target(
            world_width,
            d,
        )] == data[d]
}

/// Writes the payload `data` of `rect` back into `field`, skipping what has
/// no place in the payload or in the field.
pub fn restore_region(field: &mut Vec<u32>, world_width: u32, rect: &RegionRect, data: &Vec<u32>)
    ensures
        restored(old(field)@, final(field)@, *rect, world_width as int, data@),
{
    assert(rect.width * rect.height <= u32::MAX * u32::MAX) by (nonlinear_arith)
        requires
            rect.width <= u32::MAX,
            rect.height <= u32::MAX,
    ;
    assert(rect.width * rect.height >= 0) by (nonlinear_arith);
    let area: u128 = rect.width as u128 * rect.height as u128;
    let limit: usize = if (data.len() as u128) < area {
        data.len()
    } else {
        area as usize
    };
    let field_len: usize = field.len();
    let ghost before = field@;
    let ghost ww = world_width as int;
    let ghost dl = data@.len() as int;
    let ghost fl = before.len() as int;
    let mut d: usize = 0;
    while d < limit
        invariant
            d <= limit,
            limit <= data@.len(),
            limit <= rect.area(),
            limit == data@.len() || limit == rect.area(),
            before == old(field)@,
            ww == world_width as int,
            dl == data@.len(),
            fl == before.len(),
            field@.len() == before.len(),
            field_len == before.len(),
            forall|s: int|
                0 <= s < before.len() && (forall|e: int|
                    0 <= e < d && #[trigger] rect.writes(ww, dl, fl, e) ==> rect.target(ww, e)
                        != s) ==> #[trigger] field@[s] == before[s],
            forall|e: int|
                #![trigger rect.writes(ww, dl, fl, e)]
                0 <= e < d && rect.writes(ww, dl, fl, e) && (forall|f: int|
                    e < f < d && #[trigger] rect.writes(ww, dl, fl, f) ==> rect.target(ww, f)
                        != rect.target(ww, e)) ==> field@[rect.target(ww, e)] == data@[e],
        decreases limit - d,
    {
        assert(rect.width > 0) by (nonlinear_arith)
            requires
                d < rect.width * rect.height,
        ;
        let row: u128 = d as u128 / rect.width as u128;
        let col: u128 = d as u128 % rect.width as u128;
        assert((rect.y + row) * world_width <= (u32::MAX + usize::MAX) * u32::MAX)
            by (nonlinear_arith)
            requires
                rect.y <= u32::MAX,
                0 <= row <= usize::MAX,
                world_width <= u32::MAX,
        ;
        assert((rect.y + row) * world_width >= 0) by (nonlinear_arith)
            requires
                0 <= row,
        ;
        let target: u128 = (rect.y as u128 + row) * world_width as u128 + rect.x as u128 + col;
        assert(target == rect.target(ww, d as int));
        let ghost prior = field@;
        if target < field_len as u128 {
            field.set(target as usize, data[d]);
            assert(rect.writes(ww, dl, fl, d as int));
        } else {
            assert(!rect.writes(ww, dl, fl, d as int));
        }
        proof {
            let next = d + 1;
            assert forall|s: int|
                0 <= s < before.len() && (forall|e: int|
                    0 <= e < next && #[trigger] rect.writes(ww, dl, fl, e) ==> rect.target(ww, e)
                        != s) implies #[trigger] field@[s] == before[s] by {
                assert(forall|e: int|
                    0 <= e < d && #[trigger] rect.writes(ww, dl, fl, e) ==> rect.target(ww, e)
                        != s);
                assert(prior[s] == before[s]);
            }
            assert forall|e: int|
                #![trigger rect.writes(ww, dl, fl, e)]
                0 <= e < next && rect.writes(ww, dl, fl, e) && (forall|f: int|
                    e < f < next && #[trigger] rect.writes(ww, dl, fl, f) ==> rect.target(ww, f)
                        != rect.target(ww, e)) implies field@[rect.target(ww, e)] == data@[e] by {
                if e < d {
                    assert(forall|f: int|
                        e < f < d && #[trigger] rect.writes(ww, dl, fl, f) ==> rect.target(ww, f)
                            != rect.target(ww, e));
                    assert(prior[rect.target(ww, e)] == data@[e]);
                    if rect.writes(ww, dl, fl, d as int) {
                        assert(rect.target(ww, d as int) != rect.target(ww, e));
                    }
                }
            }
        }
        d = d + 1;
    }
    proof {
        assert forall|s: int|
            0 <= s < before.len() && (forall|e: int| #[trigger]
                rect.writes(ww, dl, fl, e) ==> rect.target(ww, e) != s) implies #[trigger] field@[s]
            == before[s] by {
            assert(forall|e: int|
                0 <= e < d && #[trigger] rect.writes(ww, dl, fl, e) ==> rect.target(ww, e) != s);
        }
        assert forall|e: int|
            #![trigger rect.writes(ww, dl, fl, e)]
            rect.writes(ww, dl, fl, e) && (forall|f: int|
                e < f && #[trigger] rect.writes(ww, dl, fl, f) ==> rect.target(ww, f)
                    != rect.target(ww, e)) implies field@[rect.target(ww, e)] == data@[e] by {
            assert(0 <= e < d);
            assert(forall|f: int|
                e < f < d && #[trigger] rect.writes(ww, dl, fl, f) ==> rect.target(ww, f)
                    != rect.target(ww, e));
        }
    }
}

impl RegionModel {
    /// The rectangle that the region covers.
    pub open spec fn rect(&self) -> RegionRect {
        RegionRect { x: self.x, y: self.y, width: self.width, height: self.height }
    }
}

/// `post` is `pre` after a snapshot of the clipped square around the given
/// center was stored: the world and the brush are untouched, and the history
/// has a new newest region that holds the square's cells, compressed.
pub open spec fn captured(
    pre: AppState,
    center_x: int,
    center_y: int,
    radius: int,
    post: AppState,
) -> bool {
    &&& pre.terrain matches Some(world)
    &&& clip(
        center_x,
        center_y,
        radius,
        world.config.world_width as int,
        world.config.world_height as int,
    ) matches Some(rect)
    &&& {
        let cells = rect.cells_of(world.heights@, world.config.world_width as int);
        let frame = zstd_frame(encode_cells(cells), SNAPSHOT_LEVEL);
        &&& post.terrain == pre.terrain
        &&& post.brush == pre.brush
        &&& post.undo_stack.max_depth == pre.undo_stack.max_depth
        &&& post.undo_stack.pending_undo == pre.undo_stack.pending_undo
        &&& post.undo_stack@ == keep_newest(
            pre.undo_stack@.push(
                RegionModel {
                    x: rect.x,
                    y: rect.y,
                    width: rect.width,
                    height: rect.height,
                    compressed: frame,
                },
            ),
            pre.undo_stack.max_depth as nat,
        )
        &&& zstd_content(frame) == Some(encode_cells(cells))
    }
}

/// Whether a snapshot is attempted: a world is loaded and the clipped
/// square holds at least one cell.
pub open spec fn capture_applies(state: AppState, center_x: int, center_y: int, radius: int) -> bool {
    &&& state.terrain matches Some(world)
    &&& clip(
        center_x,
        center_y,
        radius,
        world.config.world_width as int,
        world.config.world_height as int,
    ) is Some
}

/// Stores a snapshot of the square around a stroke's center, before the
/// stroke changes it. Returns whether a snapshot was stored; nothing
/// changes when none is.
pub fn snapshot_brush_region(state: &mut AppState, center_x: i32, center_y: i32, radius: u32) -> (result:
    Result<bool, CompressionError>)
    requires
        old(state).terrain matches Some(world) ==> world.heights@.len() == world.config.cells(),
    ensures
        match result {
            Ok(true) => captured(
                *old(state),
                center_x as int,
                center_y as int,
                radius as int,
                *final(state),
            ),
            Ok(false) => {
                &&& *final(state) == *old(state)
                &&& !capture_applies(*old(state), center_x as int, center_y as int, radius as int)
            },
            Err(e) => {
                &&& *final(state) == *old(state)
                &&& capture_applies(*old(state), center_x as int, center_y as int, radius as int)
                &&& e == CompressionError::EncodeFailed
            },
        },
        result == Ok::<bool, CompressionError>(true) || old(state).undo_stack.wf() ==> final(state)
            .undo_stack.wf(),
{
    let packed = match &state.terrain {
        None => { return Ok(false); },
        Some(world) => {
            let rect = match clip_region(
                center_x,
                center_y,
                radius,
                world.config.world_width,
                world.config.world_height,
            ) {
                None => { return Ok(false); },
                Some(rect) => rect,
            };
            proof {
                lemma_clip_inside(
                    center_x,
                    center_y,
                    radius,
                    world.config.world_width,
                    world.config.world_height,
                );
            }
            let cells = copy_region(
                &world.heights,
                world.config.world_width,
                world.config.world_height,
                &rect,
            );
            match pack_cells(&cells, SNAPSHOT_LEVEL) {
                Err(e) => { return Err(e); },
                Ok(frame) => UndoRegion {
                    x: rect.x,
                    y: rect.y,
                    width: rect.width,
                    height: rect.height,
                    compressed: frame,
                },
            }
        },
    };
    state.undo_stack.push(packed);
    Ok(true)
}

/// What the device has to overwrite after an undo: a rectangle of the
/// elevation field and its cells, row by row.
pub struct SubRegionWrite {
    pub x: u32,
    pub y: u32,
    pub width: u32,
    pub height: u32,
    pub data: Vec<u32>,
}

/// How an undo request ended.
pub enum UndoOutcome {
    /// No world is loaded or the history is empty: nothing changed.
    Nothing,
    /// The newest region was removed, but its payload is corrupt: the world
    /// is untouched.
    Discarded,
    /// The newest region was removed and written back; the device has to
    /// overwrite the same rectangle.
    Restored(SubRegionWrite),
    /// The newest region was removed and written back as far as it fits the
    /// world; the world is marked dirty for a full upload.
    Resync,
}

/// Whether a region and its payload cover a full rectangle of the world, so
/// that the device can overwrite that rectangle.
pub open spec fn covers(rect: RegionRect, data_len: int, world_width: int, world_height: int) -> bool {
    rect.inside(world_width, world_height) && rect.area() <= data_len
}

/// `post` and `outcome` are what an undo request makes of `pre`.
pub open spec fn undone(pre: AppState, post: AppState, outcome: UndoOutcome) -> bool {
    if pre.terrain is None || pre.undo_stack@.len() == 0 {
        outcome is Nothing && post == pre
    } else {
        let region = pre.undo_stack@.last();
        let world = pre.terrain->0;
        &&& post.undo_stack@ == pre.undo_stack@.drop_last()
        &&& post.undo_stack.max_depth == pre.undo_stack.max_depth
        &&& post.undo_stack.pending_undo == pre.undo_stack.pending_undo
        &&& post.brush == pre.brush
        &&& match zstd_content(region.compressed) {
            None => outcome is Discarded && post.terrain == pre.terrain,
            Some(bytes) => {
                let data = decode_cells(bytes);
                let ww = world.config.world_width as int;
                let wh = world.config.world_height as int;
                &&& post.terrain matches Some(after)
                &&& after.config == world.config
                &&& after.flow == world.flow
                &&& after.biomes == world.biomes
                &&& restored(world.heights@, after.heights@, region.rect(), ww, data)
                &&& if covers(region.rect(), data.len() as int, ww, wh) {
                    &&& after.dirty == world.dirty
                    &&& outcome matches UndoOutcome::Restored(write)
                    &&& write.x == region.x
                    &&& write.y == region.y
                    &&& write.width == region.width
                    &&& write.height == region.height
                    &&& write.data@ == data.take(region.rect().area())
                } else {
                    after.dirty && outcome is Resync
                }
            },
        }
    }
}

/// Takes the newest region off the history and writes its cells back into
/// the elevation field.
pub fn apply_undo(state: &mut AppState) -> (outcome: UndoOutcome)
    ensures
        undone(*old(state), *final(state), outcome),
        old(state).undo_stack.wf() ==> final(state).undo_stack.wf(),
        old(state).terrain matches Some(world) && world.wf() ==> final(state).terrain->0.wf(),
{
    if state.terrain.is_none() || state.undo_stack.regions.len() == 0 {
        return UndoOutcome::Nothing;
    }
    let region = match state.undo_stack.pop() {
        None => { return UndoOutcome::Nothing; },
        Some(region) => region,
    };
    let mut cells = match unpack_cells(&region.compressed) {
        Err(_) => { return UndoOutcome::Discarded; },
        Ok(cells) => cells,
    };
    let rect = RegionRect { x: region.x, y: region.y, width: region.width, height: region.height };
    match &mut state.terrain {
        None => UndoOutcome::Nothing,
        Some(world) => {
            restore_region(&mut world.heights, world.config.world_width, &rect, &cells);
            let area: u64 = rect_area(&rect);
            let fits: bool = rect.width > 0 && rect.height > 0 && rect.x as u64 + rect.width as u64
                <= world.config.world_width as u64 && rect.y as u64 + rect.height as u64
                <= world.config.world_height as u64 && area <= cells.len() as u64;
            if fits {
                let ghost all = cells@;
                cells.truncate(area as usize);
                assert(cells@ =~= all.take(area as int));
                UndoOutcome::Restored(
                    SubRegionWrite {
                        x: rect.x,
                        y: rect.y,
                        width: rect.width,
                        height: rect.height,
                        data: cells,
                    },
                )
            } else {
                world.dirty = true;
                UndoOutcome::Resync
            }
        },
    }
}

/// The number of cells of a rectangle.
pub fn rect_area(rect: &RegionRect) -> (area: u64)
    ensures
        area == rect.area(),
{
    assert(rect.width * rect.height <= u32::MAX * u32::MAX) by (nonlinear_arith)
        requires
            rect.width <= u32::MAX,
            rect.height <= u32::MAX,
    ;
    assert(rect.width * rect.height >= 0) by (nonlinear_arith);
    rect.width as u64 * rect.height as u64
}

/// The cells of a rectangle inside the grid are exactly the cells that the
/// rectangle contains: cell `d` lies at a contained index, and every
/// contained index is that of one cell.
pub proof fn lemma_targets_are_contained(rect: RegionRect, world_width: int, world_height: int)
    requires
        rect.inside(world_width, world_height),
    ensures
        forall|d: int|
            0 <= d < rect.area() ==> rect.contains(world_width, #[trigger] rect.target(world_width, d)),
        forall|i: int|
            0 <= i && #[trigger] rect.contains(world_width, i) ==> exists|d: int|
                0 <= d < rect.area() && rect.target(world_width, d) == i,
{
    let w = rect.width as int;
    assert forall|d: int| 0 <= d < rect.area() implies rect.contains(
        world_width,
        #[trigger] rect.target(world_width, d),
    ) by {
        lemma_target_in_field(rect, world_width, world_height, d);
        vstd::arithmetic::div_mod::lemma_fundamental_div_mod_converse(
            rect.target(world_width, d),
            world_width,
            rect.y + d / w,
            rect.x + d % w,
        );
    }
    assert forall|i: int| 0 <= i && #[trigger] rect.contains(world_width, i) implies exists|d: int|
        0 <= d < rect.area() && rect.target(world_width, d) == i by {
        let row = i / world_width - rect.y;
        let col = i % world_width - rect.x;
        let d = row * w + col;
        vstd::arithmetic::div_mod::lemma_fundamental_div_mod(i, world_width);
        assert(0 <= d < rect.area()) by (nonlinear_arith)
            requires
                d == row * w + col,
                0 <= col < w,
                0 <= row,
                row + 1 <= rect.height,
                rect.area() == w * rect.height,
        ;
        vstd::arithmetic::div_mod::lemma_fundamental_div_mod_converse(d, w, row, col);
        assert((rect.y + row) * world_width == world_width * (i / world_width))
            by (nonlinear_arith)
            requires
                rect.y + row == i / world_width,
        ;
        assert(rect.target(world_width, d) == i);
    }
}

/// Writing a full payload back into a rectangle inside the grid puts entry
/// `d` of the payload at the index of the rectangle's cell `d`, and leaves
/// every cell outside the rectangle as it was.
pub proof fn lemma_restored_inside(
    before: Seq<u32>,
    after: Seq<u32>,
    rect: RegionRect,
    world_width: int,
    world_height: int,
    data: Seq<u32>,
)
    requires
        rect.inside(world_width, world_height),
        before.len() == world_width * world_height,
        rect.area() <= data.len(),
        restored(before, after, rect, world_width, data),
    ensures
        after.len() == before.len(),
        forall|d: int|
            0 <= d < rect.area() ==> after[#[trigger] rect.target(world_width, d)] == data[d],
        forall|i: int|
            0 <= i < before.len() && !rect.contains(world_width, i) ==> #[trigger] after[i]
                == before[i],
{
    let ww = world_width;
    let dl = data.len() as int;
    let fl = before.len() as int;
    lemma_targets_are_contained(rect, ww, world_height);
    assert forall|d: int| 0 <= d < rect.area() implies after[#[trigger] rect.target(ww, d)]
        == data[d] by {
        lemma_target_in_field(rect, ww, world_height, d);
        assert(rect.writes(ww, dl, fl, d));
        assert forall|e: int| d < e && #[trigger] rect.writes(ww, dl, fl, e) implies rect.target(
            ww,
            e,
        ) != rect.target(ww, d) by {
            if rect.target(ww, e) == rect.target(ww, d) {
                lemma_target_injective(rect, ww, d, e);
            }
        }
    }
    assert forall|i: int| 0 <= i < before.len() && !rect.contains(ww, i) implies #[trigger] after[i]
        == before[i] by {
        assert forall|d: int| #[trigger] rect.writes(ww, dl, fl, d) implies rect.target(ww, d)
            != i by {
            assert(rect.contains(ww, rect.target(ww, d)));
        }
    }
}

/// Undoing right after a snapshot brings back, in the snapshot's rectangle,
/// exactly the elevations that the snapshot saw, whatever a stroke did to
/// the elevation field in between; every other cell keeps what the stroke
/// left there, and the device is told to overwrite the rectangle with the
/// restored cells. The history must be able to hold a region.
pub proof fn lemma_undo_restores_snapshot(
    before: AppState,
    center_x: i32,
    center_y: i32,
    radius: u32,
    taken: AppState,
    painted: AppState,
    after: AppState,
    outcome: UndoOutcome,
)
    requires
        before.terrain matches Some(world) && world.heights@.len() == world.config.cells(),
        before.undo_stack.max_depth > 0,
        captured(before, center_x as int, center_y as int, radius as int, taken),
        painted.undo_stack == taken.undo_stack,
        painted.terrain matches Some(stroked) && stroked.config == taken.terrain->0.config
            && stroked.heights@.len() == taken.terrain->0.heights@.len(),
        undone(painted, after, outcome),
    ensures
        clip(
            center_x as int,
            center_y as int,
            radius as int,
            before.terrain->0.config.world_width as int,
            before.terrain->0.config.world_height as int,
        ) matches Some(rect) && after.terrain matches Some(world) && {
            let ww = before.terrain->0.config.world_width as int;
            let saw = before.terrain->0.heights@;
            let stroked = painted.terrain->0.heights@;
            &&& world.heights@.len() == saw.len()
            &&& forall|i: int|
                0 <= i < saw.len() ==> #[trigger] world.heights@[i] == if rect.contains(ww, i) {
                    saw[i]
                } else {
                    stroked[i]
                }
            &&& outcome matches UndoOutcome::Restored(write)
            &&& write.x == rect.x
            &&& write.y == rect.y
            &&& write.width == rect.width
            &&& write.height == rect.height
            &&& write.data@ == rect.cells_of(saw, ww)
        },
{
    let config = before.terrain->0.config;
    let ww = config.world_width as int;
    let wh = config.world_height as int;
    let saw = before.terrain->0.heights@;
    let stroked = painted.terrain->0.heights@;
    let rect = clip(center_x as int, center_y as int, radius as int, ww, wh)->0;
    let cells = rect.cells_of(saw, ww);
    let frame = zstd_frame(encode_cells(cells), SNAPSHOT_LEVEL);
    let pushed = before.undo_stack@.push(
        RegionModel {
            x: rect.x,
            y: rect.y,
            width: rect.width,
            height: rect.height,
            compressed: frame,
        },
    );
    assert(keep_newest(pushed, before.undo_stack.max_depth as nat).last() == pushed.last());
    let region = painted.undo_stack@.last();
    assert(region.rect() == rect);
    assert(zstd_content(region.compressed) == Some(encode_cells(cells)));
    lemma_cells_round_trip(cells);
    lemma_clip_inside(center_x, center_y, radius, config.world_width, config.world_height);
    let data = decode_cells(encode_cells(cells));
    assert(data == cells);
    assert(data.take(rect.area()) =~= cells);
    assert(covers(rect, data.len() as int, ww, wh));
    let world = after.terrain->0;
    assert(restored(stroked, world.heights@, rect, ww, data));
    lemma_restored_inside(stroked, world.heights@, rect, ww, wh, data);
    lemma_targets_are_contained(rect, ww, wh);
    assert forall|i: int| 0 <= i < saw.len() implies #[trigger] world.heights@[i] == if rect.contains(
        ww,
        i,
    ) {
        saw[i]
    } else {
        stroked[i]
    } by {
        if rect.contains(ww, i) {
            let d = choose|d: int| 0 <= d < rect.area() && rect.target(ww, d) == i;
            assert(world.heights@[rect.target(ww, d)] == data[d]);
        }
    }
}

} // verus!
