//! The brush: the commands that set it, and what a stroke asks of the
//! device.

use crate::codec::CompressionError;
use crate::state::{AppState, BrushState, BrushTool, TerrainData, UndoStack};
use crate::undo::{
    apply_undo, capture_applies, captured, snapshot_brush_region, undone, UndoOutcome,
};
use vstd::prelude::*;

verus! {

/// The compute kernels of the device. Raising and lowering share one.
#[derive(Debug, Clone, Copy, PartialEq, Eq, Structural)]
pub enum BrushKernel {
    Raise,
    Smooth,
    Flatten,
    Noise,
    Erode,
}

/// The kernel that serves a tool.
pub open spec fn kernel_of(tool: BrushTool) -> BrushKernel {
    match tool {
        BrushTool::Raise | BrushTool::Lower => BrushKernel::Raise,
        BrushTool::Smooth => BrushKernel::Smooth,
        BrushTool::Flatten => BrushKernel::Flatten,
        BrushTool::Noise => BrushKernel::Noise,
        BrushTool::Erode => BrushKernel::Erode,
    }
}

/// The bit pattern of the negative of a single-precision number: the same
/// pattern with the sign bit flipped.
pub open spec fn negated(bits: u32) -> u32 {
    if bits >= 0x8000_0000 {
        (bits - 0x8000_0000) as u32
    } else {
        (bits + 0x8000_0000) as u32
    }
}

/// Flips the sign of a single-precision number given by its bit pattern.
pub fn negate(bits: u32) -> (flipped: u32)
    ensures
        flipped == negated(bits),
        negated(flipped) == bits,
{
    if bits >= 0x8000_0000 {
        bits - 0x8000_0000
    } else {
        bits + 0x8000_0000
    }
}

/// The strength that a tool hands to its kernel: lowering is raising with
/// the strength negated.
pub open spec fn signed_strength(tool: BrushTool, strength: u32) -> u32 {
    if tool == BrushTool::Lower {
        negated(strength)
    } else {
        strength
    }
}

impl BrushTool {
    /// Returns the kernel that serves the tool.
    pub fn kernel(self) -> (kernel: BrushKernel)
        ensures
            kernel == kernel_of(self),
    {
        match self {
            BrushTool::Raise => BrushKernel::Raise,
            BrushTool::Lower => BrushKernel::Raise,
            BrushTool::Smooth => BrushKernel::Smooth,
            BrushTool::Flatten => BrushKernel::Flatten,
            BrushTool::Noise => BrushKernel::Noise,
            BrushTool::Erode => BrushKernel::Erode,
        }
    }
}

/// A change of brush parameters: each one that is given replaces the
/// current one. All are single-precision bit patterns.
#[derive(Debug, Clone, Copy)]
pub struct BrushParams {
    pub radius: Option<u32>,
    pub strength: Option<u32>,
    pub flatten_target: Option<u32>,
    pub noise_scale: Option<u32>,
}

/// The value of a parameter after a change.
pub open spec fn updated(current: u32, change: Option<u32>) -> u32 {
    match change {
        Some(value) => value,
        None => current,
    }
}

/// Makes `tool` the active tool; `None` puts the brush away.
pub fn set_active_tool(state: &mut AppState, tool: Option<BrushTool>)
    ensures
        final(state).brush == (BrushState { active_tool: tool, ..old(state).brush }),
        final(state).terrain == old(state).terrain,
        final(state).undo_stack == old(state).undo_stack,
{
    state.brush.active_tool = tool;
}

/// Replaces the brush parameters that `params` gives and keeps the others.
pub fn set_brush_params(state: &mut AppState, params: BrushParams)
    ensures
        final(state).brush == (BrushState {
            radius: updated(old(state).brush.radius, params.radius),
            strength: updated(old(state).brush.strength, params.strength),
            flatten_target: updated(old(state).brush.flatten_target, params.flatten_target),
            noise_scale: updated(old(state).brush.noise_scale, params.noise_scale),
            ..old(state).brush
        }),
        final(state).terrain == old(state).terrain,
        final(state).undo_stack == old(state).undo_stack,
{
    if let Some(radius) = params.radius {
        state.brush.radius = radius;
    }
    if let Some(strength) = params.strength {
        state.brush.strength = strength;
    }
    if let Some(flatten_target) = params.flatten_target {
        state.brush.flatten_target = flatten_target;
    }
    if let Some(noise_scale) = params.noise_scale {
        state.brush.noise_scale = noise_scale;
    }
}

/// Asks for the most recent stroke to be undone. The undo itself is done at
/// the start of the next frame. Always succeeds.
pub fn undo_stroke(state: &mut AppState) -> (result: Result<(), String>)
    ensures
        result is Ok,
        final(state).undo_stack.pending_undo,
        final(state).undo_stack.regions == old(state).undo_stack.regions,
        final(state).undo_stack.max_depth == old(state).undo_stack.max_depth,
        final(state).terrain == old(state).terrain,
        final(state).brush == old(state).brush,
{
    state.undo_stack.request_undo();
    Ok(())
}

/// What the device is asked to do for one dab of the brush: the kernel to
/// run and its parameters, all single-precision bit patterns.
#[derive(Debug, Clone, Copy)]
pub struct BrushDispatch {
    pub kernel: BrushKernel,
    pub center: (u32, u32),
    pub radius: u32,
    pub strength: u32,
    pub flatten_target: u32,
    pub noise_scale: u32,
}

/// The dab that a brush makes at `center`, if a tool is active.
pub open spec fn dab(brush: BrushState, center: (u32, u32)) -> Option<BrushDispatch> {
    match brush.active_tool {
        None => None,
        Some(tool) => Some(
            BrushDispatch {
                kernel: kernel_of(tool),
                center,
                radius: brush.radius,
                strength: signed_strength(tool, brush.strength),
                flatten_target: brush.flatten_target,
                noise_scale: brush.noise_scale,
            },
        ),
    }
}

/// Prepares one dab of the brush at `center`, in world coordinates. Returns
/// nothing when no tool is active.
pub fn dispatch_brush(state: &AppState, center: (u32, u32)) -> (dispatch: Option<BrushDispatch>)
    ensures
        dispatch == dab(state.brush, center),
{
    match state.brush.active_tool {
        None => None,
        Some(tool) => {
            let strength: u32 = match tool {
                BrushTool::Lower => negate(state.brush.strength),
                _ => state.brush.strength,
            };
            Some(
                BrushDispatch {
                    kernel: tool.kernel(),
                    center,
                    radius: state.brush.radius,
                    strength,
                    flatten_target: state.brush.flatten_target,
                    noise_scale: state.brush.noise_scale,
                },
            )
        },
    }
}

/// How a stroke began: whether a snapshot was stored, and the first dab.
pub struct StrokeStart {
    pub snapshot: Result<bool, CompressionError>,
    pub dispatch: Option<BrushDispatch>,
}

/// Begins a stroke: stores the snapshot of the square around the cursor,
/// then prepares the first dab. The snapshot is taken first, so that it
/// sees the field as it was before the stroke. The cursor is given twice:
/// as the cell under it, with the radius in cells, for the snapshot, and in
/// world coordinates for the dab.
pub fn begin_stroke(
    state: &mut AppState,
    cell_x: i32,
    cell_y: i32,
    cell_radius: u32,
    center: (u32, u32),
) -> (start: StrokeStart)
    requires
        old(state).terrain matches Some(world) ==> world.heights@.len() == world.config.cells(),
    ensures
        match start.snapshot {
            Ok(true) => captured(
                *old(state),
                cell_x as int,
                cell_y as int,
                cell_radius as int,
                *final(state),
            ),
            Ok(false) => {
                &&& *final(state) == *old(state)
                &&& !capture_applies(*old(state), cell_x as int, cell_y as int, cell_radius as int)
            },
            Err(e) => {
                &&& *final(state) == *old(state)
                &&& capture_applies(*old(state), cell_x as int, cell_y as int, cell_radius as int)
                &&& e == CompressionError::EncodeFailed
            },
        },
        start.dispatch == dab(old(state).brush, center),
{
    let snapshot = snapshot_brush_region(state, cell_x, cell_y, cell_radius);
    let dispatch = dispatch_brush(state, center);
    StrokeStart { snapshot, dispatch }
}

/// What the paint loop has to do at the start of a frame.
pub struct FrameWork {
    /// How the pending undo ended, if one was pending.
    pub undo: Option<UndoOutcome>,
    /// Whether the device needs all fields of the world again.
    pub upload: bool,
}

/// The state with the request for an undo taken off.
pub open spec fn request_taken(state: AppState) -> AppState {
    AppState {
        undo_stack: UndoStack { pending_undo: false, ..state.undo_stack },
        ..state
    }
}

/// The state with the dirty flag of its world, if it has one, set to
/// `dirty`.
pub open spec fn with_dirty(state: AppState, dirty: bool) -> AppState {
    match state.terrain {
        None => state,
        Some(world) => AppState { terrain: Some(TerrainData { dirty, ..world }), ..state },
    }
}

/// `post` and `work` are what the start of a frame makes of `pre`. First a
/// pending undo is performed and the request taken off. Then a dirty world
/// is handed to the device and marked clean: before that step the state was
/// `post` with the dirty flag that `work.upload` reports.
pub open spec fn frame_begun(pre: AppState, post: AppState, work: FrameWork) -> bool {
    let mid = with_dirty(post, work.upload);
    &&& post.terrain is None ==> !work.upload
    &&& post.terrain matches Some(world) ==> !world.dirty
    &&& if pre.undo_stack.pending_undo {
        work.undo matches Some(outcome) && undone(request_taken(pre), mid, outcome)
    } else {
        work.undo is None && mid == pre
    }
}

/// Starts a frame: performs the undo that was asked for, if any, and tells
/// whether the device needs the fields of the world again.
pub fn begin_frame(state: &mut AppState) -> (work: FrameWork)
    ensures
        frame_begun(*old(state), *final(state), work),
        !final(state).undo_stack.pending_undo,
{
    let undo = if state.undo_stack.pending_undo {
        state.undo_stack.take_pending();
        assert(*state == request_taken(*old(state)));
        let outcome = apply_undo(state);
        Some(outcome)
    } else {
        None
    };
    let ghost mid = *state;
    let upload = match &mut state.terrain {
        None => false,
        Some(world) => {
            let dirty = world.dirty;
            world.dirty = false;
            dirty
        },
    };
    assert(with_dirty(*state, upload) == mid);
    FrameWork { undo, upload }
}

} // verus!
