//! The shared editor state: the brush, the undo history and the loaded world.

use crate::config::TerrainConfig;
use std::collections::VecDeque;
use vstd::prelude::*;

verus! {

/// The tool that a brush stroke applies.
#[derive(Debug, Clone, Copy, PartialEq, Eq, Structural)]
pub enum BrushTool {
    Raise,
    Lower,
    Smooth,
    Flatten,
    Erode,
    Noise,
}

impl Default for BrushTool {
    fn default() -> (tool: Self)
        ensures
            tool == BrushTool::Raise,
    {
        BrushTool::Raise
    }
}

/// The brush: the active tool, its parameters and where the cursor is.
/// Radius, strength, flatten target, noise scale and the cursor's world
/// coordinates are single-precision bit patterns.
#[derive(Debug, Clone, Copy)]
pub struct BrushState {
    pub active_tool: Option<BrushTool>,
    pub radius: u32,
    pub strength: u32,
    pub flatten_target: u32,
    pub noise_scale: u32,
    /// True while the paint button is held.
    pub is_painting: bool,
    pub cursor_world: Option<(u32, u32)>,
}

impl Default for BrushState {
    fn default() -> (brush: Self)
        ensures
            brush == (BrushState {
                active_tool: None,
                radius: 0x41F0_0000,
                strength: 0x3F00_0000,
                flatten_target: 0x3F00_0000,
                noise_scale: 0x3D4C_CCCD,
                is_painting: false,
                cursor_world: None,
            }),
    {
        BrushState {
            active_tool: None,
            // 30.0
            radius: 0x41F0_0000,
            // 0.5
            strength: 0x3F00_0000,
            // 0.5
            flatten_target: 0x3F00_0000,
            // 0.05
            noise_scale: 0x3D4C_CCCD,
            is_painting: false,
            cursor_world: None,
        }
    }
}

/// A generated world. Elevations and flow are single-precision bit
/// patterns, row-major from the top left; biomes are one label per cell.
#[derive(Debug)]
pub struct TerrainData {
    pub config: TerrainConfig,
    pub heights: Vec<u32>,
    pub flow: Vec<u32>,
    pub biomes: Vec<u8>,
    /// Set when the device's copy of the fields is stale.
    pub dirty: bool,
}

impl Clone for TerrainData {
    fn clone(&self) -> (copy: Self)
        ensures
            copy.config == self.config,
            copy.heights@ == self.heights@,
            copy.flow@ == self.flow@,
            copy.biomes@ == self.biomes@,
            copy.dirty == self.dirty,
    {
        TerrainData {
            config: self.config,
            heights: self.heights.clone(),
            flow: self.flow.clone(),
            biomes: self.biomes.clone(),
            dirty: self.dirty,
        }
    }
}

impl TerrainData {
    /// The three fields have one cell for each cell of the configured grid.
    pub open spec fn wf(&self) -> bool {
        &&& self.heights@.len() == self.config.cells()
        &&& self.flow@.len() == self.config.cells()
        &&& self.biomes@.len() == self.config.cells()
    }

    /// A world of the configured size with every field zero, marked dirty.
    pub fn new(config: TerrainConfig) -> (world: Self)
        requires
            config.world_width * config.world_height <= u32::MAX,
        ensures
            world.wf(),
            world.config == config,
            world.dirty,
            forall|i: int| 0 <= i < config.cells() ==> world.heights@[i] == 0,
            forall|i: int| 0 <= i < config.cells() ==> world.flow@[i] == 0,
            forall|i: int| 0 <= i < config.cells() ==> world.biomes@[i] == 0,
    {
        assert(config.world_width * config.world_height >= 0) by (nonlinear_arith);
        let n: usize = (config.world_width as u64 * config.world_height as u64) as usize;
        TerrainData {
            config,
            heights: vec![0u32; n],
            flow: vec![0u32; n],
            biomes: vec![0u8; n],
            dirty: true,
        }
    }

    /// Whether the fields have the configured size.
    pub fn is_consistent(&self) -> (consistent: bool)
        ensures
            consistent == self.wf(),
    {
        assert(self.config.world_width * self.config.world_height <= u32::MAX * u32::MAX)
            by (nonlinear_arith)
            requires
                self.config.world_width <= u32::MAX,
                self.config.world_height <= u32::MAX,
        ;
        assert(self.config.world_width * self.config.world_height >= 0) by (nonlinear_arith);
        let n: u64 = self.config.world_width as u64 * self.config.world_height as u64;
        self.heights.len() as u64 == n && self.flow.len() as u64 == n && self.biomes.len() as u64
            == n
    }
}

/// A snapshot of a rectangle of the elevation field, taken before a stroke.
pub struct UndoRegion {
    pub x: u32,
    pub y: u32,
    pub width: u32,
    pub height: u32,
    /// The rectangle's cells, row by row, as a compressed frame.
    pub compressed: Vec<u8>,
}

/// What an [`UndoRegion`] holds, as a mathematical value.
pub struct RegionModel {
    pub x: u32,
    pub y: u32,
    pub width: u32,
    pub height: u32,
    pub compressed: Seq<u8>,
}

impl View for UndoRegion {
    type V = RegionModel;

    open spec fn view(&self) -> RegionModel {
        RegionModel {
            x: self.x,
            y: self.y,
            width: self.width,
            height: self.height,
            compressed: self.compressed@,
        }
    }
}

/// The newest `limit` entries of `s`, oldest first.
pub open spec fn keep_newest<T>(s: Seq<T>, limit: nat) -> Seq<T> {
    if s.len() <= limit {
        s
    } else {
        s.subrange(s.len() - limit, s.len() as int)
    }
}

/// What a history holds after the entries of `pushed` were appended to it
/// one by one, each time keeping the newest `limit` entries.
pub open spec fn push_all<T>(history: Seq<T>, pushed: Seq<T>, limit: nat) -> Seq<T>
    decreases pushed.len(),
{
    if pushed.len() == 0 {
        history
    } else {
        push_all(keep_newest(history.push(pushed.first()), limit), pushed.drop_first(), limit)
    }
}

/// Dropping old entries early changes nothing: the newest entries of a
/// sequence that was cut before it grew are those of the uncut sequence.
pub proof fn lemma_keep_newest_absorbs<T>(older: Seq<T>, newer: Seq<T>, limit: nat)
    ensures
        keep_newest(keep_newest(older, limit) + newer, limit) == keep_newest(older + newer, limit),
{
    assert(keep_newest(keep_newest(older, limit) + newer, limit) =~= keep_newest(
        older + newer,
        limit,
    ));
}

/// A history of bounded depth always holds the newest entries, oldest
/// first: after any number of pushes it is the newest `limit` entries of
/// everything it held and was given, so eviction takes the oldest first.
/// Once `limit` or more entries were pushed it holds exactly `limit`
/// entries, the last ones pushed.
pub proof fn lemma_push_all_keeps_newest<T>(history: Seq<T>, pushed: Seq<T>, limit: nat)
    requires
        history.len() <= limit,
    ensures
        push_all(history, pushed, limit) == keep_newest(history + pushed, limit),
        push_all(history, pushed, limit).len() <= limit,
        pushed.len() >= limit ==> push_all(history, pushed, limit) == pushed.subrange(
            pushed.len() - limit,
            pushed.len() as int,
        ),
        pushed.len() >= limit ==> push_all(history, pushed, limit).len() == limit,
    decreases pushed.len(),
{
    if pushed.len() == 0 {
        assert(history + pushed =~= history);
    } else {
        let first = pushed.first();
        let rest = pushed.drop_first();
        let kept = keep_newest(history.push(first), limit);
        lemma_push_all_keeps_newest(kept, rest, limit);
        lemma_keep_newest_absorbs(history.push(first), rest, limit);
        assert(history.push(first) + rest =~= history + pushed);
    }
    if pushed.len() >= limit {
        assert(keep_newest(history + pushed, limit) =~= pushed.subrange(
            pushed.len() - limit,
            pushed.len() as int,
        ));
    }
}

/// A bounded history of undo regions, oldest first.
pub struct UndoStack {
    pub regions: VecDeque<UndoRegion>,
    pub max_depth: usize,
    /// Set when an undo was asked for; cleared by whoever performs it.
    pub pending_undo: bool,
}

impl View for UndoStack {
    type V = Seq<RegionModel>;

    open spec fn view(&self) -> Seq<RegionModel> {
        self.regions@.map_values(|r: UndoRegion| r@)
    }
}

impl Default for UndoStack {
    fn default() -> (stack: Self)
        ensures
            stack@ == Seq::<RegionModel>::empty(),
            stack.max_depth == 50,
            !stack.pending_undo,
            stack.wf(),
    {
        let stack = UndoStack { regions: VecDeque::new(), max_depth: 50, pending_undo: false };
        assert(stack@ =~= Seq::<RegionModel>::empty());
        stack
    }
}

impl UndoStack {
    /// The history never holds more than `max_depth` regions.
    pub open spec fn wf(&self) -> bool {
        self.regions@.len() <= self.max_depth
    }

    /// An empty history that keeps at most `max_depth` regions.
    pub fn with_max_depth(max_depth: usize) -> (stack: Self)
        ensures
            stack@ == Seq::<RegionModel>::empty(),
            stack.max_depth == max_depth,
            !stack.pending_undo,
            stack.wf(),
    {
        let stack = UndoStack { regions: VecDeque::new(), max_depth, pending_undo: false };
        assert(stack@ =~= Seq::<RegionModel>::empty());
        stack
    }

    /// Appends `region` as the newest entry, dropping the oldest entries that
    /// no longer fit.
    pub fn push(&mut self, region: UndoRegion)
        ensures
            final(self)@ == keep_newest(old(self)@.push(region@), old(self).max_depth as nat),
            final(self).max_depth == old(self).max_depth,
            final(self).pending_undo == old(self).pending_undo,
            final(self).wf(),
    {
        if self.max_depth == 0 {
            self.regions.clear();
            assert(self@ =~= keep_newest(old(self)@.push(region@), 0));
            return ;
        }
        let ghost before = self.regions@;
        while self.regions.len() >= self.max_depth
            invariant
                self.max_depth == old(self).max_depth,
                self.pending_undo == old(self).pending_undo,
                self.max_depth > 0,
                self.regions@.len() <= before.len(),
                self.regions@ == before.subrange(
                    before.len() - self.regions@.len(),
                    before.len() as int,
                ),
                self.regions@.len() < self.max_depth ==> self.regions@ == keep_newest(
                    before,
                    (self.max_depth - 1) as nat,
                ),
            decreases self.regions@.len(),
        {
            self.regions.pop_front();
        }
        self.regions.push_back(region);
        assert(self@ =~= keep_newest(old(self)@.push(region@), old(self).max_depth as nat));
    }

    /// Asks for an undo: sets the pending flag.
    pub fn request_undo(&mut self)
        ensures
            final(self).pending_undo,
            final(self).regions == old(self).regions,
            final(self).max_depth == old(self).max_depth,
    {
        self.pending_undo = true;
    }

    /// Clears the pending flag and returns whether it was set.
    pub fn take_pending(&mut self) -> (was_pending: bool)
        ensures
            was_pending == old(self).pending_undo,
            !final(self).pending_undo,
            final(self).regions == old(self).regions,
            final(self).max_depth == old(self).max_depth,
    {
        let was_pending = self.pending_undo;
        self.pending_undo = false;
        was_pending
    }

    /// Removes and returns the newest entry, if there is one.
    pub fn pop(&mut self) -> (popped: Option<UndoRegion>)
        ensures
            match popped {
                Some(region) => {
                    &&& old(self)@.len() > 0
                    &&& region@ == old(self)@.last()
                    &&& final(self)@ == old(self)@.drop_last()
                },
                None => old(self)@.len() == 0 && final(self)@ == old(self)@,
            },
            final(self).max_depth == old(self).max_depth,
            final(self).pending_undo == old(self).pending_undo,
            old(self).wf() ==> final(self).wf(),
    {
        let popped = self.regions.pop_back();
        proof {
            if popped.is_some() {
                assert(self@ =~= old(self)@.drop_last());
            }
        }
        popped
    }
}

/// The state shared by the command layer and the paint loop.
pub struct AppState {
    pub terrain: Option<TerrainData>,
    pub brush: BrushState,
    pub undo_stack: UndoStack,
}

impl Default for AppState {
    fn default() -> (state: Self)
        ensures
            state.terrain is None,
            state.brush == (BrushState {
                active_tool: None,
                radius: 0x41F0_0000,
                strength: 0x3F00_0000,
                flatten_target: 0x3F00_0000,
                noise_scale: 0x3D4C_CCCD,
                is_painting: false,
                cursor_world: None,
            }),
            state.undo_stack@ == Seq::<RegionModel>::empty(),
            state.undo_stack.max_depth == 50,
            !state.undo_stack.pending_undo,
    {
        AppState {
            terrain: None,
            brush: BrushState::default(),
            undo_stack: UndoStack::default(),
        }
    }
}

} // verus!
