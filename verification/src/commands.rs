//! The commands on the loaded world.

use crate::config::TerrainConfig;
use crate::state::{AppState, TerrainData};
use crate::volcanoes::{has_room, leaves_room, volcano_centers, well_placed};
use vstd::prelude::*;

verus! {

/// Why a command was refused.
#[derive(Debug, Clone, Copy, PartialEq, Eq, Structural)]
pub enum CommandError {
    /// The command needs a world and none is loaded.
    NoTerrain,
    /// The cones are too wide for the world: no center keeps its distance
    /// from the edges.
    NoRoomForVolcano,
    /// The field has another number of cells than the world.
    FieldLength,
}

/// What the shell is told about a world that was generated or loaded. The
/// sea level is a single-precision bit pattern.
#[derive(Debug, Clone, Copy, PartialEq, Eq, Structural)]
pub struct GenerateResult {
    pub world_width: u32,
    pub world_height: u32,
    pub sea_level: u32,
}

/// Makes `world` the loaded world, after generation or loading.
pub fn install_world(state: &mut AppState, world: TerrainData) -> (result: GenerateResult)
    ensures
        final(state).terrain == Some(world),
        final(state).brush == old(state).brush,
        final(state).undo_stack == old(state).undo_stack,
        result == (GenerateResult {
            world_width: world.config.world_width,
            world_height: world.config.world_height,
            sea_level: world.config.sea_level,
        }),
{
    let result = GenerateResult {
        world_width: world.config.world_width,
        world_height: world.config.world_height,
        sea_level: world.config.sea_level,
    };
    state.terrain = Some(world);
    result
}

/// The configuration of the loaded world, if one is loaded.
pub fn get_terrain_config(state: &AppState) -> (config: Option<TerrainConfig>)
    ensures
        config == match state.terrain {
            Some(world) => Some(world.config),
            None => None,
        },
{
    match &state.terrain {
        Some(world) => Some(world.config),
        None => None,
    }
}

/// Why no volcanoes can be placed, if they cannot.
pub open spec fn placement_fault(state: AppState, radius: usize, count: u32) -> Option<
    CommandError,
> {
    match state.terrain {
        None => Some(CommandError::NoTerrain),
        Some(world) => if count > 0 && !(has_room(world.config.world_width as int, radius as int)
            && has_room(world.config.world_height as int, radius as int)) {
            Some(CommandError::NoRoomForVolcano)
        } else {
            None
        },
    }
}

/// Chooses the centers of `count` volcanoes on the loaded world, seeded by
/// the world's seed. The caller shapes the cones and hands the elevations
/// back with [`store_heights`].
pub fn generate_volcanoes(state: &AppState, radius: usize, count: u32) -> (result: Result<
    Vec<(usize, usize)>,
    CommandError,
>)
    ensures
        match result {
            Ok(centers) => {
                &&& placement_fault(*state, radius, count) is None
                &&& centers@.len() == count
                &&& forall|k: int|
                    0 <= k < count ==> well_placed(
                        #[trigger] centers@[k],
                        state.terrain->0.config.world_width as int,
                        state.terrain->0.config.world_height as int,
                        radius as int,
                    )
            },
            Err(e) => placement_fault(*state, radius, count) == Some(e),
        },
{
    match &state.terrain {
        None => Err(CommandError::NoTerrain),
        Some(world) => {
            let width: usize = world.config.world_width as usize;
            let height: usize = world.config.world_height as usize;
            if count > 0 && !(leaves_room(width, radius) && leaves_room(height, radius)) {
                return Err(CommandError::NoRoomForVolcano);
            }
            Ok(volcano_centers(width, height, radius, count, world.config.seed))
        },
    }
}

/// Why the elevations cannot be replaced, if they cannot.
pub open spec fn replacement_fault(state: AppState, heights: Seq<u32>) -> Option<CommandError> {
    match state.terrain {
        None => Some(CommandError::NoTerrain),
        Some(world) => if heights.len() != world.heights@.len() {
            Some(CommandError::FieldLength)
        } else {
            None
        },
    }
}

/// Replaces the elevations of the loaded world and marks the world dirty.
/// Nothing changes when the command is refused.
pub fn store_heights(state: &mut AppState, heights: Vec<u32>) -> (result: Result<(), CommandError>)
    ensures
        final(state).brush == old(state).brush,
        final(state).undo_stack == old(state).undo_stack,
        match result {
            Ok(_) => {
                &&& replacement_fault(*old(state), heights@) is None
                &&& final(state).terrain matches Some(world)
                &&& world.heights == heights
                &&& world.dirty
                &&& world.config == old(state).terrain->0.config
                &&& world.flow == old(state).terrain->0.flow
                &&& world.biomes == old(state).terrain->0.biomes
            },
            Err(e) => {
                &&& replacement_fault(*old(state), heights@) == Some(e)
                &&& final(state).terrain == old(state).terrain
            },
        },
{
    match &mut state.terrain {
        None => Err(CommandError::NoTerrain),
        Some(world) => {
            if heights.len() != world.heights.len() {
                return Err(CommandError::FieldLength);
            }
            world.heights = heights;
            world.dirty = true;
            Ok(())
        },
    }
}

} // verus!
