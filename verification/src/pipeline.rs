//! The last step of generation: the fields that the stages produced become
//! a world. The stages run in a fixed order: noise, erosion, biomes, flow.

use crate::config::{ConfigError, TerrainConfig};
use crate::persistence::FieldName;
use crate::state::TerrainData;
use vstd::prelude::*;

verus! {

/// Why generation failed.
#[derive(Debug, Clone, Copy, PartialEq, Eq, Structural)]
pub enum GenerationError {
    /// The configuration was refused.
    Config(ConfigError),
    /// A stage produced a field of another size than the configured grid.
    FieldLength(FieldName),
}

/// The first reason, if any, for which the fields do not make a world.
pub open spec fn assembly_fault(
    config: TerrainConfig,
    heights: Seq<u32>,
    flow: Seq<u32>,
    biomes: Seq<u8>,
) -> Option<GenerationError> {
    match config.check() {
        Err(e) => Some(GenerationError::Config(e)),
        Ok(_) => if heights.len() != config.cells() {
            Some(GenerationError::FieldLength(FieldName::Heights))
        } else if flow.len() != config.cells() {
            Some(GenerationError::FieldLength(FieldName::Flow))
        } else if biomes.len() != config.cells() {
            Some(GenerationError::FieldLength(FieldName::Biomes))
        } else {
            None
        },
    }
}

/// Makes a world of a configuration and the fields generated from it. The
/// world is marked dirty, so that the device gets its fields.
pub fn assemble(config: TerrainConfig, heights: Vec<u32>, flow: Vec<u32>, biomes: Vec<u8>) -> (result:
    Result<TerrainData, GenerationError>)
    ensures
        match result {
            Ok(world) => {
                &&& assembly_fault(config, heights@, flow@, biomes@) is None
                &&& world.config == config
                &&& world.heights == heights
                &&& world.flow == flow
                &&& world.biomes == biomes
                &&& world.dirty
                &&& world.wf()
            },
            Err(e) => assembly_fault(config, heights@, flow@, biomes@) == Some(e),
        },
{
    let cells = match config.validate() {
        Ok(cells) => cells,
        Err(e) => {
            return Err(GenerationError::Config(e));
        },
    };
    if heights.len() != cells {
        return Err(GenerationError::FieldLength(FieldName::Heights));
    }
    if flow.len() != cells {
        return Err(GenerationError::FieldLength(FieldName::Flow));
    }
    if biomes.len() != cells {
        return Err(GenerationError::FieldLength(FieldName::Biomes));
    }
    Ok(TerrainData { config, heights, flow, biomes, dirty: true })
}

} // verus!
