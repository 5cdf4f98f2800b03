//! A world as named blobs: each field compressed by itself, ready for a
//! store that keeps bytes under names. The configuration is stored by the
//! caller as text.

use crate::codec::{
    compress, decode_cells, decompress, encode_cells, lemma_cells_round_trip, pack_cells,
    unpack_cells, zstd_content, zstd_frame, CompressionError,
};
use crate::config::TerrainConfig;
use crate::state::TerrainData;
use vstd::prelude::*;

verus! {

/// The compression level of stored fields.
pub const STORAGE_LEVEL: i32 = 6;

/// The fields of a world, in the order in which they are stored and read.
#[derive(Debug, Clone, Copy, PartialEq, Eq, Structural)]
pub enum FieldName {
    Heights,
    Flow,
    Biomes,
}

/// What is wrong with a field.
#[derive(Debug, Clone, Copy, PartialEq, Eq, Structural)]
pub enum StorageFault {
    /// The field could not be compressed or its blob could not be read.
    Compression(CompressionError),
    /// The blob holds another number of cells than the configured grid.
    WrongLength,
}

/// A failure to store or read a world, with the field that failed.
#[derive(Debug, Clone, Copy, PartialEq, Eq, Structural)]
pub struct StorageError {
    pub field: FieldName,
    pub fault: StorageFault,
}

impl FieldName {
    /// The name under which the field is stored.
    pub fn blob_name(self) -> (name: &'static str)
        ensures
            name@ == match self {
                FieldName::Heights => "heights"@,
                FieldName::Flow => "flow"@,
                FieldName::Biomes => "biomes"@,
            },
    {
        match self {
            FieldName::Heights => "heights",
            FieldName::Flow => "flow",
            FieldName::Biomes => "biomes",
        }
    }
}

/// The compressed fields of a world.
pub struct WorldBlobs {
    pub heights: Vec<u8>,
    pub flow: Vec<u8>,
    pub biomes: Vec<u8>,
}

/// `blobs` are the fields of `data`, each compressed at the storage level,
/// and each blob reads back as the bytes that went in.
pub open spec fn stored(data: TerrainData, blobs: WorldBlobs) -> bool {
    &&& blobs.heights@ == zstd_frame(encode_cells(data.heights@), STORAGE_LEVEL)
    &&& blobs.flow@ == zstd_frame(encode_cells(data.flow@), STORAGE_LEVEL)
    &&& blobs.biomes@ == zstd_frame(data.biomes@, STORAGE_LEVEL)
    &&& zstd_content(blobs.heights@) == Some(encode_cells(data.heights@))
    &&& zstd_content(blobs.flow@) == Some(encode_cells(data.flow@))
    &&& zstd_content(blobs.biomes@) == Some(data.biomes@)
}

/// Compresses the fields of a world for storage. Fails only where the
/// compressor does, and then names the first field that it failed on.
pub fn save(data: &TerrainData) -> (result: Result<WorldBlobs, StorageError>)
    ensures
        match result {
            Ok(blobs) => stored(*data, blobs),
            Err(e) => e.fault == StorageFault::Compression(CompressionError::EncodeFailed),
        },
{
    let heights = match pack_cells(&data.heights, STORAGE_LEVEL) {
        Ok(blob) => blob,
        Err(e) => {
            return Err(
                StorageError { field: FieldName::Heights, fault: StorageFault::Compression(e) },
            );
        },
    };
    let flow = match pack_cells(&data.flow, STORAGE_LEVEL) {
        Ok(blob) => blob,
        Err(e) => {
            return Err(
                StorageError { field: FieldName::Flow, fault: StorageFault::Compression(e) },
            );
        },
    };
    let biomes = match compress(&data.biomes, STORAGE_LEVEL) {
        Ok(blob) => blob,
        Err(e) => {
            return Err(
                StorageError { field: FieldName::Biomes, fault: StorageFault::Compression(e) },
            );
        },
    };
    Ok(WorldBlobs { heights, flow, biomes })
}

/// What is wrong with the blob of a field of cells, if anything.
pub open spec fn cells_fault(blob: Seq<u8>, cells: nat) -> Option<StorageFault> {
    match zstd_content(blob) {
        None => Some(StorageFault::Compression(CompressionError::CorruptPayload)),
        Some(bytes) => if decode_cells(bytes).len() != cells {
            Some(StorageFault::WrongLength)
        } else {
            None
        },
    }
}

/// What is wrong with the blob of a field of labels, if anything.
pub open spec fn labels_fault(blob: Seq<u8>, cells: nat) -> Option<StorageFault> {
    match zstd_content(blob) {
        None => Some(StorageFault::Compression(CompressionError::CorruptPayload)),
        Some(bytes) => if bytes.len() != cells {
            Some(StorageFault::WrongLength)
        } else {
            None
        },
    }
}

/// The first fault among the blobs of a world, if there is one.
pub open spec fn first_fault(config: TerrainConfig, blobs: WorldBlobs) -> Option<StorageError> {
    match cells_fault(blobs.heights@, config.cells()) {
        Some(fault) => Some(StorageError { field: FieldName::Heights, fault }),
        None => match cells_fault(blobs.flow@, config.cells()) {
            Some(fault) => Some(StorageError { field: FieldName::Flow, fault }),
            None => match labels_fault(blobs.biomes@, config.cells()) {
                Some(fault) => Some(StorageError { field: FieldName::Biomes, fault }),
                None => None,
            },
        },
    }
}

/// `world` is what the blobs hold under `config`.
pub open spec fn holds(config: TerrainConfig, blobs: WorldBlobs, world: TerrainData) -> bool {
    &&& world.config == config
    &&& world.dirty
    &&& zstd_content(blobs.heights@) matches Some(bytes) && world.heights@ == decode_cells(bytes)
    &&& zstd_content(blobs.flow@) matches Some(bytes) && world.flow@ == decode_cells(bytes)
    &&& zstd_content(blobs.biomes@) == Some(world.biomes@)
}

/// Reads a world back from its blobs. Succeeds exactly when every blob
/// decompresses to a field of the configured size; otherwise the error
/// names the first field that does not. The world that comes back is
/// marked dirty.
pub fn load(config: TerrainConfig, blobs: &WorldBlobs) -> (result: Result<
    TerrainData,
    StorageError,
>)
    ensures
        match result {
            Ok(world) => {
                &&& first_fault(config, *blobs) is None
                &&& holds(config, *blobs, world)
                &&& world.wf()
            },
            Err(e) => first_fault(config, *blobs) == Some(e),
        },
{
    assert(config.world_width * config.world_height <= u32::MAX * u32::MAX) by (nonlinear_arith)
        requires
            config.world_width <= u32::MAX,
            config.world_height <= u32::MAX,
    ;
    assert(config.world_width * config.world_height >= 0) by (nonlinear_arith);
    let cells: u64 = config.world_width as u64 * config.world_height as u64;
    let heights = match unpack_cells(&blobs.heights) {
        Ok(field) => field,
        Err(e) => {
            return Err(
                StorageError { field: FieldName::Heights, fault: StorageFault::Compression(e) },
            );
        },
    };
    if heights.len() as u64 != cells {
        return Err(StorageError { field: FieldName::Heights, fault: StorageFault::WrongLength });
    }
    let flow = match unpack_cells(&blobs.flow) {
        Ok(field) => field,
        Err(e) => {
            return Err(
                StorageError { field: FieldName::Flow, fault: StorageFault::Compression(e) },
            );
        },
    };
    if flow.len() as u64 != cells {
        return Err(StorageError { field: FieldName::Flow, fault: StorageFault::WrongLength });
    }
    let biomes = match decompress(&blobs.biomes) {
        Ok(field) => field,
        Err(e) => {
            return Err(
                StorageError { field: FieldName::Biomes, fault: StorageFault::Compression(e) },
            );
        },
    };
    if biomes.len() as u64 != cells {
        return Err(StorageError { field: FieldName::Biomes, fault: StorageFault::WrongLength });
    }
    Ok(TerrainData { config, heights, flow, biomes, dirty: true })
}

/// A stored world reads back with the fields that were stored, cell for
/// cell: storing and reading lose nothing.
pub proof fn lemma_stored_world_loads(data: TerrainData, blobs: WorldBlobs, world: TerrainData)
    requires
        data.wf(),
        stored(data, blobs),
        holds(data.config, blobs, world),
    ensures
        first_fault(data.config, blobs) is None,
        world.heights@ == data.heights@,
        world.flow@ == data.flow@,
        world.biomes@ == data.biomes@,
        world.config == data.config,
{
    lemma_cells_round_trip(data.heights@);
    lemma_cells_round_trip(data.flow@);
}

} // verus!
