//! The parameters of a generation run.

use vstd::prelude::*;

verus! {

/// Why a configuration cannot be generated from.
#[derive(Debug, Clone, Copy, PartialEq, Eq, Structural)]
pub enum ConfigError {
    /// The width or the height is zero.
    EmptyWorld,
    /// The number of cells does not fit in 32 bits.
    WorldTooLarge,
    /// The octave count is zero.
    NoOctaves,
    /// A noise parameter, the sea level or the maximum elevation is an
    /// infinity or not a number.
    NotFinite,
    /// The sea level lies outside [0, 1].
    SeaLevelOutOfRange,
}

/// Everything that defines a generation run. Continuous parameters are held
/// by their IEEE-754 bit patterns: double precision in a `u64`, single
/// precision in a `u32`.
#[derive(Debug, Clone, Copy, PartialEq, Eq, Structural)]
pub struct TerrainConfig {
    pub world_width: u32,
    pub world_height: u32,
    pub seed: u64,
    pub octaves: u32,
    /// Double precision.
    pub frequency: u64,
    /// Double precision.
    pub persistence: u64,
    /// Double precision.
    pub lacunarity: u64,
    /// Double precision.
    pub amplitude: u64,
    /// Single precision.
    pub sea_level: u32,
    /// Single precision.
    pub max_elevation: u32,
    pub erosion_passes: u32,
    /// Single precision.
    pub contour_interval: u32,
    /// Single precision.
    pub sun_azimuth: u32,
}

/// The bit pattern of the single-precision number 1.
pub const ONE_BITS: u32 = 0x3F80_0000;

/// The bit pattern of the single-precision number -0.
pub const NEGATIVE_ZERO_BITS: u32 = 0x8000_0000;

/// Whether a single-precision bit pattern is a finite number: its exponent
/// field is not all ones.
pub open spec fn is_finite32(bits: u32) -> bool {
    bits / 0x80_0000 % 256 != 255
}

/// Whether a double-precision bit pattern is a finite number: its exponent
/// field is not all ones.
pub open spec fn is_finite64(bits: u64) -> bool {
    bits / 0x10_0000_0000_0000 % 2048 != 2047
}

/// Whether a single-precision bit pattern is a number in [0, 1]. The
/// patterns of the non-negative numbers are ordered as the numbers are.
pub open spec fn in_unit_interval(bits: u32) -> bool {
    bits <= ONE_BITS || bits == NEGATIVE_ZERO_BITS
}

/// Decides whether a single-precision bit pattern is a finite number.
pub fn finite32(bits: u32) -> (finite: bool)
    ensures
        finite == is_finite32(bits),
{
    bits / 0x80_0000 % 256 != 255
}

/// Decides whether a double-precision bit pattern is a finite number.
pub fn finite64(bits: u64) -> (finite: bool)
    ensures
        finite == is_finite64(bits),
{
    bits / 0x10_0000_0000_0000 % 2048 != 2047
}

impl Default for TerrainConfig {
    fn default() -> (config: Self)
        ensures
            config == (TerrainConfig {
                world_width: 1024,
                world_height: 768,
                seed: 42,
                octaves: 8,
                frequency: 0x4000_0000_0000_0000,
                persistence: 0x3FE0_0000_0000_0000,
                lacunarity: 0x4000_0000_0000_0000,
                amplitude: 0x3FF0_0000_0000_0000,
                sea_level: 0x3ED7_0A3D,
                max_elevation: 0x457A_0000,
                erosion_passes: 5,
                contour_interval: 0x42C8_0000,
                sun_azimuth: 0x439D_8000,
            }),
            config.check() is Ok,
    {
        TerrainConfig {
            world_width: 1024,
            world_height: 768,
            seed: 42,
            octaves: 8,
            // 2.0
            frequency: 0x4000_0000_0000_0000,
            // 0.5
            persistence: 0x3FE0_0000_0000_0000,
            // 2.0
            lacunarity: 0x4000_0000_0000_0000,
            // 1.0
            amplitude: 0x3FF0_0000_0000_0000,
            // 0.42
            sea_level: 0x3ED7_0A3D,
            // 4000.0
            max_elevation: 0x457A_0000,
            erosion_passes: 5,
            // 100.0
            contour_interval: 0x42C8_0000,
            // 315.0
            sun_azimuth: 0x439D_8000,
        }
    }
}

impl TerrainConfig {
    /// The number of cells of the world.
    pub open spec fn cells(&self) -> nat {
        (self.world_width * self.world_height) as nat
    }

    /// The first rule that the configuration breaks, if it breaks one.
    pub open spec fn check(&self) -> Result<(), ConfigError> {
        if self.world_width == 0 || self.world_height == 0 {
            Err(ConfigError::EmptyWorld)
        } else if self.world_width * self.world_height > u32::MAX {
            Err(ConfigError::WorldTooLarge)
        } else if self.octaves == 0 {
            Err(ConfigError::NoOctaves)
        } else if !(is_finite64(self.frequency) && is_finite64(self.persistence) && is_finite64(
            self.lacunarity,
        ) && is_finite64(self.amplitude) && is_finite32(self.sea_level) && is_finite32(
            self.max_elevation,
        )) {
            Err(ConfigError::NotFinite)
        } else if !in_unit_interval(self.sea_level) {
            Err(ConfigError::SeaLevelOutOfRange)
        } else {
            Ok(())
        }
    }

    /// Whether a world can be generated from the configuration.
    pub open spec fn valid(&self) -> bool {
        self.check() is Ok
    }

    /// Checks the configuration before any field is allocated, and returns
    /// the number of cells of the world.
    pub fn validate(&self) -> (result: Result<usize, ConfigError>)
        ensures
            match result {
                Ok(cells) => self.check() is Ok && cells == self.cells(),
                Err(e) => self.check() == Err::<(), ConfigError>(e),
            },
    {
        if self.world_width == 0 || self.world_height == 0 {
            return Err(ConfigError::EmptyWorld);
        }
        assert(self.world_width * self.world_height <= u32::MAX * u32::MAX) by (nonlinear_arith)
            requires
                self.world_width <= u32::MAX,
                self.world_height <= u32::MAX,
        ;
        let cells: u64 = self.world_width as u64 * self.world_height as u64;
        if cells > u32::MAX as u64 {
            return Err(ConfigError::WorldTooLarge);
        }
        if self.octaves == 0 {
            return Err(ConfigError::NoOctaves);
        }
        if !(finite64(self.frequency) && finite64(self.persistence) && finite64(self.lacunarity)
            && finite64(self.amplitude) && finite32(self.sea_level) && finite32(
            self.max_elevation,
        )) {
            return Err(ConfigError::NotFinite);
        }
        if !(self.sea_level <= ONE_BITS || self.sea_level == NEGATIVE_ZERO_BITS) {
            return Err(ConfigError::SeaLevelOutOfRange);
        }
        Ok(cells as usize)
    }
}

} // verus!
