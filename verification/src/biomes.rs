//! Biome classification: a fixed policy table from the elevation band and
//! the latitude band of a cell to its biome.
//!
//! The bands are cut on continuous quantities by the caller. With `h` the
//! elevation of a cell, `s` the sea level and `e = (h - s) / (1 - s)` the
//! elevation above the sea, the elevation bands are, in this order of
//! precedence: `h < s - 0.1`, `h < s`, `h < s + 0.02`, and then by `e`. The
//! latitude `l` of a row runs from 0 at the middle row to 1 at the top and
//! bottom rows.

use vstd::prelude::*;

verus! {

/// The biome of a cell. The label of a biome is its place in this list,
/// counted from zero.
#[derive(Debug, Clone, Copy, PartialEq, Eq, Structural)]
pub enum Biome {
    DeepOcean,
    ShallowSea,
    Beach,
    Grassland,
    Shrubland,
    Savanna,
    TropicalRainforest,
    TemperateForest,
    BorealForest,
    Tundra,
    Snow,
    Desert,
    Mountain,
    HighMountain,
}

/// Where the elevation of a cell lies.
#[derive(Debug, Clone, Copy, PartialEq, Eq, Structural)]
pub enum ElevationBand {
    /// `h < s - 0.1`
    DeepWater,
    /// `h < s`
    ShallowWater,
    /// `h < s + 0.02`
    Shore,
    /// `e < 0.25`
    Lowland,
    /// `0.25 <= e <= 0.3`
    Plain,
    /// `0.3 < e <= 0.4`
    Upland,
    /// `0.4 < e < 0.5`
    Hills,
    /// `0.5 <= e <= 0.65`
    Slopes,
    /// `0.65 < e <= 0.85`
    Heights,
    /// `0.85 < e`
    Summit,
}

/// Where the latitude of a row lies.
#[derive(Debug, Clone, Copy, PartialEq, Eq, Structural)]
pub enum LatitudeBand {
    /// `l <= 0.15`
    Equatorial,
    /// `0.15 < l <= 0.35`
    Subtropical,
    /// `0.35 < l <= 0.55`
    Temperate,
    /// `0.55 < l <= 0.6`
    Boreal,
    /// `0.6 < l <= 0.75`
    Subpolar,
    /// `0.75 < l`
    Polar,
}

impl Biome {
    /// The label of the biome.
    pub open spec fn label(self) -> u8 {
        match self {
            Biome::DeepOcean => 0,
            Biome::ShallowSea => 1,
            Biome::Beach => 2,
            Biome::Grassland => 3,
            Biome::Shrubland => 4,
            Biome::Savanna => 5,
            Biome::TropicalRainforest => 6,
            Biome::TemperateForest => 7,
            Biome::BorealForest => 8,
            Biome::Tundra => 9,
            Biome::Snow => 10,
            Biome::Desert => 11,
            Biome::Mountain => 12,
            Biome::HighMountain => 13,
        }
    }

    /// Returns the label of the biome.
    pub fn id(self) -> (label: u8)
        ensures
            label == self.label(),
    {
        match self {
            Biome::DeepOcean => 0,
            Biome::ShallowSea => 1,
            Biome::Beach => 2,
            Biome::Grassland => 3,
            Biome::Shrubland => 4,
            Biome::Savanna => 5,
            Biome::TropicalRainforest => 6,
            Biome::TemperateForest => 7,
            Biome::BorealForest => 8,
            Biome::Tundra => 9,
            Biome::Snow => 10,
            Biome::Desert => 11,
            Biome::Mountain => 12,
            Biome::HighMountain => 13,
        }
    }

    /// The biome with the given label, if there is one.
    pub fn from_id(label: u8) -> (biome: Option<Biome>)
        ensures
            match biome {
                Some(b) => b.label() == label,
                None => label > 13,
            },
    {
        match label {
            0 => Some(Biome::DeepOcean),
            1 => Some(Biome::ShallowSea),
            2 => Some(Biome::Beach),
            3 => Some(Biome::Grassland),
            4 => Some(Biome::Shrubland),
            5 => Some(Biome::Savanna),
            6 => Some(Biome::TropicalRainforest),
            7 => Some(Biome::TemperateForest),
            8 => Some(Biome::BorealForest),
            9 => Some(Biome::Tundra),
            10 => Some(Biome::Snow),
            11 => Some(Biome::Desert),
            12 => Some(Biome::Mountain),
            13 => Some(Biome::HighMountain),
            _ => None,
        }
    }
}

impl ElevationBand {
    /// The place of the band, counted from the deepest.
    pub open spec fn level(self) -> int {
        match self {
            ElevationBand::DeepWater => 0,
            ElevationBand::ShallowWater => 1,
            ElevationBand::Shore => 2,
            ElevationBand::Lowland => 3,
            ElevationBand::Plain => 4,
            ElevationBand::Upland => 5,
            ElevationBand::Hills => 6,
            ElevationBand::Slopes => 7,
            ElevationBand::Heights => 8,
            ElevationBand::Summit => 9,
        }
    }

    /// Returns the place of the band, counted from the deepest.
    pub fn rank(self) -> (level: u8)
        ensures
            level == self.level(),
    {
        match self {
            ElevationBand::DeepWater => 0,
            ElevationBand::ShallowWater => 1,
            ElevationBand::Shore => 2,
            ElevationBand::Lowland => 3,
            ElevationBand::Plain => 4,
            ElevationBand::Upland => 5,
            ElevationBand::Hills => 6,
            ElevationBand::Slopes => 7,
            ElevationBand::Heights => 8,
            ElevationBand::Summit => 9,
        }
    }
}

impl LatitudeBand {
    /// The place of the band, counted from the equator.
    pub open spec fn level(self) -> int {
        match self {
            LatitudeBand::Equatorial => 0,
            LatitudeBand::Subtropical => 1,
            LatitudeBand::Temperate => 2,
            LatitudeBand::Boreal => 3,
            LatitudeBand::Subpolar => 4,
            LatitudeBand::Polar => 5,
        }
    }

    /// Returns the place of the band, counted from the equator.
    pub fn rank(self) -> (level: u8)
        ensures
            level == self.level(),
    {
        match self {
            LatitudeBand::Equatorial => 0,
            LatitudeBand::Subtropical => 1,
            LatitudeBand::Temperate => 2,
            LatitudeBand::Boreal => 3,
            LatitudeBand::Subpolar => 4,
            LatitudeBand::Polar => 5,
        }
    }
}

/// The policy table. Water and shore go by elevation alone, and so do the
/// summits; the heights are snow towards the poles and mountain elsewhere;
/// below them the latitude picks the family of biomes and the elevation the
/// member.
pub open spec fn biome_of(elevation: ElevationBand, latitude: LatitudeBand) -> Biome {
    match elevation {
        ElevationBand::DeepWater => Biome::DeepOcean,
        ElevationBand::ShallowWater => Biome::ShallowSea,
        ElevationBand::Shore => Biome::Beach,
        ElevationBand::Summit => Biome::HighMountain,
        ElevationBand::Heights => match latitude {
            LatitudeBand::Polar | LatitudeBand::Subpolar => Biome::Snow,
            _ => Biome::Mountain,
        },
        _ => match latitude {
            LatitudeBand::Polar => match elevation {
                ElevationBand::Lowland | ElevationBand::Plain => Biome::Tundra,
                _ => Biome::Snow,
            },
            LatitudeBand::Subpolar | LatitudeBand::Boreal => Biome::BorealForest,
            LatitudeBand::Temperate => match elevation {
                ElevationBand::Hills | ElevationBand::Slopes => Biome::Mountain,
                _ => Biome::TemperateForest,
            },
            LatitudeBand::Subtropical => Biome::Shrubland,
            LatitudeBand::Equatorial => match elevation {
                ElevationBand::Lowland => Biome::TropicalRainforest,
                ElevationBand::Slopes => Biome::Mountain,
                _ => Biome::Savanna,
            },
        },
    }
}

/// Classifies one cell, walking the ladder of thresholds from the sea
/// upwards and from the poles to the equator.
pub fn classify_cell(elevation: ElevationBand, latitude: LatitudeBand) -> (biome: Biome)
    ensures
        biome == biome_of(elevation, latitude),
        elevation == ElevationBand::DeepWater ==> biome == Biome::DeepOcean,
        elevation == ElevationBand::Summit ==> biome == Biome::HighMountain,
{
    let e: u8 = elevation.rank();
    let l: u8 = latitude.rank();
    if e == 0 {
        return Biome::DeepOcean;
    }
    if e == 1 {
        return Biome::ShallowSea;
    }
    if e == 2 {
        return Biome::Beach;
    }
    if e >= 9 {
        return Biome::HighMountain;
    }
    if e >= 8 {
        return if l >= 4 {
            Biome::Snow
        } else {
            Biome::Mountain
        };
    }
    if l >= 5 {
        return if e >= 5 {
            Biome::Snow
        } else {
            Biome::Tundra
        };
    }
    if l >= 3 {
        return Biome::BorealForest;
    }
    if l >= 2 {
        return if e >= 6 {
            Biome::Mountain
        } else {
            Biome::TemperateForest
        };
    }
    if l >= 1 {
        return Biome::Shrubland;
    }
    if e < 4 {
        Biome::TropicalRainforest
    } else if e < 7 {
        Biome::Savanna
    } else {
        Biome::Mountain
    }
}

/// Deep water is deep ocean and a summit is high mountain at every
/// latitude.
pub proof fn lemma_depth_and_summit_ignore_latitude(latitude: LatitudeBand)
    ensures
        biome_of(ElevationBand::DeepWater, latitude) == Biome::DeepOcean,
        biome_of(ElevationBand::Summit, latitude) == Biome::HighMountain,
{
}

/// The labels of the biomes of a field `width` cells wide, from the
/// elevation band of each cell and the latitude band of each row.
pub open spec fn classified(
    elevations: Seq<ElevationBand>,
    latitudes: Seq<LatitudeBand>,
    width: int,
) -> Seq<u8> {
    Seq::new(elevations.len(), |i: int| biome_of(elevations[i], latitudes[i / width]).label())
}

/// Classifies every cell of a field, row by row.
pub fn classify(
    elevations: &Vec<ElevationBand>,
    latitudes: &Vec<LatitudeBand>,
    width: usize,
    height: usize,
) -> (labels: Vec<u8>)
    requires
        elevations@.len() == width * height,
        latitudes@.len() == height,
    ensures
        labels@ == classified(elevations@, latitudes@, width as int),
{
    let n: usize = elevations.len();
    let mut labels: Vec<u8> = Vec::new();
    let mut i: usize = 0;
    while i < n
        invariant
            n == elevations@.len(),
            n == width * height,
            latitudes@.len() == height,
            i <= n,
            labels@.len() == i,
            forall|j: int|
                0 <= j < i ==> #[trigger] labels@[j] == biome_of(
                    elevations@[j],
                    latitudes@[j / (width as int)],
                ).label(),
        decreases n - i,
    {
        assert(width > 0 && i / width < height) by (nonlinear_arith)
            requires
                i < width * height,
                0 <= i,
                0 <= width,
                0 <= height,
        ;
        let row: usize = i / width;
        labels.push(classify_cell(elevations[i], latitudes[row]).id());
        i = i + 1;
    }
    assert(labels@ =~= classified(elevations@, latitudes@, width as int));
    labels
}

} // verus!
