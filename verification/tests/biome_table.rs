use worldweaver::biomes::{classify, classify_cell, Biome, ElevationBand, LatitudeBand};

const LATITUDES: [LatitudeBand; 6] = [
    LatitudeBand::Equatorial,
    LatitudeBand::Subtropical,
    LatitudeBand::Temperate,
    LatitudeBand::Boreal,
    LatitudeBand::Subpolar,
    LatitudeBand::Polar,
];

const ELEVATIONS: [ElevationBand; 10] = [
    ElevationBand::DeepWater,
    ElevationBand::ShallowWater,
    ElevationBand::Shore,
    ElevationBand::Lowland,
    ElevationBand::Plain,
    ElevationBand::Upland,
    ElevationBand::Hills,
    ElevationBand::Slopes,
    ElevationBand::Heights,
    ElevationBand::Summit,
];

/// The bands of a cell, cut as the thresholds say.
fn bands(h: f32, sea_level: f32, lat: f32) -> (ElevationBand, LatitudeBand) {
    let e = (h - sea_level) / (1.0 - sea_level);
    let elevation = if h < sea_level - 0.1 {
        ElevationBand::DeepWater
    } else if h < sea_level {
        ElevationBand::ShallowWater
    } else if h < sea_level + 0.02 {
        ElevationBand::Shore
    } else if e > 0.85 {
        ElevationBand::Summit
    } else if e > 0.65 {
        ElevationBand::Heights
    } else if e >= 0.5 {
        ElevationBand::Slopes
    } else if e > 0.4 {
        ElevationBand::Hills
    } else if e > 0.3 {
        ElevationBand::Upland
    } else if e >= 0.25 {
        ElevationBand::Plain
    } else {
        ElevationBand::Lowland
    };
    let latitude = if lat > 0.75 {
        LatitudeBand::Polar
    } else if lat > 0.6 {
        LatitudeBand::Subpolar
    } else if lat > 0.55 {
        LatitudeBand::Boreal
    } else if lat > 0.35 {
        LatitudeBand::Temperate
    } else if lat > 0.15 {
        LatitudeBand::Subtropical
    } else {
        LatitudeBand::Equatorial
    };
    (elevation, latitude)
}

/// The ladder on the continuous quantities themselves.
fn ladder(hv: f32, sea_level: f32, lat: f32) -> u8 {
    if hv < sea_level - 0.1 {
        return 0;
    }
    if hv < sea_level {
        return 1;
    }
    if hv < sea_level + 0.02 {
        return 2;
    }
    let elev_above = (hv - sea_level) / (1.0 - sea_level);
    if elev_above > 0.85 {
        return 13;
    }
    if elev_above > 0.65 {
        return if lat > 0.6 { 10 } else { 12 };
    }
    if lat > 0.75 {
        return if elev_above > 0.3 { 10 } else { 9 };
    }
    if lat > 0.55 {
        return 8;
    }
    if lat > 0.35 {
        return if elev_above > 0.4 { 12 } else { 7 };
    }
    if lat > 0.15 {
        return 4;
    }
    if elev_above < 0.25 {
        6
    } else if elev_above < 0.5 {
        5
    } else {
        12
    }
}

#[test]
fn labels_count_from_zero() {
    assert_eq!(Biome::DeepOcean.id(), 0);
    assert_eq!(Biome::Beach.id(), 2);
    assert_eq!(Biome::Grassland.id(), 3);
    assert_eq!(Biome::Snow.id(), 10);
    assert_eq!(Biome::Desert.id(), 11);
    assert_eq!(Biome::HighMountain.id(), 13);
    for label in 0..=13u8 {
        assert_eq!(Biome::from_id(label).unwrap().id(), label);
    }
    assert_eq!(Biome::from_id(14), None);
}

#[test]
fn deep_water_and_summits_ignore_latitude() {
    for latitude in LATITUDES {
        assert_eq!(classify_cell(ElevationBand::DeepWater, latitude), Biome::DeepOcean);
        assert_eq!(classify_cell(ElevationBand::ShallowWater, latitude), Biome::ShallowSea);
        assert_eq!(classify_cell(ElevationBand::Shore, latitude), Biome::Beach);
        assert_eq!(classify_cell(ElevationBand::Summit, latitude), Biome::HighMountain);
    }
}

#[test]
fn table_rows() {
    assert_eq!(classify_cell(ElevationBand::Heights, LatitudeBand::Polar), Biome::Snow);
    assert_eq!(classify_cell(ElevationBand::Heights, LatitudeBand::Subpolar), Biome::Snow);
    assert_eq!(classify_cell(ElevationBand::Heights, LatitudeBand::Boreal), Biome::Mountain);
    assert_eq!(classify_cell(ElevationBand::Heights, LatitudeBand::Equatorial), Biome::Mountain);
    assert_eq!(classify_cell(ElevationBand::Lowland, LatitudeBand::Polar), Biome::Tundra);
    assert_eq!(classify_cell(ElevationBand::Plain, LatitudeBand::Polar), Biome::Tundra);
    assert_eq!(classify_cell(ElevationBand::Upland, LatitudeBand::Polar), Biome::Snow);
    assert_eq!(classify_cell(ElevationBand::Slopes, LatitudeBand::Polar), Biome::Snow);
    assert_eq!(classify_cell(ElevationBand::Lowland, LatitudeBand::Subpolar), Biome::BorealForest);
    assert_eq!(classify_cell(ElevationBand::Slopes, LatitudeBand::Boreal), Biome::BorealForest);
    assert_eq!(classify_cell(ElevationBand::Upland, LatitudeBand::Temperate), Biome::TemperateForest);
    assert_eq!(classify_cell(ElevationBand::Hills, LatitudeBand::Temperate), Biome::Mountain);
    assert_eq!(classify_cell(ElevationBand::Slopes, LatitudeBand::Subtropical), Biome::Shrubland);
    assert_eq!(classify_cell(ElevationBand::Lowland, LatitudeBand::Equatorial), Biome::TropicalRainforest);
    assert_eq!(classify_cell(ElevationBand::Plain, LatitudeBand::Equatorial), Biome::Savanna);
    assert_eq!(classify_cell(ElevationBand::Hills, LatitudeBand::Equatorial), Biome::Savanna);
    assert_eq!(classify_cell(ElevationBand::Slopes, LatitudeBand::Equatorial), Biome::Mountain);
}

#[test]
fn table_agrees_with_the_ladder_of_thresholds() {
    let sea_level = 0.42f32;
    for hi in 0..=200 {
        let h = hi as f32 / 200.0;
        for li in 0..=40 {
            let lat = li as f32 / 40.0;
            let (elevation, latitude) = bands(h, sea_level, lat);
            assert_eq!(
                classify_cell(elevation, latitude).id(),
                ladder(h, sea_level, lat),
                "h {h} lat {lat}"
            );
        }
    }
}

#[test]
fn field_is_classified_row_by_row() {
    let width = 3usize;
    let height = 2usize;
    let elevations = vec![
        ElevationBand::DeepWater,
        ElevationBand::Lowland,
        ElevationBand::Summit,
        ElevationBand::Lowland,
        ElevationBand::Hills,
        ElevationBand::Heights,
    ];
    let latitudes = vec![LatitudeBand::Polar, LatitudeBand::Equatorial];
    assert_eq!(classify(&elevations, &latitudes, width, height), vec![0, 9, 13, 6, 5, 12]);
    assert_eq!(classify(&Vec::new(), &Vec::new(), 0, 0), Vec::<u8>::new());
}

#[test]
fn every_pair_of_bands_has_a_biome_of_the_ladder() {
    for elevation in ELEVATIONS {
        for latitude in LATITUDES {
            let label = classify_cell(elevation, latitude).id();
            assert!(label <= 13 && label != 3 && label != 11);
        }
    }
}
