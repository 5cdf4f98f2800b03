use worldweaver::erosion::{is_interior, DropletSchedule, EROSION_SEED, MAX_DROPLET_STEPS};
use worldweaver::persistence::{load, save, FieldName, StorageError, StorageFault, WorldBlobs};
use worldweaver::codec::{cells_to_bytes, CompressionError};
use worldweaver::config::TerrainConfig;
use worldweaver::state::TerrainData;
use worldweaver::volcanoes::{leaves_room, volcano_centers, PLACEMENT_SEED_MASK};

#[test]
fn no_pass_means_no_droplet() {
    let mut schedule = DropletSchedule::new(4, 4, 0);
    assert_eq!(schedule.droplets_left(), 0);
    assert_eq!(schedule.next_start(), None);
    let mut schedule = DropletSchedule::new(1, 1, 9);
    assert_eq!(schedule.droplets_left(), 0);
    assert_eq!(schedule.next_start(), None);
}

#[test]
fn a_pass_has_a_droplet_for_every_four_cells() {
    let mut schedule = DropletSchedule::new(10, 7, 3);
    assert_eq!(schedule.droplets_left(), 3 * 17);
    let mut fell = 0;
    while let Some((x, y)) = schedule.next_start() {
        assert!(is_interior(10, 7, x, y));
        assert!((1..9).contains(&x) && (1..6).contains(&y));
        fell += 1;
    }
    assert_eq!(fell, 51);
    assert_eq!(schedule.droplets_left(), 0);
    assert_eq!(schedule.next_start(), None);
}

#[test]
fn droplets_do_not_all_start_in_one_cell() {
    let mut schedule = DropletSchedule::new(64, 64, 1);
    let mut starts = Vec::new();
    while let Some(start) = schedule.next_start() {
        starts.push(start);
    }
    assert_eq!(starts.len(), 1024);
    assert!(starts.iter().any(|s| *s != starts[0]));
}

#[test]
fn erosion_starts_are_the_same_for_every_run() {
    let mut a = DropletSchedule::new(32, 32, 2);
    let mut b = DropletSchedule::new(32, 32, 2);
    for _ in 0..512 {
        assert_eq!(a.next_start(), b.next_start());
    }
    assert_eq!(EROSION_SEED, 0xDEAD_BEEF);
    assert_eq!(MAX_DROPLET_STEPS, 64);
}

#[test]
fn interior_leaves_out_the_border() {
    assert!(is_interior(3, 3, 1, 1));
    assert!(!is_interior(3, 3, 0, 1));
    assert!(!is_interior(3, 3, 1, 2));
    assert!(!is_interior(3, 3, 2, 1));
    assert!(!is_interior(2, 9, 1, 1));
    assert!(!is_interior(0, 0, 0, 0));
    assert!(is_interior(5, 4, 3, 2));
}

#[test]
fn volcano_centers_keep_their_distance() {
    assert!(leaves_room(11, 5));
    assert!(!leaves_room(10, 5));
    assert!(!leaves_room(3, 7));
    assert!(leaves_room(1, 0));
    assert!(!leaves_room(0, 0));

    let centers = volcano_centers(100, 60, 20, 40, 9);
    assert_eq!(centers.len(), 40);
    for (x, y) in &centers {
        assert!((20..80).contains(x));
        assert!((20..40).contains(y));
    }
    assert!(centers.iter().any(|c| *c != centers[0]));
    assert_eq!(volcano_centers(100, 60, 20, 40, 9), centers);
    assert_eq!(volcano_centers(11, 11, 5, 3, 1), vec![(5, 5), (5, 5), (5, 5)]);
    assert_eq!(volcano_centers(2, 2, 50, 0, 1), Vec::new());
    assert_eq!(PLACEMENT_SEED_MASK, 0xF00D_CAFE);
}

fn sample_world() -> TerrainData {
    let mut config = TerrainConfig::default();
    config.world_width = 5;
    config.world_height = 4;
    let mut world = TerrainData::new(config);
    for i in 0..20 {
        world.heights[i] = (i as f32 * 0.05).to_bits();
        world.flow[i] = (1.0 - i as f32 * 0.05).to_bits();
        world.biomes[i] = (i % 14) as u8;
    }
    world.dirty = false;
    world
}

#[test]
fn stored_world_reads_back() {
    let world = sample_world();
    let blobs = save(&world).unwrap();
    assert_eq!(
        zstd::decode_all(blobs.heights.as_slice()).unwrap(),
        cells_to_bytes(&world.heights)
    );
    assert_eq!(blobs.flow, zstd::encode_all(cells_to_bytes(&world.flow).as_slice(), 6).unwrap());
    assert_eq!(zstd::decode_all(blobs.biomes.as_slice()).unwrap(), world.biomes);

    let back = load(world.config, &blobs).unwrap();
    assert_eq!(back.heights, world.heights);
    assert_eq!(back.flow, world.flow);
    assert_eq!(back.biomes, world.biomes);
    assert_eq!(back.config, world.config);
    assert!(back.dirty);
}

#[test]
fn load_names_the_field_that_failed() {
    let world = sample_world();
    let good = save(&world).unwrap();
    let corrupt = StorageFault::Compression(CompressionError::CorruptPayload);

    let blobs = WorldBlobs { heights: vec![1, 2, 3], flow: vec![4], biomes: good.biomes.clone() };
    assert_eq!(
        load(world.config, &blobs).err(),
        Some(StorageError { field: FieldName::Heights, fault: corrupt })
    );
    let blobs =
        WorldBlobs { heights: good.heights.clone(), flow: vec![4], biomes: vec![0] };
    assert_eq!(
        load(world.config, &blobs).err(),
        Some(StorageError { field: FieldName::Flow, fault: corrupt })
    );
    let blobs = WorldBlobs {
        heights: good.heights.clone(),
        flow: good.flow.clone(),
        biomes: vec![0xff; 9],
    };
    assert_eq!(
        load(world.config, &blobs).err(),
        Some(StorageError { field: FieldName::Biomes, fault: corrupt })
    );

    let mut other = world.config;
    other.world_width = 4;
    assert_eq!(
        load(other, &good).err(),
        Some(StorageError { field: FieldName::Heights, fault: StorageFault::WrongLength })
    );
    let blobs = WorldBlobs {
        heights: good.heights.clone(),
        flow: good.flow.clone(),
        biomes: zstd::encode_all(&[1u8, 2, 3][..], 6).unwrap(),
    };
    assert_eq!(
        load(world.config, &blobs).err(),
        Some(StorageError { field: FieldName::Biomes, fault: StorageFault::WrongLength })
    );
}

#[test]
fn fields_are_stored_under_their_names() {
    assert_eq!(FieldName::Heights.blob_name(), "heights");
    assert_eq!(FieldName::Flow.blob_name(), "flow");
    assert_eq!(FieldName::Biomes.blob_name(), "biomes");
}
