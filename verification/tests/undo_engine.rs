use worldweaver::codec::{bytes_to_cells, cells_to_bytes};
use worldweaver::config::TerrainConfig;
use worldweaver::state::{AppState, TerrainData, UndoRegion, UndoStack};
use worldweaver::undo::{apply_undo, clip_region, snapshot_brush_region, RegionRect, UndoOutcome};

fn world(width: u32, height: u32) -> TerrainData {
    let mut config = TerrainConfig::default();
    config.world_width = width;
    config.world_height = height;
    let mut data = TerrainData::new(config);
    for i in 0..data.heights.len() {
        data.heights[i] = (0.01f32 * (i as f32 + 1.0)).to_bits();
    }
    data
}

fn region(tag: u32) -> UndoRegion {
    UndoRegion { x: tag, y: 0, width: 1, height: 1, compressed: vec![tag as u8] }
}

#[test]
fn capture_then_undo_restores_block_and_leaves_rest() {
    let mut state = AppState::default();
    let fresh = world(5, 5);
    let saved = fresh.heights.clone();
    state.terrain = Some(fresh);

    assert_eq!(snapshot_brush_region(&mut state, 2, 2, 1), Ok(true));
    assert_eq!(state.undo_stack.regions.len(), 1);

    for cell in state.terrain.as_mut().unwrap().heights.iter_mut() {
        *cell = 0;
    }
    state.terrain.as_mut().unwrap().dirty = false;

    let outcome = apply_undo(&mut state);
    let heights = &state.terrain.as_ref().unwrap().heights;
    for y in 0..5usize {
        for x in 0..5usize {
            let i = y * 5 + x;
            if (1..=3).contains(&x) && (1..=3).contains(&y) {
                assert_eq!(heights[i], saved[i]);
            } else {
                assert_eq!(heights[i], 0);
            }
        }
    }
    match outcome {
        UndoOutcome::Restored(write) => {
            assert_eq!((write.x, write.y, write.width, write.height), (1, 1, 3, 3));
            let expected: Vec<u32> = vec![
                saved[6], saved[7], saved[8], saved[11], saved[12], saved[13], saved[16],
                saved[17], saved[18],
            ];
            assert_eq!(write.data, expected);
        }
        _ => panic!("the region should have been restored"),
    }
    assert!(!state.terrain.as_ref().unwrap().dirty);
    assert_eq!(state.undo_stack.regions.len(), 0);
}

#[test]
fn history_keeps_the_newest_regions() {
    let mut stack = UndoStack::with_max_depth(3);
    for tag in 0..5u32 {
        stack.push(region(tag));
    }
    assert_eq!(stack.regions.len(), 3);
    let tags: Vec<u32> = stack.regions.iter().map(|r| r.x).collect();
    assert_eq!(tags, vec![2, 3, 4]);
    assert_eq!(stack.pop().map(|r| r.x), Some(4));
    assert_eq!(stack.pop().map(|r| r.x), Some(3));
    assert_eq!(stack.pop().map(|r| r.x), Some(2));
    assert!(stack.pop().is_none());
}

#[test]
fn clip_keeps_the_square_inside_the_world() {
    assert_eq!(clip_region(2, 2, 1, 5, 5), Some(RegionRect { x: 1, y: 1, width: 3, height: 3 }));
    assert_eq!(clip_region(0, 0, 2, 5, 5), Some(RegionRect { x: 0, y: 0, width: 3, height: 3 }));
    assert_eq!(clip_region(-10, 2, 3, 5, 5), None);
    assert_eq!(clip_region(2, 9, 3, 5, 5), None);
}

#[test]
fn cells_survive_the_byte_encoding() {
    let cells: Vec<u32> = vec![0, 1, 0x0102_0304, u32::MAX, 0.42f32.to_bits()];
    let bytes = cells_to_bytes(&cells);
    assert_eq!(&bytes[8..12], &[0x04, 0x03, 0x02, 0x01]);
    assert_eq!(bytes_to_cells(&bytes), cells);
}

#[test]
fn snapshot_holds_the_compressed_cells() {
    let mut state = AppState::default();
    let fresh = world(4, 3);
    let saved = fresh.heights.clone();
    state.terrain = Some(fresh);

    assert_eq!(snapshot_brush_region(&mut state, 0, 0, 1), Ok(true));
    let region = state.undo_stack.regions.back().unwrap();
    assert_eq!((region.x, region.y, region.width, region.height), (0, 0, 2, 2));

    let raw = cells_to_bytes(&vec![saved[0], saved[1], saved[4], saved[5]]);
    assert_ne!(region.compressed, raw);
    assert_eq!(zstd::decode_all(region.compressed.as_slice()).unwrap(), raw);
    assert_eq!(region.compressed, zstd::encode_all(raw.as_slice(), 3).unwrap());
}

#[test]
fn snapshot_is_skipped_without_a_world_or_a_cell() {
    let mut state = AppState::default();
    assert_eq!(snapshot_brush_region(&mut state, 2, 2, 1), Ok(false));
    assert_eq!(state.undo_stack.regions.len(), 0);

    state.terrain = Some(world(5, 5));
    assert_eq!(snapshot_brush_region(&mut state, 40, 2, 3), Ok(false));
    assert_eq!(snapshot_brush_region(&mut state, 2, -9, 3), Ok(false));
    assert_eq!(state.undo_stack.regions.len(), 0);
}

#[test]
fn undo_without_world_or_history_changes_nothing() {
    let mut state = AppState::default();
    state.undo_stack.push(region(7));
    assert!(matches!(apply_undo(&mut state), UndoOutcome::Nothing));
    assert_eq!(state.undo_stack.regions.len(), 1);

    let mut state = AppState::default();
    let fresh = world(3, 3);
    let saved = fresh.heights.clone();
    state.terrain = Some(fresh);
    assert!(matches!(apply_undo(&mut state), UndoOutcome::Nothing));
    assert_eq!(state.terrain.as_ref().unwrap().heights, saved);
}

#[test]
fn corrupt_payload_is_dropped_and_the_field_kept() {
    let mut state = AppState::default();
    let fresh = world(3, 3);
    let saved = fresh.heights.clone();
    state.terrain = Some(fresh);
    state.terrain.as_mut().unwrap().dirty = false;
    state.undo_stack.push(UndoRegion {
        x: 0,
        y: 0,
        width: 2,
        height: 2,
        compressed: vec![1, 2, 3, 4, 5],
    });

    assert!(matches!(apply_undo(&mut state), UndoOutcome::Discarded));
    assert_eq!(state.terrain.as_ref().unwrap().heights, saved);
    assert!(!state.terrain.as_ref().unwrap().dirty);
    assert_eq!(state.undo_stack.regions.len(), 0);
}

#[test]
fn region_of_a_larger_world_is_written_where_it_fits() {
    let mut state = AppState::default();
    state.terrain = Some(world(5, 5));
    assert_eq!(snapshot_brush_region(&mut state, 3, 3, 1), Ok(true));

    let mut small = world(3, 3);
    for cell in small.heights.iter_mut() {
        *cell = 0;
    }
    small.dirty = false;
    state.terrain = Some(small);

    assert!(matches!(apply_undo(&mut state), UndoOutcome::Resync));
    let after = state.terrain.as_ref().unwrap();
    assert!(after.dirty);
    assert_eq!(after.heights.len(), 9);
    let first = (0.01f32 * 13.0).to_bits();
    assert_eq!(after.heights[2 * 3 + 2], first);
    assert_eq!(after.heights[0], 0);
}

#[test]
fn short_payload_restores_its_cells_and_asks_for_an_upload() {
    let mut state = AppState::default();
    let mut blank = world(4, 4);
    for cell in blank.heights.iter_mut() {
        *cell = 0;
    }
    blank.dirty = false;
    state.terrain = Some(blank);
    let payload = cells_to_bytes(&vec![11, 12, 13]);
    state.undo_stack.push(UndoRegion {
        x: 1,
        y: 1,
        width: 2,
        height: 2,
        compressed: zstd::encode_all(payload.as_slice(), 3).unwrap(),
    });

    assert!(matches!(apply_undo(&mut state), UndoOutcome::Resync));
    let after = state.terrain.as_ref().unwrap();
    assert_eq!(after.heights[5], 11);
    assert_eq!(after.heights[6], 12);
    assert_eq!(after.heights[9], 13);
    assert_eq!(after.heights[10], 0);
    assert!(after.dirty);
}

#[test]
fn history_without_depth_keeps_nothing() {
    let mut stack = UndoStack::with_max_depth(0);
    stack.push(region(1));
    assert_eq!(stack.regions.len(), 0);
    assert!(stack.pop().is_none());
}

#[test]
fn default_history_holds_fifty_regions() {
    let mut stack = UndoStack::default();
    assert_eq!(stack.max_depth, 50);
    assert!(!stack.pending_undo);
    for tag in 0..60u32 {
        stack.push(region(tag));
    }
    assert_eq!(stack.regions.len(), 50);
    assert_eq!(stack.regions.front().unwrap().x, 10);
    assert_eq!(stack.regions.back().unwrap().x, 59);
}

#[test]
fn pending_flag_is_set_and_taken() {
    let mut stack = UndoStack::default();
    assert!(!stack.take_pending());
    stack.request_undo();
    assert!(stack.pending_undo);
    assert!(stack.take_pending());
    assert!(!stack.pending_undo);
}

#[test]
fn trailing_bytes_are_ignored_when_decoding() {
    assert_eq!(bytes_to_cells(&vec![1, 0, 0, 0, 2, 0, 0, 0, 9, 9]), vec![1, 2]);
    assert_eq!(bytes_to_cells(&vec![7, 7, 7]), Vec::<u32>::new());
}
