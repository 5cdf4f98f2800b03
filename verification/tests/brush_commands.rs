use worldweaver::brush::{
    begin_frame, begin_stroke, dispatch_brush, negate, set_active_tool, set_brush_params,
    undo_stroke, BrushKernel, BrushParams, 
};
use worldweaver::commands::{
    generate_volcanoes, get_terrain_config, install_world, store_heights, CommandError,
    GenerateResult,
};
use worldweaver::config::TerrainConfig;
use worldweaver::state::{AppState, BrushState, BrushTool, TerrainData};
use worldweaver::undo::UndoOutcome;

fn small_world(width: u32, height: u32) -> TerrainData {
    let mut config = TerrainConfig::default();
    config.world_width = width;
    config.world_height = height;
    let mut world = TerrainData::new(config);
    for i in 0..world.heights.len() {
        world.heights[i] = (i as f32 / 100.0).to_bits();
    }
    world
}

#[test]
fn default_brush() {
    let brush = BrushState::default();
    assert_eq!(brush.active_tool, None);
    assert_eq!(f32::from_bits(brush.radius), 30.0);
    assert_eq!(f32::from_bits(brush.strength), 0.5);
    assert_eq!(f32::from_bits(brush.flatten_target), 0.5);
    assert_eq!(f32::from_bits(brush.noise_scale), 0.05);
    assert!(!brush.is_painting);
    assert_eq!(brush.cursor_world, None);
    assert_eq!(BrushTool::default(), BrushTool::Raise);
}

#[test]
fn tools_and_their_kernels() {
    assert_eq!(BrushTool::Raise.kernel(), BrushKernel::Raise);
    assert_eq!(BrushTool::Lower.kernel(), BrushKernel::Raise);
    assert_eq!(BrushTool::Smooth.kernel(), BrushKernel::Smooth);
    assert_eq!(BrushTool::Flatten.kernel(), BrushKernel::Flatten);
    assert_eq!(BrushTool::Erode.kernel(), BrushKernel::Erode);
    assert_eq!(BrushTool::Noise.kernel(), BrushKernel::Noise);
}

#[test]
fn negation_flips_the_sign() {
    for value in [0.5f32, -0.5, 0.0, -0.0, 3.0e12, f32::INFINITY, 1.0e-41] {
        let flipped = f32::from_bits(negate(value.to_bits()));
        assert_eq!(flipped.to_bits(), (-value).to_bits());
    }
    assert_eq!(negate(negate(0x1234_5678)), 0x1234_5678);
}

#[test]
fn parameters_change_only_where_given() {
    let mut state = AppState::default();
    set_brush_params(
        &mut state,
        BrushParams {
            radius: Some(12.0f32.to_bits()),
            strength: None,
            flatten_target: Some(0.75f32.to_bits()),
            noise_scale: None,
        },
    );
    assert_eq!(f32::from_bits(state.brush.radius), 12.0);
    assert_eq!(f32::from_bits(state.brush.strength), 0.5);
    assert_eq!(f32::from_bits(state.brush.flatten_target), 0.75);
    assert_eq!(f32::from_bits(state.brush.noise_scale), 0.05);
    set_brush_params(
        &mut state,
        BrushParams {
            radius: None,
            strength: Some(0.9f32.to_bits()),
            flatten_target: None,
            noise_scale: Some(0.2f32.to_bits()),
        },
    );
    assert_eq!(f32::from_bits(state.brush.radius), 12.0);
    assert_eq!(f32::from_bits(state.brush.strength), 0.9);
    assert_eq!(f32::from_bits(state.brush.noise_scale), 0.2);
}

#[test]
fn lowering_is_raising_with_negative_strength() {
    let mut state = AppState::default();
    let center = (10.0f32.to_bits(), 20.0f32.to_bits());
    assert!(dispatch_brush(&state, center).is_none());

    set_active_tool(&mut state, Some(BrushTool::Lower));
    let dab = dispatch_brush(&state, center).unwrap();
    assert_eq!(dab.kernel, BrushKernel::Raise);
    assert_eq!(f32::from_bits(dab.strength), -0.5);
    assert_eq!(dab.center, center);
    assert_eq!(f32::from_bits(dab.radius), 30.0);
    assert_eq!(f32::from_bits(dab.flatten_target), 0.5);
    assert_eq!(f32::from_bits(dab.noise_scale), 0.05);

    set_active_tool(&mut state, Some(BrushTool::Flatten));
    let dab = dispatch_brush(&state, center).unwrap();
    assert_eq!(dab.kernel, BrushKernel::Flatten);
    assert_eq!(f32::from_bits(dab.strength), 0.5);

    set_active_tool(&mut state, None);
    assert!(dispatch_brush(&state, center).is_none());
}

#[test]
fn stroke_snapshots_before_it_paints() {
    let mut state = AppState::default();
    state.terrain = Some(small_world(8, 8));
    set_active_tool(&mut state, Some(BrushTool::Raise));
    let start = begin_stroke(&mut state, 4, 4, 2, (4.5f32.to_bits(), 4.5f32.to_bits()));
    assert_eq!(start.snapshot, Ok(true));
    assert_eq!(start.dispatch.unwrap().kernel, BrushKernel::Raise);
    let region = state.undo_stack.regions.back().unwrap();
    assert_eq!((region.x, region.y, region.width, region.height), (2, 2, 5, 5));
}

#[test]
fn undo_is_done_at_the_start_of_the_next_frame() {
    let mut state = AppState::default();
    let world = small_world(6, 6);
    let saved = world.heights.clone();
    state.terrain = Some(world);

    let work = begin_frame(&mut state);
    assert!(work.undo.is_none());
    assert!(work.upload);
    assert!(!state.terrain.as_ref().unwrap().dirty);
    let work = begin_frame(&mut state);
    assert!(work.undo.is_none());
    assert!(!work.upload);

    begin_stroke(&mut state, 1, 1, 1, (0, 0));
    for cell in state.terrain.as_mut().unwrap().heights.iter_mut() {
        *cell = 7;
    }
    assert_eq!(undo_stroke(&mut state), Ok(()));
    assert!(state.undo_stack.pending_undo);

    let work = begin_frame(&mut state);
    assert!(!state.undo_stack.pending_undo);
    assert!(!work.upload);
    match work.undo {
        Some(UndoOutcome::Restored(write)) => {
            assert_eq!((write.x, write.y, write.width, write.height), (0, 0, 3, 3));
            assert_eq!(write.data.len(), 9);
        }
        _ => panic!("the stroke should have been undone"),
    }
    let heights = &state.terrain.as_ref().unwrap().heights;
    assert_eq!(heights[0], saved[0]);
    assert_eq!(heights[14], saved[14]);
    assert_eq!(heights[3], 7);

    assert_eq!(undo_stroke(&mut state), Ok(()));
    let work = begin_frame(&mut state);
    assert!(matches!(work.undo, Some(UndoOutcome::Nothing)));
}

#[test]
fn world_commands() {
    let mut state = AppState::default();
    assert_eq!(get_terrain_config(&state), None);
    assert_eq!(generate_volcanoes(&state, 2, 3), Err(CommandError::NoTerrain));
    assert_eq!(store_heights(&mut state, vec![1, 2]), Err(CommandError::NoTerrain));

    let world = small_world(20, 10);
    let config = world.config;
    let shown = install_world(&mut state, world);
    assert_eq!(
        shown,
        GenerateResult { world_width: 20, world_height: 10, sea_level: config.sea_level }
    );
    assert_eq!(get_terrain_config(&state), Some(config));

    state.terrain.as_mut().unwrap().dirty = false;
    assert_eq!(store_heights(&mut state, vec![0; 199]), Err(CommandError::FieldLength));
    assert!(!state.terrain.as_ref().unwrap().dirty);
    assert_eq!(store_heights(&mut state, vec![5; 200]), Ok(()));
    assert!(state.terrain.as_ref().unwrap().dirty);
    assert_eq!(state.terrain.as_ref().unwrap().heights, vec![5; 200]);

    assert_eq!(generate_volcanoes(&state, 5, 1), Err(CommandError::NoRoomForVolcano));
    assert_eq!(generate_volcanoes(&state, 5, 0), Ok(Vec::new()));
    let centers = generate_volcanoes(&state, 4, 25).unwrap();
    assert_eq!(centers.len(), 25);
    for (x, y) in centers {
        assert!((4..16).contains(&x));
        assert!((4..6).contains(&y));
    }
}
