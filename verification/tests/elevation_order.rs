use worldweaver::elevation::{clamp_unit, higher, nan, raise_to};
use worldweaver::volcanoes::stamp;

const SAMPLES: [f32; 13] = [
    f32::NEG_INFINITY,
    -2.0,
    -1.0e-39,
    -0.0,
    0.0,
    1.0e-39,
    0.25,
    0.95,
    1.0,
    1.000_000_1,
    3.0e9,
    f32::INFINITY,
    f32::NAN,
];

#[test]
fn not_a_number_is_told_by_its_pattern() {
    for value in SAMPLES {
        assert_eq!(nan(value.to_bits()), value.is_nan(), "{value}");
    }
    assert!(nan(0x7F80_0001));
    assert!(nan(0xFFFF_FFFF));
    assert!(!nan(0x7F80_0000));
    assert!(!nan(0xFF80_0000));
}

#[test]
fn higher_is_the_maximum_of_the_numbers() {
    for a in SAMPLES {
        for b in SAMPLES {
            let top = f32::from_bits(higher(a.to_bits(), b.to_bits()));
            let expected = a.max(b);
            if expected.is_nan() {
                assert!(top.is_nan());
            } else {
                assert_eq!(top, expected, "{a} {b}");
            }
        }
    }
    assert_eq!(higher((-0.0f32).to_bits(), 0.0f32.to_bits()), (-0.0f32).to_bits());
}

#[test]
fn clamping_brings_numbers_into_the_unit_interval() {
    for value in SAMPLES {
        let inside = f32::from_bits(clamp_unit(value.to_bits()));
        if value.is_nan() {
            assert!(inside.is_nan());
        } else {
            assert_eq!(inside.to_bits(), value.clamp(0.0, 1.0).to_bits(), "{value}");
            assert!((0.0..=1.0).contains(&inside));
        }
    }
    assert_eq!(clamp_unit(0.42f32.to_bits()), 0.42f32.to_bits());
    assert_eq!(clamp_unit(7.5f32.to_bits()), 1.0f32.to_bits());
    assert_eq!(clamp_unit((-7.5f32).to_bits()), 0);
}

#[test]
fn stamping_takes_the_higher_and_clamps() {
    for old in SAMPLES {
        for target in SAMPLES {
            let new = f32::from_bits(raise_to(old.to_bits(), target.to_bits()));
            let expected = old.max(target).clamp(0.0, 1.0);
            if expected.is_nan() {
                assert!(new.is_nan());
            } else {
                assert_eq!(new, expected, "{old} {target}");
            }
        }
    }
    assert_eq!(raise_to(0.3f32.to_bits(), 0.8f32.to_bits()), 0.8f32.to_bits());
    assert_eq!(raise_to(0.3f32.to_bits(), 0.1f32.to_bits()), 0.3f32.to_bits());
    assert_eq!(raise_to(0.3f32.to_bits(), (-0.2f32).to_bits()), 0.3f32.to_bits());
    assert_eq!(raise_to(0.3f32.to_bits(), 1.4f32.to_bits()), 1.0f32.to_bits());
}

#[test]
fn cone_raises_the_cells_it_names_and_no_others() {
    let mut heights: Vec<u32> = [0.5f32, 0.2, 0.9, 0.4].iter().map(|v| v.to_bits()).collect();
    let cones = vec![
        (0usize, 0.7f32.to_bits()),
        (1, 0.1f32.to_bits()),
        (2, 1.5f32.to_bits()),
        (0, 0.6f32.to_bits()),
    ];
    stamp(&mut heights, &cones);
    let values: Vec<f32> = heights.iter().map(|b| f32::from_bits(*b)).collect();
    assert_eq!(values, vec![0.7, 0.2, 1.0, 0.4]);
}

#[test]
fn caldera_dip_never_lowers_a_cell() {
    let mut heights: Vec<u32> = vec![0.6f32.to_bits(); 3];
    let cones = vec![
        (0usize, (0.95f32 - 0.25).to_bits()),
        (1, (0.2f32 - 0.25).to_bits()),
        (2, f32::NAN.to_bits()),
    ];
    stamp(&mut heights, &cones);
    assert_eq!(f32::from_bits(heights[0]), 0.95f32 - 0.25);
    assert_eq!(f32::from_bits(heights[1]), 0.6);
    assert_eq!(f32::from_bits(heights[2]), 0.6);
}
