use worldweaver::elevation::elevation_rank;
use worldweaver::hydrology::{accumulate, flow_directions, peak_flow};

fn bits(values: &[f32]) -> Vec<u32> {
    values.iter().map(|v| v.to_bits()).collect()
}

#[test]
fn ranks_order_as_the_numbers_do() {
    let samples: [f32; 11] = [
        f32::NEG_INFINITY,
        -3.5,
        -1.0e-30,
        -0.0,
        0.0,
        1.0e-40,
        0.1,
        0.42,
        1.0,
        7.0e20,
        f32::INFINITY,
    ];
    for a in samples {
        for b in samples {
            let ra = elevation_rank(a.to_bits());
            let rb = elevation_rank(b.to_bits());
            assert_eq!(a < b, ra < rb, "{a} {b}");
            assert_eq!(a == b, ra == rb, "{a} {b}");
        }
    }
    assert_eq!(elevation_rank(0), 0x8000_0000);
    assert_eq!(elevation_rank(0x8000_0000), 0x8000_0000);
    assert_eq!(elevation_rank(1.0f32.to_bits()), 0x8000_0000 + 0x3F80_0000);
}

#[test]
fn flat_field_keeps_every_unit_where_it_fell() {
    let heights = bits(&[0.3; 12]);
    assert_eq!(flow_directions(&heights, 4, 3), (0..12).collect::<Vec<usize>>());
    let flow = accumulate(&heights, 4, 3);
    assert_eq!(flow, vec![1u32; 12]);
    assert_eq!(flow.iter().sum::<u32>(), 12);
    assert_eq!(peak_flow(&flow), 1);
}

#[test]
fn pit_collects_the_whole_field() {
    let mut values = [0.5f32; 9];
    values[4] = 0.1;
    let heights = bits(&values);
    assert_eq!(flow_directions(&heights, 3, 3), vec![4, 4, 4, 4, 4, 4, 4, 4, 4]);
    let flow = accumulate(&heights, 3, 3);
    assert_eq!(flow, vec![1, 1, 1, 1, 9, 1, 1, 1, 1]);
    assert_eq!(peak_flow(&flow), 9);
}

#[test]
fn slope_passes_its_flow_downhill() {
    let heights = bits(&[0.4, 0.3, 0.2, 0.1]);
    assert_eq!(flow_directions(&heights, 4, 1), vec![1, 2, 3, 3]);
    assert_eq!(accumulate(&heights, 4, 1), vec![1, 2, 3, 4]);
    assert_eq!(accumulate(&heights, 1, 4), vec![1, 2, 3, 4]);
}

#[test]
fn steepest_neighbour_wins_and_the_first_among_equals() {
    // 3 x 3, the middle cell is looked at:
    //   0.9 0.2 0.9
    //   0.9 0.5 0.2
    //   0.2 0.9 0.9
    let heights = bits(&[0.9, 0.2, 0.9, 0.9, 0.5, 0.2, 0.2, 0.9, 0.9]);
    let directions = flow_directions(&heights, 3, 3);
    assert_eq!(directions[4], 1);
    // 0.1 below the middle wins over the equals.
    let heights = bits(&[0.9, 0.2, 0.9, 0.9, 0.5, 0.2, 0.2, 0.1, 0.9]);
    assert_eq!(flow_directions(&heights, 3, 3)[4], 7);
}

#[test]
fn flow_that_ends_in_sinks_is_the_number_of_cells() {
    let width = 7usize;
    let height = 5usize;
    let heights: Vec<u32> = (0..width * height)
        .map(|i| {
            let x = (i % width) as f32;
            let y = (i / width) as f32;
            (0.5 + 0.4 * ((x * 1.7).sin() * (y * 2.3).cos())).to_bits()
        })
        .collect();
    let directions = flow_directions(&heights, width, height);
    let flow = accumulate(&heights, width, height);
    let in_sinks: u32 = (0..width * height).filter(|&i| directions[i] == i).map(|i| flow[i]).sum();
    assert_eq!(in_sinks as usize, width * height);
    for i in 0..width * height {
        let inflow: u32 =
            (0..width * height).filter(|&j| j != i && directions[j] == i).map(|j| flow[j]).sum();
        assert_eq!(flow[i], 1 + inflow);
    }
    assert!(flow.iter().sum::<u32>() as usize > width * height);
}

#[test]
fn empty_field_has_no_flow() {
    assert_eq!(accumulate(&Vec::new(), 0, 0), Vec::<u32>::new());
    assert_eq!(accumulate(&Vec::new(), 0, 5), Vec::<u32>::new());
    assert_eq!(peak_flow(&Vec::new()), 1);
}

#[test]
fn negative_zero_is_no_lower_than_zero() {
    let heights = bits(&[0.0, -0.0, 0.0]);
    assert_eq!(flow_directions(&heights, 3, 1), vec![0, 1, 2]);
    let heights = bits(&[0.0, -0.5, 0.0]);
    assert_eq!(flow_directions(&heights, 3, 1), vec![1, 1, 1]);
    assert_eq!(accumulate(&heights, 3, 1), vec![1, 3, 1]);
}

#[test]
fn rising_slope_is_visited_from_the_top() {
    let heights = bits(&[0.1, 0.2, 0.3, 0.4]);
    assert_eq!(flow_directions(&heights, 4, 1), vec![0, 0, 1, 2]);
    assert_eq!(accumulate(&heights, 4, 1), vec![4, 3, 2, 1]);
}

#[test]
fn valley_between_two_ridges() {
    // 5 x 1: both sides drain into the middle.
    let heights = bits(&[0.9, 0.5, 0.1, 0.6, 0.8]);
    assert_eq!(flow_directions(&heights, 5, 1), vec![1, 2, 2, 2, 3]);
    assert_eq!(accumulate(&heights, 5, 1), vec![1, 2, 5, 2, 1]);
}
