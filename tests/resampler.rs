use chroma_resampler::{vertical_source_rows, Component, Extent, Resampler, Resampling};

fn component(h: u8, v: u8, width: u16, height: u16, block_width: u16) -> Component {
    Component {
        horizontal_sampling_factor: h,
        vertical_sampling_factor: v,
        size: Extent { width, height },
        block_size: Extent { width: block_width, height: (height + 7) / 8 },
    }
}

fn plane(rows: &[&[u8]], stride: usize) -> Vec<u8> {
    let mut data = vec![0u8; rows.len() * stride];
    for (r, row) in rows.iter().enumerate() {
        data[r * stride..r * stride + row.len()].copy_from_slice(row);
    }
    data
}

fn component_samples(output: &[u8], count: usize, i: usize, width: usize) -> Vec<u8> {
    (0..width).map(|x| output[x * count + i]).collect()
}

#[test]
fn identity_copies_rows_of_any_width() {
    for width in 1..=16u16 {
        let c = component(1, 1, width, 3, 2);
        let resampler = Resampler::new(&[c]).unwrap();
        assert_eq!(resampler.resampling(0), Resampling::Identity);
        let data: Vec<u8> = (0..48).map(|b| (b * 5 + 1) as u8).collect();
        for row in 0..3usize {
            let mut output = vec![0u8; width as usize];
            resampler.resample_and_interleave_row(&[data.clone()], row, width as usize, &mut output);
            assert_eq!(output[..], data[row * 16..row * 16 + width as usize]);
        }
    }
}

#[test]
fn horizontal_double_of_single_sample() {
    let full = component(2, 1, 2, 1, 1);
    let half = component(1, 1, 1, 1, 1);
    let resampler = Resampler::new(&[full, half]).unwrap();
    assert_eq!(resampler.resampling(1), Resampling::Horizontal2);
    let data = vec![plane(&[&[10, 20]], 8), plane(&[&[77]], 8)];
    let mut output = vec![0u8; 4];
    resampler.resample_and_interleave_row(&data, 0, 2, &mut output);
    assert_eq!(output, vec![10, 77, 20, 77]);
}

#[test]
fn horizontal_double_formula() {
    let full = component(2, 1, 8, 1, 1);
    let half = component(1, 1, 4, 1, 1);
    let resampler = Resampler::new(&[full, half]).unwrap();
    assert_eq!(resampler.resampling(0), Resampling::Identity);
    assert_eq!(resampler.resampling(1), Resampling::Horizontal2);
    let data = vec![plane(&[&[0; 8]], 8), plane(&[&[10, 50, 90, 30]], 8)];
    let mut output = vec![0u8; 16];
    resampler.resample_and_interleave_row(&data, 0, 8, &mut output);
    assert_eq!(component_samples(&output, 2, 1, 8), vec![10, 20, 40, 60, 80, 75, 45, 30]);
}

#[test]
fn vertical_double_of_constant_plane() {
    let full = component(1, 2, 4, 6, 1);
    let half = component(1, 1, 4, 3, 1);
    let resampler = Resampler::new(&[full, half]).unwrap();
    assert_eq!(resampler.resampling(1), Resampling::Vertical2);
    let data = vec![vec![0u8; 48], vec![93u8; 24]];
    for row in 0..6usize {
        let mut output = vec![0u8; 8];
        resampler.resample_and_interleave_row(&data, row, 4, &mut output);
        assert_eq!(component_samples(&output, 2, 1, 4), vec![93; 4]);
    }
}

#[test]
fn vertical_double_formula() {
    let full = component(1, 2, 2, 4, 1);
    let half = component(1, 1, 2, 2, 1);
    let resampler = Resampler::new(&[full, half]).unwrap();
    assert_eq!(resampler.resampling(1), Resampling::Vertical2);
    let data = vec![vec![0u8; 32], plane(&[&[0, 100], &[200, 40]], 8)];
    let expected: [[u8; 2]; 4] = [[0, 100], [50, 85], [150, 55], [200, 40]];
    for (row, want) in expected.iter().enumerate() {
        let mut output = vec![0u8; 4];
        resampler.resample_and_interleave_row(&data, row, 2, &mut output);
        assert_eq!(component_samples(&output, 2, 1, 2), want.to_vec());
    }
}

#[test]
fn both_directions_of_constant_plane() {
    for width in 1..=5u16 {
        let full = component(2, 2, width * 2, 4, 2);
        let half = component(1, 1, width, 2, 1);
        let resampler = Resampler::new(&[full, half]).unwrap();
        assert_eq!(resampler.resampling(1), Resampling::HorizontalVertical2);
        let data = vec![vec![0u8; 64], vec![201u8; 16]];
        let output_width = width as usize * 2;
        for row in 0..4usize {
            let mut output = vec![0u8; output_width * 2];
            resampler.resample_and_interleave_row(&data, row, output_width, &mut output);
            assert_eq!(component_samples(&output, 2, 1, output_width), vec![201; output_width]);
        }
    }
}

#[test]
fn both_directions_single_column() {
    let full = component(2, 2, 2, 2, 1);
    let half = component(1, 1, 1, 2, 1);
    let resampler = Resampler::new(&[full, half]).unwrap();
    let data = vec![vec![0u8; 16], plane(&[&[40], &[80]], 8)];
    let mut output = vec![0u8; 4];
    resampler.resample_and_interleave_row(&data, 1, 2, &mut output);
    // near row 0, far row 1: (3 * 40 + 80 + 2) >> 2
    assert_eq!(component_samples(&output, 2, 1, 2), vec![50, 50]);
}

#[test]
fn unsupported_ratios_are_rejected() {
    let ratio_three = [component(3, 1, 3, 1, 1), component(1, 1, 1, 1, 1)];
    assert!(Resampler::new(&ratio_three).is_none());
    let ratio_four = [component(4, 4, 4, 4, 1), component(1, 1, 1, 1, 1)];
    assert!(Resampler::new(&ratio_four).is_none());
    let fractional = [component(2, 1, 2, 1, 1), component(3, 1, 3, 1, 1)];
    assert!(Resampler::new(&fractional).is_none());
    let vertical_three = [component(1, 3, 1, 3, 1), component(1, 1, 1, 1, 1)];
    assert!(Resampler::new(&vertical_three).is_none());
}

#[test]
fn equal_factors_select_identity() {
    let cs = [component(2, 2, 8, 8, 1), component(2, 2, 8, 8, 1), component(2, 2, 8, 8, 1)];
    let resampler = Resampler::new(&cs).unwrap();
    assert_eq!(resampler.component_count(), 3);
    for i in 0..3 {
        assert_eq!(resampler.resampling(i), Resampling::Identity);
    }
}

#[test]
fn each_supported_ratio_selects_its_strategy() {
    let cs = [
        component(2, 2, 4, 4, 1),
        component(1, 2, 2, 4, 1),
        component(2, 1, 4, 2, 1),
        component(1, 1, 2, 2, 1),
    ];
    let resampler = Resampler::new(&cs).unwrap();
    assert_eq!(resampler.resampling(0), Resampling::Identity);
    assert_eq!(resampler.resampling(1), Resampling::Horizontal2);
    assert_eq!(resampler.resampling(2), Resampling::Vertical2);
    assert_eq!(resampler.resampling(3), Resampling::HorizontalVertical2);
}

#[test]
fn two_components_interleaved() {
    let cs = [component(2, 2, 4, 2, 1), component(1, 1, 2, 1, 1)];
    let resampler = Resampler::new(&cs).unwrap();
    assert_eq!(resampler.resampling(0), Resampling::Identity);
    assert_eq!(resampler.resampling(1), Resampling::HorizontalVertical2);
    let data = vec![plane(&[&[1, 2, 3, 4], &[5, 6, 7, 8]], 8), plane(&[&[100, 200]], 8)];
    let mut output = vec![0u8; 8];
    resampler.resample_and_interleave_row(&data, 0, 4, &mut output);
    assert_eq!(output.len(), 8);
    assert_eq!(output, vec![1, 100, 2, 125, 3, 175, 4, 200]);
    resampler.resample_and_interleave_row(&data, 1, 4, &mut output);
    assert_eq!(output, vec![5, 100, 6, 125, 7, 175, 8, 200]);
}

#[test]
fn odd_output_width_leaves_rest_of_buffer() {
    let cs = [component(2, 2, 3, 2, 1), component(1, 1, 2, 1, 1)];
    let resampler = Resampler::new(&cs).unwrap();
    let data = vec![plane(&[&[1, 2, 3], &[4, 5, 6]], 8), plane(&[&[100, 200]], 8)];
    let mut output = vec![0xEEu8; 8];
    resampler.resample_and_interleave_row(&data, 0, 3, &mut output);
    assert_eq!(output, vec![1, 100, 2, 125, 3, 175, 0xEE, 0xEE]);
}

#[test]
fn three_components_interleave_at_stride_three() {
    let cs = [component(1, 1, 2, 1, 1), component(1, 1, 2, 1, 1), component(1, 1, 2, 1, 1)];
    let resampler = Resampler::new(&cs).unwrap();
    let data = vec![plane(&[&[1, 2]], 8), plane(&[&[3, 4]], 8), plane(&[&[5, 6]], 8)];
    let mut output = vec![0u8; 6];
    resampler.resample_and_interleave_row(&data, 0, 2, &mut output);
    assert_eq!(output, vec![1, 3, 5, 2, 4, 6]);
}

#[test]
fn vertical_row_mapping() {
    assert_eq!(vertical_source_rows(0, 4), (0, 0));
    assert_eq!(vertical_source_rows(1, 4), (0, 1));
    assert_eq!(vertical_source_rows(2, 4), (1, 0));
    assert_eq!(vertical_source_rows(5, 4), (2, 3));
    assert_eq!(vertical_source_rows(6, 4), (3, 2));
    assert_eq!(vertical_source_rows(7, 4), (3, 3));
    assert_eq!(vertical_source_rows(1, 1), (0, 0));
}
