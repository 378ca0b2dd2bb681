use dcm_converter::smooth::{
    normalized_kernel, smooth_3d, smooth_along, smooth_sample, tap_coordinate, Axis,
};
use dcm_converter::volume::Volume;

fn weigh(sum: f32, sample: f32, weight: f32) -> f32 {
    sum + sample * weight
}

fn plus(total: f32, weight: f32) -> f32 {
    total + weight
}

fn over(sum: f32, total: f32) -> f32 {
    sum / total
}

fn build_gaussian_kernel(sigma: f32) -> Vec<f32> {
    let radius = (3.0 * sigma).ceil() as usize;
    let two_sigma_sq = 2.0 * sigma * sigma;
    normalized_kernel(
        radius,
        |distance: usize| {
            let x = distance as f32;
            (-x * x / two_sigma_sq).exp()
        },
        0.0_f32,
        plus,
        over,
    )
    .unwrap()
}

fn gaussian_smooth_3d(
    values: &[f32],
    cols: usize,
    rows: usize,
    slices: usize,
    sigma: f32,
) -> Vec<f32> {
    let kernel = build_gaussian_kernel(sigma);
    let volume = Volume::from_parts(values.to_vec(), cols, rows, slices).unwrap();
    smooth_3d(&volume, &kernel, 0.0_f32, weigh, plus, over).into_values()
}

fn direct_kernel(sigma: f32) -> Vec<f32> {
    let radius = (3.0 * sigma).ceil() as usize;
    let size = 2 * radius + 1;
    let mut kernel = Vec::with_capacity(size);
    let two_sigma_sq = 2.0 * sigma * sigma;
    for i in 0..size {
        let x = i as f32 - radius as f32;
        kernel.push((-x * x / two_sigma_sq).exp());
    }
    let sum: f32 = kernel.iter().sum();
    for val in &mut kernel {
        *val /= sum;
    }
    kernel
}

fn direct_pass(
    values: &[f32],
    dims: (usize, usize, usize),
    kernel: &[f32],
    axis: usize,
) -> Vec<f32> {
    let (cols, rows, slices) = dims;
    let half = kernel.len() / 2;
    let mut out = values.to_vec();
    for z in 0..slices {
        for y in 0..rows {
            for x in 0..cols {
                let place = [x, y, z];
                let extent = [cols, rows, slices][axis];
                let mut sum = 0.0_f32;
                let mut weight = 0.0_f32;
                for (k, &kval) in kernel.iter().enumerate() {
                    let c = place[axis] as isize + k as isize - half as isize;
                    if c >= 0 && (c as usize) < extent {
                        let mut source = place;
                        source[axis] = c as usize;
                        let idx = source[0] + source[1] * cols + source[2] * cols * rows;
                        sum += values[idx] * kval;
                        weight += kval;
                    }
                }
                out[x + y * cols + z * cols * rows] = sum / weight;
            }
        }
    }
    out
}

fn direct_smooth(values: &[f32], dims: (usize, usize, usize), kernel: &[f32]) -> Vec<f32> {
    let pass_x = direct_pass(values, dims, kernel, 0);
    let pass_y = direct_pass(&pass_x, dims, kernel, 1);
    direct_pass(&pass_y, dims, kernel, 2)
}

fn noise(len: usize, mut seed: u32) -> Vec<f32> {
    (0..len)
        .map(|_| {
            seed = seed.wrapping_mul(1664525).wrapping_add(1013904223);
            (seed >> 8) as f32 / 65536.0
        })
        .collect()
}

#[test]
fn kernel_sums_to_one() {
    let kernel = build_gaussian_kernel(1.0);
    let sum: f32 = kernel.iter().sum();
    assert!((sum - 1.0).abs() < 1e-5, "Kernel sum {sum} should be ~1.0");
}

#[test]
fn kernel_is_symmetric() {
    let kernel = build_gaussian_kernel(2.0);
    let n = kernel.len();
    for i in 0..n / 2 {
        assert!(
            (kernel[i] - kernel[n - 1 - i]).abs() < 1e-6,
            "Kernel not symmetric at index {i}"
        );
    }
}

#[test]
fn smoothing_preserves_uniform_volume() {
    let values = vec![100.0_f32; 3 * 3 * 3];
    let smoothed = gaussian_smooth_3d(&values, 3, 3, 3, 1.0);

    for (i, &val) in smoothed.iter().enumerate() {
        assert!(
            (val - 100.0).abs() < 1e-3,
            "Uniform volume changed at index {i}: {val}"
        );
    }
}

#[test]
fn smoothing_reduces_spike() {
    // Volume with a central spike
    let (cols, rows, slices) = (5, 5, 5);
    let mut values = vec![0.0_f32; cols * rows * slices];
    // Set center voxel to high value (x=2, y=2, z=2)
    let center = 2 + 2 * cols + 2 * cols * rows;
    values[center] = 255.0;

    let smoothed = gaussian_smooth_3d(&values, cols, rows, slices, 1.0);

    // Center should be reduced
    assert!(
        smoothed[center] < 255.0,
        "Spike was not smoothed: {}",
        smoothed[center]
    );
    // Center should still be the maximum
    let max = smoothed.iter().copied().reduce(f32::max).unwrap();
    assert!(
        (smoothed[center] - max).abs() < 1e-6,
        "Center should remain the maximum"
    );
}

#[test]
fn kernel_has_the_size_and_weights_of_its_radius() {
    for sigma in [0.3_f32, 0.5, 1.0, 1.7, 2.0, 3.3] {
        let kernel = build_gaussian_kernel(sigma);
        let radius = (3.0 * sigma).ceil() as usize;
        assert_eq!(kernel.len(), 2 * radius + 1);
        assert_eq!(kernel, direct_kernel(sigma), "sigma {sigma}");
        let sum: f32 = kernel.iter().sum();
        assert!((sum - 1.0).abs() < 1e-5);
        for i in 0..kernel.len() {
            assert_eq!(kernel[i], kernel[kernel.len() - 1 - i]);
        }
    }
}

#[test]
fn kernel_of_integers_is_exact() {
    let kernel = normalized_kernel(
        2,
        |distance: usize| 12 / (1 + distance as u32),
        0u32,
        |total: u32, weight: u32| total + weight,
        |weight: u32, total: u32| weight * 100 + total,
    )
    .unwrap();
    // raw weights 4, 6, 12, 6, 4 with total 32
    assert_eq!(kernel, vec![432, 632, 1232, 632, 432]);
    let single = normalized_kernel(
        0,
        |_distance: usize| 7u32,
        0u32,
        |total: u32, weight: u32| total + weight,
        |weight: u32, total: u32| weight * 100 + total,
    )
    .unwrap();
    assert_eq!(single, vec![707]);
}

#[test]
fn kernel_too_wide_for_the_machine_is_refused() {
    let refused = normalized_kernel(
        usize::MAX / 2 + 1,
        |_distance: usize| 1u8,
        0u8,
        |total: u8, _weight: u8| total,
        |weight: u8, _total: u8| weight,
    );
    assert!(refused.is_none());
}

#[test]
fn taps_outside_the_volume_read_nothing() {
    // kernel of 7 taps, centre 3, volume of 5 places
    assert_eq!(tap_coordinate(0, 0, 3, 5), None);
    assert_eq!(tap_coordinate(0, 2, 3, 5), None);
    assert_eq!(tap_coordinate(0, 3, 3, 5), Some(0));
    assert_eq!(tap_coordinate(0, 6, 3, 5), Some(3));
    assert_eq!(tap_coordinate(4, 0, 3, 5), Some(1));
    assert_eq!(tap_coordinate(4, 3, 3, 5), Some(4));
    assert_eq!(tap_coordinate(4, 4, 3, 5), None);
    assert_eq!(tap_coordinate(2, 6, 3, 5), None);
    assert_eq!(tap_coordinate(2, 5, 3, 5), Some(4));
    assert_eq!(tap_coordinate(0, 0, 0, 0), None);
    assert_eq!(tap_coordinate(usize::MAX, usize::MAX, 0, usize::MAX), None);
    assert_eq!(tap_coordinate(usize::MAX - 1, 1, 1, usize::MAX), Some(usize::MAX - 1));
    assert_eq!(tap_coordinate(3, 0, usize::MAX, 5), None);
}

#[test]
fn border_samples_are_averaged_over_the_taps_inside() {
    // one row of four samples, integer arithmetic: the average is sum * 1000 / weight
    let volume = Volume::from_parts(vec![10u32, 20, 30, 40], 4, 1, 1).unwrap();
    let kernel = vec![1u32, 2, 1];
    let weigh = |sum: u32, sample: u32, weight: u32| sum + sample * weight;
    let plus = |total: u32, weight: u32| total + weight;
    let over = |sum: u32, total: u32| sum * 1000 / total;
    let out = smooth_along(&volume, Axis::X, &kernel, 0, &weigh, &plus, &over);
    assert_eq!(
        out.values(),
        &vec![
            (10 * 2 + 20) * 1000 / 3,
            (10 + 20 * 2 + 30) * 1000 / 4,
            (20 + 30 * 2 + 40) * 1000 / 4,
            (30 + 40 * 2) * 1000 / 3
        ]
    );
    assert_eq!(
        smooth_sample(&volume, Axis::X, &kernel, 0, &weigh, &plus, &over, 0, 0, 0),
        Some((10 * 2 + 20) * 1000 / 3)
    );
    assert_eq!(
        smooth_sample(&volume, Axis::X, &kernel, 0, &weigh, &plus, &over, 4, 0, 0),
        None
    );
    assert_eq!(
        smooth_sample(&volume, Axis::X, &kernel, 0, &weigh, &plus, &over, 0, 1, 0),
        None
    );
    // along the other axes only the centre tap lies inside
    let along_y = smooth_along(&volume, Axis::Y, &kernel, 0, &weigh, &plus, &over);
    assert_eq!(along_y.values(), &vec![10000, 20000, 30000, 40000]);
    let along_z = smooth_along(&volume, Axis::Z, &kernel, 0, &weigh, &plus, &over);
    assert_eq!(along_z.values(), &vec![10000, 20000, 30000, 40000]);
}

#[test]
fn each_pass_runs_along_its_own_axis() {
    // 2 columns, 3 rows, 2 slices; the sample at (x, y, z) is 100 z + 10 y + x
    let mut values = Vec::new();
    for z in 0..2u32 {
        for y in 0..3u32 {
            for x in 0..2u32 {
                values.push(100 * z + 10 * y + x);
            }
        }
    }
    let volume = Volume::from_parts(values, 2, 3, 2).unwrap();
    // the kernel takes the place before the centre only
    let kernel = vec![1u32, 0, 0];
    let weigh = |sum: u32, sample: u32, weight: u32| sum + sample * weight;
    let plus = |total: u32, weight: u32| total + weight;
    let over = |sum: u32, _total: u32| sum;
    let along_x = smooth_along(&volume, Axis::X, &kernel, 0, &weigh, &plus, &over);
    let along_y = smooth_along(&volume, Axis::Y, &kernel, 0, &weigh, &plus, &over);
    let along_z = smooth_along(&volume, Axis::Z, &kernel, 0, &weigh, &plus, &over);
    for z in 0..2usize {
        for y in 0..3usize {
            for x in 0..2usize {
                let here = (100 * z + 10 * y + x) as u32;
                let before_x = if x > 0 { here - 1 } else { 0 };
                let before_y = if y > 0 { here - 10 } else { 0 };
                let before_z = if z > 0 { here - 100 } else { 0 };
                assert_eq!(along_x.get(x, y, z), Some(&before_x));
                assert_eq!(along_y.get(x, y, z), Some(&before_y));
                assert_eq!(along_z.get(x, y, z), Some(&before_z));
            }
        }
    }
}

#[test]
fn smoothing_agrees_with_a_direct_computation() {
    for (dims, sigma, seed) in [
        ((5usize, 4usize, 3usize), 1.0_f32, 1u32),
        ((1, 1, 1), 1.0, 2),
        ((7, 1, 2), 0.5, 3),
        ((2, 9, 2), 2.0, 4),
        ((3, 3, 8), 0.8, 5),
        ((6, 5, 5), 1.5, 6),
    ] {
        let values = noise(dims.0 * dims.1 * dims.2, seed);
        let kernel = direct_kernel(sigma);
        let expected = direct_smooth(&values, dims, &kernel);
        let smoothed = gaussian_smooth_3d(&values, dims.0, dims.1, dims.2, sigma);
        assert_eq!(smoothed.len(), values.len());
        assert_eq!(smoothed, expected, "dims {dims:?} sigma {sigma}");
    }
}

#[test]
fn smoothing_keeps_the_shape_of_the_volume() {
    let volume = Volume::from_parts(noise(24, 9), 2, 3, 4).unwrap();
    let kernel = build_gaussian_kernel(1.0);
    let out = smooth_3d(&volume, &kernel, 0.0_f32, weigh, plus, over);
    assert_eq!(out.cols(), 2);
    assert_eq!(out.rows(), 3);
    assert_eq!(out.slices(), 4);
    assert_eq!(out.values().len(), 24);
}
