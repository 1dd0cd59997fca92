use brush::bounding_box::{median_by_total_order, total_le_bits};

/// Twice the middle half-extent, the extents ordered by `f32::total_cmp`.
fn median_size(extent: [f32; 3]) -> f32 {
    let m = median_by_total_order(extent[0].to_bits(), extent[1].to_bits(), extent[2].to_bits());
    f32::from_bits(m) * 2.0
}

fn extent_from_min_max(min: [f32; 3], max: [f32; 3]) -> [f32; 3] {
    [(max[0] - min[0]) / 2.0, (max[1] - min[1]) / 2.0, (max[2] - min[2]) / 2.0]
}

#[test]
fn median_size_with_nan_does_not_panic() {
    let extent = [f32::NAN, 2.0, 3.0];
    assert!(median_size(extent).is_finite());
}

#[test]
fn median_size_with_all_nan() {
    let extent = [f32::NAN; 3];
    let _ = median_size(extent);
}

#[test]
fn median_size_normal() {
    let extent = extent_from_min_max([-1.0; 3], [1.0, 3.0, 5.0]);
    assert!((median_size(extent) - 4.0).abs() < 1e-6);
}

#[test]
fn median_matches_sorting_with_total_cmp() {
    let values = [
        f32::NEG_INFINITY, -3.5, -0.0, 0.0, 1.0, 2.5, f32::INFINITY, f32::NAN, -f32::NAN,
    ];
    for &a in &values {
        for &b in &values {
            for &c in &values {
                let mut sorted = [a, b, c];
                sorted.sort_by(|x, y| x.total_cmp(y));
                let m = median_by_total_order(a.to_bits(), b.to_bits(), c.to_bits());
                assert_eq!(m, sorted[1].to_bits());
            }
        }
    }
}

#[test]
fn total_order_places_signed_zeros_and_nans() {
    assert!(total_le_bits((-0.0f32).to_bits(), 0.0f32.to_bits()));
    assert!(!total_le_bits(0.0f32.to_bits(), (-0.0f32).to_bits()));
    assert!(total_le_bits(f32::INFINITY.to_bits(), f32::NAN.to_bits()));
    assert!(total_le_bits((-f32::NAN).to_bits(), f32::NEG_INFINITY.to_bits()));
    assert!(total_le_bits((-2.0f32).to_bits(), (-1.0f32).to_bits()));
}
