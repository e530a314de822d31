use star_render::{corner_hashes, gradient_terms, lattice_hash, Axis, GradientTerms};

#[test]
fn hash_known_values() {
    assert_eq!(lattice_hash(0, 0, 0), 1376312589);
    assert_eq!(lattice_hash(1, 0, 0), 1316808037);
    assert_eq!(lattice_hash(0, 1, 0), 854329141);
    assert_eq!(lattice_hash(1, 2, 3), 1525944115);
    assert_eq!(lattice_hash(-5, 7, -9), 1618409285);
    assert_eq!(lattice_hash(255, 255, 255), 1808249997);
    assert_eq!(lattice_hash(i32::MAX, i32::MIN, 12345), 1157524437);
}

#[test]
fn hash_is_deterministic_and_non_negative() {
    for x in -20..20 {
        for y in -20..20 {
            let a = lattice_hash(x, y, x ^ y);
            assert_eq!(a, lattice_hash(x, y, x ^ y));
            assert!(a >= 0);
            let value = 1.0f64 - a as f64 / 1073741824.0;
            assert!(value > -1.0 && value <= 1.0);
        }
    }
}

#[test]
fn corner_hashes_follow_cube_order() {
    let h = corner_hashes(3, 4, 5);
    assert_eq!(
        h,
        [
            lattice_hash(3, 4, 5),
            lattice_hash(3, 5, 5),
            lattice_hash(3, 4, 6),
            lattice_hash(3, 5, 6),
            lattice_hash(4, 4, 5),
            lattice_hash(4, 5, 5),
            lattice_hash(4, 4, 6),
            lattice_hash(4, 5, 6),
        ]
    );
}

#[test]
fn corner_hashes_wrap_lattice() {
    let h = corner_hashes(-1, 256, 511);
    assert_eq!(h[0], lattice_hash(255, 0, 255));
    assert_eq!(h[7], lattice_hash(256, 1, 256));
    assert_eq!(corner_hashes(-1, 256, 511), corner_hashes(255, 0, 255));
}

#[test]
fn gradient_selection_table() {
    let g = |first, second, negate_first, negate_second| GradientTerms {
        first,
        second,
        negate_first,
        negate_second,
    };
    assert_eq!(gradient_terms(0), g(Axis::X, Axis::Y, false, false));
    assert_eq!(gradient_terms(1), g(Axis::X, Axis::Y, true, false));
    assert_eq!(gradient_terms(2), g(Axis::X, Axis::Y, false, true));
    assert_eq!(gradient_terms(3), g(Axis::X, Axis::Y, true, true));
    assert_eq!(gradient_terms(5), g(Axis::X, Axis::Z, true, false));
    assert_eq!(gradient_terms(8), g(Axis::Y, Axis::Z, false, false));
    assert_eq!(gradient_terms(12), g(Axis::Y, Axis::X, false, false));
    assert_eq!(gradient_terms(13), g(Axis::Y, Axis::Z, true, false));
    assert_eq!(gradient_terms(14), g(Axis::Y, Axis::X, false, true));
    assert_eq!(gradient_terms(15), g(Axis::Y, Axis::Z, true, true));
}

#[test]
fn gradient_uses_low_four_bits() {
    assert_eq!(gradient_terms(16), gradient_terms(0));
    assert_eq!(gradient_terms(-1), gradient_terms(15));
    assert_eq!(gradient_terms(-3), gradient_terms(13));
    assert_eq!(gradient_terms(1376312589), gradient_terms(1376312589 & 15));
}
