use image_preview::ratio::{greatest_common_divisor, reduce_ratio, AspectRatio};

#[test]
fn gcd_of_the_preview_size_is_160() {
    assert_eq!(greatest_common_divisor(640, 480), 160);
}

#[test]
fn gcd_with_zero_is_the_other_number() {
    assert_eq!(greatest_common_divisor(17, 0), 17);
    assert_eq!(greatest_common_divisor(0, 17), 17);
    assert_eq!(greatest_common_divisor(0, 0), 0);
    assert_eq!(greatest_common_divisor(usize::MAX, 0), usize::MAX);
}

#[test]
fn gcd_is_unchanged_by_a_euclid_step() {
    let pairs: [(usize, usize); 6] =
        [(640, 480), (480, 640), (1920, 1080), (17, 5), (1, 1), (1_000_000_007, 998_244_353)];
    for (a, b) in pairs {
        assert_eq!(greatest_common_divisor(a, b), greatest_common_divisor(b, a % b));
    }
}

#[test]
fn gcd_examples() {
    assert_eq!(greatest_common_divisor(1920, 1080), 120);
    assert_eq!(greatest_common_divisor(17, 5), 1);
    assert_eq!(greatest_common_divisor(12, 18), 6);
    assert_eq!(greatest_common_divisor(18, 12), 6);
    assert_eq!(greatest_common_divisor(7, 7), 7);
}

#[test]
fn gcd_divides_both_and_is_the_greatest() {
    for a in 1usize..40 {
        for b in 1usize..40 {
            let g = greatest_common_divisor(a, b);
            assert!(g > 0);
            assert_eq!(a % g, 0);
            assert_eq!(b % g, 0);
            for d in 1usize..40 {
                if a % d == 0 && b % d == 0 {
                    assert_eq!(g % d, 0);
                }
            }
        }
    }
}

#[test]
fn preview_size_reduces_to_four_by_three() {
    assert_eq!(reduce_ratio(640, 480), Some(AspectRatio { num: 4, den: 3 }));
}

#[test]
fn reduced_ratio_examples() {
    assert_eq!(reduce_ratio(1920, 1080), Some(AspectRatio { num: 16, den: 9 }));
    assert_eq!(reduce_ratio(480, 640), Some(AspectRatio { num: 3, den: 4 }));
    assert_eq!(reduce_ratio(500, 500), Some(AspectRatio { num: 1, den: 1 }));
    assert_eq!(reduce_ratio(7, 13), Some(AspectRatio { num: 7, den: 13 }));
    assert_eq!(reduce_ratio(u32::MAX, 1), Some(AspectRatio { num: u32::MAX, den: 1 }));
    assert_eq!(reduce_ratio(u32::MAX, u32::MAX), Some(AspectRatio { num: 1, den: 1 }));
}

#[test]
fn a_zero_side_has_no_ratio() {
    assert_eq!(reduce_ratio(0, 480), None);
    assert_eq!(reduce_ratio(640, 0), None);
    assert_eq!(reduce_ratio(0, 0), None);
}

#[test]
fn reduced_ratio_is_coprime_and_in_proportion() {
    for w in 1u32..60 {
        for h in 1u32..60 {
            let r = reduce_ratio(w, h).unwrap();
            assert!(r.num > 0 && r.den > 0);
            assert_eq!(greatest_common_divisor(r.num as usize, r.den as usize), 1);
            assert_eq!(r.num as u64 * h as u64, r.den as u64 * w as u64);
        }
    }
}
