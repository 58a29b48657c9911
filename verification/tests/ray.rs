use rbpt::mods::ray::{Nearest, INFINITY_KEY};

const BIAS: f64 = 1e-5;

fn closest(distances: &[f64]) -> Option<usize> {
    let mut nearest = Nearest::new(BIAS.to_bits());
    let mut best = None;
    for (i, d) in distances.iter().enumerate() {
        if nearest.offer(d.to_bits()) {
            best = Some(i);
        }
    }
    best
}

#[test]
fn key_of_infinity() {
    assert_eq!(INFINITY_KEY, f64::INFINITY.to_bits());
    assert_eq!(Nearest::new(0).bound(), INFINITY_KEY);
}

#[test]
fn closest_hit_is_kept() {
    assert_eq!(closest(&[3.0, 1.5, 2.0]), Some(1));
    assert_eq!(closest(&[1.0, 2.0, 3.0]), Some(0));
    assert_eq!(closest(&[3.0, 2.0, 1.0]), Some(2));
}

#[test]
fn first_of_two_equal_hits_stays() {
    assert_eq!(closest(&[2.0, 1.0, 1.0, 5.0]), Some(1));
    assert_eq!(closest(&[4.0, 4.0]), Some(0));
}

#[test]
fn hits_within_the_bias_do_not_count() {
    assert_eq!(closest(&[0.0, 1e-6, 1e-5]), None);
    assert_eq!(closest(&[1e-5, 1.0000001e-5, 9.0]), Some(1));
    assert_eq!(closest(&[]), None);
}

#[test]
fn what_is_no_distance_does_not_count() {
    assert_eq!(closest(&[-1.0, f64::NAN, -f64::NAN, f64::INFINITY, -0.0, f64::NEG_INFINITY]), None);
    assert_eq!(closest(&[f64::NAN, 7.0, -3.0]), Some(1));
}

#[test]
fn offer_follows_the_comparison_of_the_numbers() {
    let values = [
        0.0,
        -0.0,
        1e-5,
        0.5,
        1.0,
        1.0 + f64::EPSILON,
        2.0,
        1e300,
        f64::MAX,
        f64::MIN_POSITIVE,
        f64::INFINITY,
        f64::NEG_INFINITY,
        f64::NAN,
        -3.5,
        5e-324,
    ];
    for min in values {
        if !(min > BIAS) {
            continue;
        }
        for d in values {
            let mut nearest = Nearest::new(BIAS.to_bits());
            if min < f64::INFINITY {
                assert!(nearest.offer(min.to_bits()));
            }
            assert_eq!(f64::from_bits(nearest.bound()), min);
            let taken = nearest.offer(d.to_bits());
            assert_eq!(taken, d > BIAS && d < min);
            let expected = if taken { d } else { min };
            assert_eq!(f64::from_bits(nearest.bound()), expected);
        }
    }
}

#[test]
fn bound_goes_down_with_every_hit_that_is_taken() {
    let mut nearest = Nearest::new(BIAS.to_bits());
    assert!(nearest.offer(8.0f64.to_bits()));
    assert_eq!(nearest.bound(), 8.0f64.to_bits());
    assert!(!nearest.offer(9.0f64.to_bits()));
    assert_eq!(nearest.bound(), 8.0f64.to_bits());
    assert!(nearest.offer(2.0f64.to_bits()));
    assert_eq!(nearest.bound(), 2.0f64.to_bits());
    assert!(!nearest.offer(2.0f64.to_bits()));
}
