use raycaster::fixed::ONE;
use raycaster::shade::{ceiling_color, distance_to_color, floor_color};

fn wall_in_floats(distance: f64) -> u8 {
    let clamped = distance.max(0.1).min(15.0);
    let normalized = 1.0 - (clamped + 1.0).ln() / (15.0f64 + 1.0).ln();
    if normalized > 0.5 {
        (220.0 + (normalized - 0.5) * 12.0).max(220.0).min(226.0) as u8
    } else {
        (88.0 + normalized * 12.0).max(88.0).min(94.0) as u8
    }
}

#[test]
fn wall_colors_at_known_distances() {
    assert_eq!(distance_to_color(0), 225);
    assert_eq!(distance_to_color(100_000), 225);
    assert_eq!(distance_to_color(1_000_000), 223);
    assert_eq!(distance_to_color(2_999_999), 220);
    assert_eq!(distance_to_color(3_000_000), 94);
    assert_eq!(distance_to_color(3_000_001), 93);
    assert_eq!(distance_to_color(7_000_000), 91);
    assert_eq!(distance_to_color(15_000_000), 88);
}

#[test]
fn wall_color_bands_change_at_cube_roots_of_two() {
    // d + 1 = 2^(j/3): the brightness drops by one step at each of these.
    assert_eq!(distance_to_color(259_921), 225);
    assert_eq!(distance_to_color(259_922), 224);
    assert_eq!(distance_to_color(587_401), 224);
    assert_eq!(distance_to_color(587_402), 223);
    assert_eq!(distance_to_color(1_000_000), 223);
    assert_eq!(distance_to_color(1_000_001), 222);
    assert_eq!(distance_to_color(7_000_000), 91);
    assert_eq!(distance_to_color(7_000_001), 90);
}

#[test]
fn wall_color_is_clamped_at_both_ends() {
    assert_eq!(distance_to_color(-1), 225);
    assert_eq!(distance_to_color(i128::MIN), 225);
    assert_eq!(distance_to_color(99_999), distance_to_color(100_000));
    assert_eq!(distance_to_color(15_000_001), 88);
    assert_eq!(distance_to_color(1_000_000_000_000_000_000_000_000), 88);
    assert_eq!(distance_to_color(i128::MAX), 88);
}

#[test]
fn wall_color_never_brightens_with_distance() {
    let mut previous = distance_to_color(0);
    let mut d: i128 = 0;
    while d <= 16_000_000 {
        let c = distance_to_color(d);
        assert!(c <= previous, "at {}", d);
        assert!((220..=225).contains(&c) || (88..=94).contains(&c));
        previous = c;
        d += 997;
    }
}

#[test]
fn wall_color_agrees_with_the_logarithm() {
    let mut d: i128 = 0;
    while d <= 20_000_000 {
        assert_eq!(distance_to_color(d), wall_in_floats(d as f64 / ONE as f64), "at {}", d);
        d += 10_007;
    }
}

#[test]
fn ceiling_colors_at_known_distances() {
    assert_eq!(ceiling_color(0), 39);
    assert_eq!(ceiling_color(166_666), 39);
    assert_eq!(ceiling_color(166_667), 40);
    assert_eq!(ceiling_color(250_000), 40);
    assert_eq!(ceiling_color(500_000), 42);
    assert_eq!(ceiling_color(999_999), 44);
    assert_eq!(ceiling_color(ONE), 45);
}

#[test]
fn ceiling_color_is_clamped() {
    assert_eq!(ceiling_color(-1), 39);
    assert_eq!(ceiling_color(i64::MIN), 39);
    assert_eq!(ceiling_color(ONE + 1), 45);
    assert_eq!(ceiling_color(i64::MAX), 45);
}

#[test]
fn floor_colors_at_known_distances() {
    assert_eq!(floor_color(0), 238);
    assert_eq!(floor_color(166_666), 238);
    assert_eq!(floor_color(166_667), 239);
    assert_eq!(floor_color(500_000), 241);
    assert_eq!(floor_color(999_999), 243);
    assert_eq!(floor_color(ONE), 244);
}

#[test]
fn floor_color_is_clamped() {
    assert_eq!(floor_color(-1), 238);
    assert_eq!(floor_color(i64::MIN), 238);
    assert_eq!(floor_color(i64::MAX), 244);
}

#[test]
fn gradients_never_fall_with_distance() {
    let mut previous_ceiling = ceiling_color(0);
    let mut previous_floor = floor_color(0);
    let mut d: i64 = 0;
    while d <= ONE + 1000 {
        let c = ceiling_color(d);
        let f = floor_color(d);
        assert!(c >= previous_ceiling && f >= previous_floor);
        assert_eq!(f - 238, c - 39);
        previous_ceiling = c;
        previous_floor = f;
        d += 331;
    }
}
