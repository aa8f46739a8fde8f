use magical_hell::math::{
    accept_direction, clamp_to_i32, get_random_position_around, isqrt, place_around,
    random_direction, random_distance, Vec2, DIRECTION_RADIUS,
};

fn scale_to_length(x: i32, y: i32, length: u32) -> Vec2 {
    Vec2::new(x, y).with_length(length)
}

#[test]
fn isqrt_rounds_down() {
    assert_eq!(isqrt(0), 0);
    assert_eq!(isqrt(1), 1);
    assert_eq!(isqrt(2), 1);
    assert_eq!(isqrt(3), 1);
    assert_eq!(isqrt(4), 2);
    assert_eq!(isqrt(15), 3);
    assert_eq!(isqrt(16), 4);
    assert_eq!(isqrt(17), 4);
    assert_eq!(isqrt(999_999), 999);
    assert_eq!(isqrt(1_000_000), 1000);
}

#[test]
fn isqrt_of_large_numbers() {
    assert_eq!(isqrt(8_589_934_592), 92_681);
    assert_eq!(isqrt(u64::MAX as u128), 4_294_967_295);
    assert_eq!(isqrt(1u128 << 64), 4_294_967_296);
    assert_eq!(isqrt(u128::MAX), u64::MAX);
    let r = 12_345_678_901_234_567u128;
    assert_eq!(isqrt(r * r), r as u64);
    assert_eq!(isqrt(r * r - 1), (r - 1) as u64);
    assert_eq!(isqrt(r * r + 2 * r), r as u64);
}

#[test]
fn clamp_stops_at_the_edges() {
    assert_eq!(clamp_to_i32(0), 0);
    assert_eq!(clamp_to_i32(-5), -5);
    assert_eq!(clamp_to_i32(i32::MAX as i128), i32::MAX);
    assert_eq!(clamp_to_i32(i32::MAX as i128 + 1), i32::MAX);
    assert_eq!(clamp_to_i32(i32::MIN as i128), i32::MIN);
    assert_eq!(clamp_to_i32(i32::MIN as i128 - 1), i32::MIN);
    assert_eq!(clamp_to_i32(i128::MAX), i32::MAX);
    assert_eq!(clamp_to_i32(i128::MIN), i32::MIN);
}

#[test]
fn scaling_keeps_direction_of_a_three_four_five_triangle() {
    assert_eq!(scale_to_length(3, 4, 5000), Vec2 { x: 3000, y: 4000 });
    assert_eq!(scale_to_length(-3, 4, 5000), Vec2 { x: -3000, y: 4000 });
    assert_eq!(scale_to_length(3, -4, 5000), Vec2 { x: 3000, y: -4000 });
    assert_eq!(scale_to_length(-30, -40, 5), Vec2 { x: -3, y: -4 });
}

#[test]
fn scaling_a_diagonal_rounds_toward_zero() {
    // 5000 / sqrt(2) = 3535.53...
    assert_eq!(scale_to_length(1, 1, 5000), Vec2 { x: 3535, y: 3535 });
    assert_eq!(scale_to_length(-1, -1, 5000), Vec2 { x: -3535, y: -3535 });
    assert_eq!(scale_to_length(1_000_000, 1_000_000, 1000), Vec2 { x: 707, y: 707 });
}

#[test]
fn scaling_along_an_axis_is_exact() {
    assert_eq!(scale_to_length(10, 0, 1000), Vec2 { x: 1000, y: 0 });
    assert_eq!(scale_to_length(-7, 0, 1000), Vec2 { x: -1000, y: 0 });
    assert_eq!(scale_to_length(0, 123_456, 42), Vec2 { x: 0, y: 42 });
    assert_eq!(scale_to_length(0, -1, 600_000), Vec2 { x: 0, y: -600_000 });
    assert_eq!(scale_to_length(i32::MIN, 0, 77), Vec2 { x: -77, y: 0 });
}

#[test]
fn scaling_the_zero_vector_gives_zero() {
    assert_eq!(scale_to_length(0, 0, 1000), Vec2 { x: 0, y: 0 });
    assert_eq!(scale_to_length(0, 0, 0), Vec2 { x: 0, y: 0 });
    assert_eq!(scale_to_length(0, 0, u32::MAX), Vec2 { x: 0, y: 0 });
}

#[test]
fn scaling_to_length_zero_gives_zero() {
    assert_eq!(scale_to_length(5, -9, 0), Vec2 { x: 0, y: 0 });
}

#[test]
fn scaling_beyond_the_plane_stops_at_its_edge() {
    assert_eq!(scale_to_length(1, 0, u32::MAX), Vec2 { x: i32::MAX, y: 0 });
    assert_eq!(scale_to_length(0, -1, u32::MAX), Vec2 { x: 0, y: i32::MIN });
}

#[test]
fn scaling_the_longest_vectors_does_not_overflow() {
    assert_eq!(scale_to_length(i32::MAX, i32::MAX, 1000), Vec2 { x: 707, y: 707 });
    assert_eq!(scale_to_length(i32::MIN, i32::MAX, 1000), Vec2 { x: -707, y: 707 });
    assert_eq!(scale_to_length(i32::MIN, i32::MIN, u32::MAX), Vec2 { x: i32::MIN, y: i32::MIN });
}

#[test]
fn toward_points_from_self_to_target() {
    let from = Vec2::new(100, 100);
    assert_eq!(from.toward(Vec2::new(400, 500), 50), Vec2 { x: 30, y: 40 });
    assert_eq!(from.toward(Vec2::new(100, -900), 50), Vec2 { x: 0, y: -50 });
    assert_eq!(from.toward(from, 50), Vec2 { x: 0, y: 0 });
}

#[test]
fn toward_spans_the_whole_plane() {
    let low = Vec2::new(i32::MIN, i32::MIN);
    let high = Vec2::new(i32::MAX, i32::MAX);
    assert_eq!(low.toward(high, 1000), Vec2 { x: 707, y: 707 });
    assert_eq!(high.toward(low, 1000), Vec2 { x: -707, y: -707 });
}

#[test]
fn shift_moves_and_stops_at_the_edge() {
    let p = Vec2::new(10, -10);
    assert_eq!(p.shift(5, 5), Vec2 { x: 15, y: -5 });
    assert_eq!(p.shift(i64::MAX, i64::MIN), Vec2 { x: i32::MAX, y: i32::MIN });
    assert_eq!(Vec2::new(i32::MAX, 0).shift(1, 0), Vec2 { x: i32::MAX, y: 0 });
}

#[test]
fn place_around_walks_the_distance_in_the_direction() {
    let center = Vec2::new(1000, 2000);
    assert_eq!(place_around(center, Vec2::new(1, 0), 500_000), Vec2 { x: 501_000, y: 2000 });
    assert_eq!(place_around(center, Vec2::new(0, -5), 500_000), Vec2 { x: 1000, y: -498_000 });
    assert_eq!(place_around(center, Vec2::new(3, 4), 500), Vec2 { x: 1300, y: 2400 });
    assert_eq!(place_around(center, Vec2::new(0, 0), 500), center);
}

#[test]
fn directions_are_accepted_inside_the_disc_only() {
    let r = DIRECTION_RADIUS as i64;
    assert_eq!(accept_direction(0, 0), None);
    assert_eq!(accept_direction(1, 0), Some(Vec2 { x: 1, y: 0 }));
    assert_eq!(accept_direction(r, 0), Some(Vec2 { x: DIRECTION_RADIUS, y: 0 }));
    assert_eq!(accept_direction(0, -r), Some(Vec2 { x: 0, y: -DIRECTION_RADIUS }));
    assert_eq!(accept_direction(r, 1), None);
    assert_eq!(accept_direction(r, r), None);
    assert_eq!(accept_direction(r + 1, 0), None);
    assert_eq!(accept_direction(0, -r - 1), None);
    assert_eq!(accept_direction(i64::MAX, i64::MIN), None);
    assert_eq!(accept_direction(600_000, 800_000), Some(Vec2 { x: 600_000, y: 800_000 }));
    assert_eq!(accept_direction(600_001, 800_000), None);
}

#[test]
fn random_directions_lie_in_the_disc() {
    let r = DIRECTION_RADIUS as i64;
    for _ in 0..500 {
        let d = random_direction();
        assert!(d.x != 0 || d.y != 0);
        let (x, y) = (d.x as i64, d.y as i64);
        assert!(x * x + y * y <= r * r);
    }
}

#[test]
fn random_directions_point_every_way() {
    let mut quadrants = [false; 4];
    for _ in 0..400 {
        let d = random_direction();
        let q = match (d.x >= 0, d.y >= 0) {
            (true, true) => 0,
            (false, true) => 1,
            (false, false) => 2,
            (true, false) => 3,
        };
        quadrants[q] = true;
    }
    assert_eq!(quadrants, [true; 4]);
}

#[test]
fn random_distances_lie_in_the_range() {
    let mut low_half = false;
    let mut high_half = false;
    for _ in 0..400 {
        let d = random_distance(500_000, 600_000);
        assert!((500_000..600_000).contains(&d));
        if d < 550_000 {
            low_half = true;
        } else {
            high_half = true;
        }
    }
    assert!(low_half && high_half);
    assert_eq!(random_distance(7, 8), 7);
    assert_eq!(random_distance(u32::MAX - 1, u32::MAX), u32::MAX - 1);
}

#[test]
fn random_positions_lie_in_the_ring() {
    let center = Vec2::new(-3_000, 12_000);
    for _ in 0..500 {
        let p = get_random_position_around(center, 500_000, 600_000);
        let dx = (p.x - center.x) as f64;
        let dy = (p.y - center.y) as f64;
        let dist = (dx * dx + dy * dy).sqrt();
        assert!(dist > 499_997.0, "too near: {}", dist);
        assert!(dist < 600_009.0, "too far: {}", dist);
    }
}

#[test]
fn random_positions_surround_the_center() {
    let center = Vec2::new(0, 0);
    let mut quadrants = [false; 4];
    for _ in 0..400 {
        let p = get_random_position_around(center, 500_000, 600_000);
        let q = match (p.x >= 0, p.y >= 0) {
            (true, true) => 0,
            (false, true) => 1,
            (false, false) => 2,
            (true, false) => 3,
        };
        quadrants[q] = true;
    }
    assert_eq!(quadrants, [true; 4]);
}
