use moonar::terrain::{generate, heights_from, next_height, OVERFLOW_FALLBACK};

#[test]
fn step_adds_the_remainder_of_the_draw() {
    assert_eq!(next_height(200, 85, 80, 120), 205);
    assert_eq!(next_height(200, 5, 80, 120), 205);
    assert_eq!(next_height(200, 80, 80, 120), 200);
    assert_eq!(next_height(200, 79, 80, 120), 279);
    assert_eq!(next_height(200, 0, 80, 120), 200);
}

#[test]
fn remainder_keeps_the_sign_of_the_draw() {
    assert_eq!(next_height(200, -85, 80, 120), 195);
    assert_eq!(next_height(200, -5, 80, 120), 195);
    assert_eq!(next_height(200, -79, 80, 120), 121);
    assert_eq!(next_height(200, -80, 80, 120), 200);
    assert_eq!(next_height(200, i32::MIN, 80, 120), 152);
    assert_eq!(next_height(200, i32::MAX, 80, 120), 247);
}

#[test]
fn step_is_lifted_to_the_floor() {
    assert_eq!(next_height(0, 5, 80, 120), 120);
    assert_eq!(next_height(120, -79, 80, 120), 120);
    assert_eq!(next_height(120, -1, 80, 120), 120);
    assert_eq!(next_height(120, 1, 80, 120), 121);
    assert_eq!(next_height(0, 5, 80, 0), 5);
    assert_eq!(next_height(0, 0, 80, 0), 0);
    assert_eq!(next_height(7, 3, 80, u32::MAX), u32::MAX);
}

#[test]
fn sum_out_of_range_falls_back() {
    assert_eq!(OVERFLOW_FALLBACK, 10);
    assert_eq!(next_height(2_147_483_647, 79, 80, 0), 10);
    assert_eq!(next_height(2_147_483_647, 1, 80, 0), 10);
    assert_eq!(next_height(2_147_483_647, 0, 80, 0), 2_147_483_647);
    assert_eq!(next_height(2_147_483_647, 79, 80, 120), 120);
    // 2^31 reads as the smallest signed number
    assert_eq!(next_height(2_147_483_648, -1, 80, 0), 10);
    assert_eq!(next_height(2_147_483_648, -1, 80, 120), 120);
}

#[test]
fn sum_below_zero_is_lifted_to_the_floor() {
    assert_eq!(next_height(0, -5, 80, 120), 120);
    assert_eq!(next_height(0, -5, 80, 0), 0);
    assert_eq!(next_height(0, -79, 80, 0), 0);
    assert_eq!(next_height(50, -60, 80, 0), 0);
    assert_eq!(next_height(50, -60, 80, 7), 7);
    assert_eq!(next_height(50, -50, 80, 0), 0);
    assert_eq!(next_height(50, -49, 80, 0), 1);
}

#[test]
fn height_above_the_signed_range_counts_as_below_zero() {
    // 4_294_967_291 reads as -5, 2^31 as the smallest signed number
    assert_eq!(next_height(4_294_967_291, 7, 80, 0), 2);
    assert_eq!(next_height(4_294_967_291, 7, 80, 120), 120);
    assert_eq!(next_height(4_294_967_291, -7, 80, 0), 0);
    assert_eq!(next_height(2_147_483_648, 0, 80, 0), 0);
    assert_eq!(next_height(4_000_000_000, 5, 80, 4_000_000_000), 4_000_000_000);
}

#[test]
fn largest_change_above_the_signed_range_counts_by_its_size() {
    // 4_294_967_293 reads as -3
    assert_eq!(next_height(200, 7, 4_294_967_293, 120), 201);
    assert_eq!(next_height(200, -7, 4_294_967_293, 120), 199);
    // u32::MAX reads as -1: every remainder is 0
    assert_eq!(next_height(200, 5, u32::MAX, 120), 200);
    assert_eq!(next_height(200, -5, u32::MAX, 120), 200);
    // 2^31 reads as the smallest signed number
    assert_eq!(next_height(200, 5, 2_147_483_648, 120), 205);
    assert_eq!(next_height(200, i32::MIN, 2_147_483_648, 120), 200);
}

#[test]
fn largest_change_of_one_keeps_the_height() {
    for draw in [i32::MIN, -7, -1, 0, 1, 7, i32::MAX] {
        assert_eq!(next_height(300, draw, 1, 120), 300);
    }
}

#[test]
fn terrain_has_one_height_more_than_its_length() {
    assert_eq!(generate(0, 80, 120).len(), 1);
    assert_eq!(generate(1, 80, 120).len(), 2);
    assert_eq!(generate(50, 80, 120).len(), 51);
    assert_eq!(generate(1000, 3, 0).len(), 1001);
}

#[test]
fn terrain_stays_above_the_floor() {
    for floor in [0u32, 1, 120, 4_000_000_000, u32::MAX] {
        let heights = generate(200, 80, floor);
        assert_eq!(heights.len(), 201);
        assert!(heights.iter().all(|&h| h >= floor));
    }
}

#[test]
fn terrain_at_the_highest_floor_is_flat() {
    let heights = generate(20, 80, u32::MAX);
    assert_eq!(heights, vec![u32::MAX; 21]);
}

#[test]
fn terrain_with_largest_change_of_one_is_flat() {
    // every remainder by 1 is 0, so the walk stays at 0 and is lifted
    let heights = generate(20, 1, 120);
    assert_eq!(heights, vec![120; 21]);
    let heights = generate(20, 1, 0);
    assert_eq!(heights, vec![0; 21]);
}

#[test]
fn terrain_starts_at_the_floor_and_moves_by_less_than_the_largest_change() {
    for _ in 0..20 {
        let heights = generate(50, 80, 120);
        assert_eq!(heights[0], 120);
        for i in 1..heights.len() {
            assert!(heights[i] >= 120);
            assert!(heights[i] < heights[i - 1] + 80);
            assert!(heights[i] + 80 > heights[i - 1]);
            assert!(heights[i] <= 120 + 79 * (i as u32));
        }
    }
}

#[test]
fn walk_follows_its_draws() {
    assert_eq!(heights_from(&vec![], 80, 120), Vec::<u32>::new());
    assert_eq!(heights_from(&vec![-5], 80, 120), vec![120]);
    assert_eq!(heights_from(&vec![-5, 10], 80, 120), vec![120, 130]);
    assert_eq!(
        heights_from(&vec![5, 85, -3, 79, -200], 80, 120),
        vec![120, 125, 122, 201, 161]
    );
    assert_eq!(heights_from(&vec![5, 85, -3, 79, -200], 80, 0), vec![5, 10, 7, 86, 46]);
    assert_eq!(heights_from(&vec![-5, 3, 4, -10, 6], 80, 0), vec![0, 3, 7, 0, 6]);
}

#[test]
fn first_draw_below_zero_then_zeros_stays_on_the_floor() {
    let mut draws = vec![0; 51];
    draws[0] = -5;
    assert_eq!(heights_from(&draws, 80, 120), vec![120; 51]);
}

#[test]
fn first_height_is_the_floor_whatever_is_drawn() {
    for draw in [i32::MIN, -79, -5, -1, 0, 1, 5, 79, 80, 119, i32::MAX] {
        assert_eq!(heights_from(&vec![draw], 80, 120), vec![120]);
    }
}

#[test]
fn walk_that_leaves_the_signed_range_falls_back() {
    let heights = heights_from(&vec![79, 79, 79], 80, 2_147_483_500);
    assert_eq!(heights, vec![2_147_483_500, 2_147_483_579, 2_147_483_500]);
    let heights = heights_from(&vec![79, 79, 79], 80, 0);
    assert_eq!(heights, vec![79, 158, 237]);
}

#[test]
fn two_terrains_both_keep_the_bounds() {
    let first = generate(50, 80, 120);
    let second = generate(50, 80, 120);
    for heights in [&first, &second] {
        assert_eq!(heights.len(), 51);
        assert!(heights.iter().all(|&h| h >= 120));
    }
}

#[test]
fn terrains_differ_from_draw_to_draw() {
    // 64 walks of 65 free steps each: all alike only if the generator
    // handed out the same draws every time
    let first = generate(64, 1_000_000, 0);
    let mut all_alike = true;
    for _ in 0..64 {
        if generate(64, 1_000_000, 0) != first {
            all_alike = false;
        }
    }
    assert!(!all_alike);
}
