use ruview_swarm::navigation_lab::layout::{pillar_draws, LCG_MULTIPLIER, PILLARS};

#[test]
fn seeded_pillars_follow_the_generator() {
    assert_eq!(pillar_draws(0), vec![(3, 2), (0, 1), (0, 0), (0, 0), (4, 1), (4, 1)]);
    assert_eq!(pillar_draws(7), vec![(4, 2), (1, 2), (0, 1), (1, 2), (2, 0), (3, 0)]);
    assert_eq!(pillar_draws(u32::MAX), vec![(2, 0), (4, 2), (0, 1), (0, 2), (1, 0), (4, 1)]);
}

#[test]
fn pillar_draws_match_an_independent_generator_and_stay_in_range() {
    for seed in [1u32, 2, 99, 12_345, 1 << 31] {
        let mut state = u64::from(seed) + 1;
        let mut next = || {
            state = state.wrapping_mul(LCG_MULTIPLIER).wrapping_add(1);
            (state >> 32) as u32
        };
        let expected: Vec<(u32, u32)> = (0..PILLARS).map(|_| (next() % 5, next() % 3)).collect();
        let draws = pillar_draws(seed);
        assert_eq!(draws, expected);
        assert!(draws.iter().all(|&(h, o)| h < 5 && o < 3));
    }
}
