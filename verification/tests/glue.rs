use kernel_glue::{site_for_pid, FieldState, MAX_PIDS, _vec_anchor};

fn make_state() -> FieldState<f32> {
    // The default kernel field is 24 x 24 sites.
    FieldState::new(24, 24, 0.0)
}

fn no_scores() -> Vec<Option<u32>> {
    vec![None; MAX_PIDS]
}

#[test]
fn scheduler_pick_returns_none_for_empty_mask() {
    let state = make_state();
    let scores: Vec<Option<u32>> = (0..MAX_PIDS as u32).map(Some).collect();
    assert!(state.scheduler_pick(0, &scores).is_none());
}

#[test]
fn out_of_range_pids_are_rejected() {
    let mut state = make_state();
    assert!(state.stimulate(MAX_PIDS).is_none());
    assert!(state.ipc_send_as_energy(MAX_PIDS, 0).is_none());
    assert!(state.ipc_send_as_energy(0, MAX_PIDS).is_none());
    assert!(state.ipc_recv_as_radiation(MAX_PIDS, 1.0).is_none());
}

#[test]
fn pid_block_sits_at_half_width_and_three_tenths_height() {
    assert_eq!(site_for_pid(24, 24, 0), Some((12, 7)));
    assert_eq!(site_for_pid(24, 24, 5), Some((13, 8)));
    assert_eq!(site_for_pid(24, 24, 15), Some((15, 10)));
    assert_eq!(site_for_pid(56, 36, 0), Some((28, 10)));
    assert_eq!(site_for_pid(40, 40, 0), Some((20, 12)));
}

#[test]
fn pid_block_is_clamped_inside_small_grids() {
    assert_eq!(site_for_pid(5, 5, 0), Some((1, 1)));
    assert_eq!(site_for_pid(5, 5, 15), Some((4, 4)));
    assert_eq!(site_for_pid(4, 4, 15), Some((3, 3)));
}

#[test]
fn grids_below_four_sites_have_no_pid_sites() {
    assert_eq!(site_for_pid(3, 24, 0), None);
    assert_eq!(site_for_pid(24, 3, 0), None);
    assert_eq!(site_for_pid(24, 24, 16), None);
    let mut tiny: FieldState<f32> = FieldState::new(3, 3, 0.0);
    assert_eq!(tiny.stimulate(0), None);
    assert_eq!(tiny.ipc_send_as_energy(0, 1), None);
    assert_eq!(tiny.ipc_recv_as_radiation(0, 1.0), None);
    let scores: Vec<Option<u32>> = vec![Some(1); MAX_PIDS];
    assert_eq!(tiny.scheduler_pick(0xffff, &scores), None);
}

#[test]
fn site_indices_are_row_major() {
    let state = make_state();
    assert_eq!(state.site_index(0), Some(7 * 24 + 12));
    assert_eq!(state.stimulate(0), Some(180));
    assert_eq!(state.stimulate(15), Some(10 * 24 + 15));
}

#[test]
fn ipc_send_resolves_both_sites() {
    let state = make_state();
    assert_eq!(state.ipc_send_as_energy(1, 2), Some((181, 182)));
    assert_eq!(state.ipc_send_as_energy(4, 12), Some((8 * 24 + 12, 10 * 24 + 12)));
}

#[test]
fn ipc_send_to_self_is_rejected() {
    let state = make_state();
    assert_eq!(state.ipc_send_as_energy(3, 3), None);
}

#[test]
fn ipc_recv_hands_back_the_previous_baseline() {
    let mut state = make_state();
    assert_eq!(state.ipc_recv_as_radiation(2, 0.5), Some(0.0));
    assert_eq!(state.ipc_recv_as_radiation(2, 0.75), Some(0.5));
    // Other PIDs keep their own baseline.
    assert_eq!(state.ipc_recv_as_radiation(3, 9.0), Some(0.0));
    assert_eq!(state.ipc_recv_as_radiation(2, 1.0), Some(0.75));
}

#[test]
fn glue_state_evolves_deterministically() {
    let mut a = make_state();
    let mut b = make_state();
    for _ in 0..50 {
        a.evolve_once();
        b.evolve_once();
    }
    assert_eq!(a.age(), b.age());
    assert_eq!(a.age(), 50);
    let scores: Vec<Option<u32>> = (0..MAX_PIDS as u32).map(|k| Some(k % 5)).collect();
    assert_eq!(a.scheduler_pick(0x00ff, &scores), b.scheduler_pick(0x00ff, &scores));
}

#[test]
fn evolve_for_adds_moments() {
    let mut a = make_state();
    a.evolve_for(500);
    assert_eq!(a.age(), 500);
    a.evolve_for(0);
    assert_eq!(a.age(), 500);
    a.evolve_once();
    assert_eq!(a.age(), 501);
}

#[test]
fn age_wraps_at_two_to_the_sixty_four() {
    let mut a = make_state();
    a.evolve_for(u64::MAX);
    assert_eq!(a.age(), u64::MAX);
    a.evolve_once();
    assert_eq!(a.age(), 0);
    a.evolve_for(3);
    assert_eq!(a.age(), 3);
}

#[test]
fn scheduler_pick_returns_a_ready_pid() {
    let state = make_state();
    let mut scores = no_scores();
    scores[0] = Some(10);
    scores[1] = Some(20);
    scores[2] = Some(5);
    scores[3] = Some(90);
    scores[4] = Some(1000);
    let pick = state.scheduler_pick(0b0000_1111, &scores).expect("non-empty mask");
    assert!(pick < 4, "pick out of range: {pick}");
    assert_eq!(pick, 3);
}

#[test]
fn scheduler_breaks_ties_towards_the_lowest_pid() {
    let state = make_state();
    let mut scores = no_scores();
    scores[2] = Some(7);
    scores[5] = Some(7);
    scores[9] = Some(7);
    assert_eq!(state.scheduler_pick(0xffff, &scores), Some(2));
    assert_eq!(state.scheduler_pick(0xfff0, &scores), Some(5));
}

#[test]
fn scheduler_skips_pids_without_a_score() {
    let state = make_state();
    let mut scores = no_scores();
    assert_eq!(state.scheduler_pick(0xffff, &scores), None);
    scores[15] = Some(0);
    assert_eq!(state.scheduler_pick(0xffff, &scores), Some(15));
    assert_eq!(state.scheduler_pick(0x7fff, &scores), None);
}

#[test]
fn vec_anchor_is_empty() {
    assert!(_vec_anchor().is_empty());
}

#[test]
fn pid_sites_are_distinct() {
    let state = make_state();
    let mut indices: Vec<usize> = (0..MAX_PIDS).map(|p| state.site_index(p).unwrap()).collect();
    indices.sort();
    indices.dedup();
    assert_eq!(indices.len(), MAX_PIDS);
    assert!(indices.iter().all(|&i| i < 24 * 24));
}

#[test]
fn pid_block_origin_agrees_with_the_float_placement() {
    for width in 4usize..=3000 {
        for height in [4usize, 5, 9, 10, 11, 24, 36, 100, 999, 1000, 2999] {
            let x_origin = ((width as f32 * 0.50) as usize).min(width - 4);
            let y_origin = ((height as f32 * 0.30) as usize).min(height - 4);
            assert_eq!(site_for_pid(width, height, 0), Some((x_origin, y_origin)));
            assert_eq!(site_for_pid(height, width, 6), Some((
                ((height as f32 * 0.50) as usize).min(height - 4) + 2,
                ((width as f32 * 0.30) as usize).min(width - 4) + 1,
            )));
        }
    }
}

#[test]
fn age_counts_every_evolution_and_nothing_else() {
    let mut state = make_state();
    state.evolve_once();
    state.evolve_for(10);
    assert_eq!(state.stimulate(1), Some(181));
    assert_eq!(state.ipc_send_as_energy(1, 2), Some((181, 182)));
    assert_eq!(state.ipc_recv_as_radiation(2, 3.0), Some(0.0));
    assert_eq!(state.scheduler_pick(0b11, &no_scores()), None);
    state.evolve_once();
    state.evolve_once();
    state.evolve_for(7);
    assert_eq!(state.age(), 20);
}

fn float_origin(width: usize, height: usize) -> (usize, usize) {
    (
        ((width as f32 * 0.50) as usize).min(width - 4),
        ((height as f32 * 0.30) as usize).min(height - 4),
    )
}

#[test]
fn pid_block_follows_f32_rounding_on_huge_grids() {
    let mut sizes: Vec<usize> = Vec::new();
    for base in [3_495_263usize, 16_777_215, 16_777_219, 33_554_431, 1 << 40, 0x1234_5678_9abc, usize::MAX - 64] {
        for k in 0..64 {
            sizes.push(base + k);
        }
    }
    sizes.push(usize::MAX);
    let mut moved = 0;
    for &n in &sizes {
        for &m in &[24usize, n] {
            assert_eq!(site_for_pid(n, m, 0), Some(float_origin(n, m)), "{n} x {m}");
            assert_eq!(site_for_pid(m, n, 0), Some(float_origin(m, n)), "{m} x {n}");
        }
        if float_origin(n, n) != (n / 2, 3 * (n / 10) + (n % 10) * 3 / 10) {
            moved += 1;
        }
    }
    // The rounding does move the block on some of these grids.
    assert!(moved > 0);
    // The values the exact fractions would miss.
    assert_eq!(site_for_pid(24, 3_495_263, 0).map(|s| s.1), Some(float_origin(24, 3_495_263).1));
}
