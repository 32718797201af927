//! Verified policy layer that maps a radiation/dissipation field onto kernel
//! concepts (PIDs, IPC, scheduling), plus the command-line decisions of the
//! host-side falsification harness.

mod pid_map;
mod field_state;
mod numeric;
mod cli;
mod measure;
mod laws;

pub use pid_map::{
    bit_len, block_x_origin, block_y_origin, div_pow2_round_even, f32_round, f32_three_tenths_scaled,
    site_for_pid, spec_site_for_pid, MAX_PIDS,
};
pub use field_state::{
    age_after, age_step, age_through, call_moments, counter_modulus, total_moments, GlueCall, eligible, is_pick, is_pick_below, is_ready, spec_recv, spec_site_index,
    FieldState, _vec_anchor,
};
pub use numeric::{
    digits_value, invalid_value, invalid_value_message, is_digit, parse_u64, parse_usize,
    spec_decimal, unsigned_digits,
};
pub use cli::{
    arg_texts, default_options, is_option_setting, only_option_settings, options_after_settings, parse_falsify_args, parse_subcommand, scan_falsify_args,
    spec_falsify_args, takes_value, FalsifyParse, FalsifyRequest, Options, OptionsModel,
    Subcommand,
};
pub use measure::{same_measurements, spec_same_measurements, MeasurementBits};
pub use laws::{
    lemma_age_composes, lemma_age_counts_all_evolutions, lemma_block_origin_is_half_and_three_tenths,
    lemma_last_moments_setting_wins, lemma_pick_is_best_ready_pid, lemma_same_measurements_is_equality,
    lemma_settings_run_unless_zero_moments, lemma_site_index_is_row_major, lemma_empty_mask_picks_none, lemma_ipc_sites_differ, lemma_pick_is_ready,
    lemma_pick_unique, lemma_recv_reads_back, lemma_sites_distinct,
};
