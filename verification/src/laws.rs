//! Properties the glue layer keeps across calls and across inputs.

use vstd::prelude::*;
use vstd::arithmetic::power2::pow2;
use crate::measure::{spec_same_measurements, MeasurementBits};
use crate::cli::{
    is_option_setting, only_option_settings, options_after_settings, scan_falsify_args, FalsifyParse,
    OptionsModel,
};
use crate::numeric::spec_decimal;
use crate::pid_map::{
    bit_len, block_x_origin, block_y_origin, div_pow2_round_even, f32_round, f32_three_tenths_scaled,
    lemma_bit_len_bound, spec_site_for_pid, MAX_PIDS,
};
use crate::field_state::{
    age_after, age_through, call_moments, counter_modulus, eligible, is_pick, is_ready, spec_recv,
    spec_site_index, total_moments, GlueCall,
};

verus! {

/// Scheduling is deterministic: for a given field, ready mask and scores,
/// exactly one choice meets the scheduler's contract.
pub proof fn lemma_pick_unique(
    width: int,
    height: int,
    mask: u16,
    scores: Seq<Option<u32>>,
    r1: Option<usize>,
    r2: Option<usize>,
)
    requires
        is_pick(width, height, mask, scores, r1),
        is_pick(width, height, mask, scores, r2),
    ensures
        r1 == r2,
{
    match (r1, r2) {
        (Some(p1), Some(p2)) => {
            assert(eligible(width, height, mask, scores, p1 as int));
            assert(eligible(width, height, mask, scores, p2 as int));
        },
        (Some(p1), None) => {
            assert(eligible(width, height, mask, scores, p1 as int));
        },
        (None, Some(p2)) => {
            assert(eligible(width, height, mask, scores, p2 as int));
        },
        (None, None) => {},
    }
}

/// The scheduler only ever picks a PID that is in range and Ready.
pub proof fn lemma_pick_is_ready(
    width: int,
    height: int,
    mask: u16,
    scores: Seq<Option<u32>>,
    pid: usize,
)
    requires
        is_pick(width, height, mask, scores, Some(pid)),
    ensures
        pid < MAX_PIDS,
        is_ready(mask, pid as int),
        spec_site_for_pid(width, height, pid as int) is Some,
{
}

/// With no PID Ready, the scheduler picks nothing.
pub proof fn lemma_empty_mask_picks_none(
    width: int,
    height: int,
    scores: Seq<Option<u32>>,
    r: Option<usize>,
)
    requires
        is_pick(width, height, 0u16, scores, r),
    ensures
        r is None,
{
    if let Some(p) = r {
        vstd::arithmetic::power2::lemma_pow2_pos(p as nat);
        vstd::arithmetic::div_mod::lemma_basic_div(0, vstd::arithmetic::power2::pow2(p as nat) as int);
    }
}

/// Every PID with a site lies inside the grid, in the 4x4 block, and no two
/// PIDs share a site or a site index.
pub proof fn lemma_sites_distinct(width: int, height: int, p: int, q: int)
    requires
        spec_site_for_pid(width, height, p) is Some,
        spec_site_for_pid(width, height, q) is Some,
    ensures
        ({
            let (px, py) = spec_site_for_pid(width, height, p).unwrap();
            &&& 0 <= px < width
            &&& 0 <= py < height
            &&& block_x_origin(width) <= px < block_x_origin(width) + 4
            &&& block_y_origin(height) <= py < block_y_origin(height) + 4
        }),
        p != q ==> spec_site_for_pid(width, height, p) != spec_site_for_pid(width, height, q),
        p != q ==> spec_site_index(width, height, p) != spec_site_index(width, height, q),
{
    let (px, py) = spec_site_for_pid(width, height, p).unwrap();
    let (qx, qy) = spec_site_for_pid(width, height, q).unwrap();
    assert(0 <= block_x_origin(width) <= width - 4);
    assert(0 <= block_y_origin(height) <= height - 4) by {
        let t = f32_round(f32_round(height as nat) * f32_three_tenths_scaled()) / pow2(25);
        vstd::arithmetic::power2::lemma_pow2_pos(25);
        assert(t >= 0);
    }
    if p != q {
        if px == qx && py == qy {
            assert(p == 4 * (p / 4) + p % 4);
            assert(q == 4 * (q / 4) + q % 4);
        }
        if py * width + px == qy * width + qx {
            assert(px == qx && py == qy) by (nonlinear_arith)
                requires
                    py * width + px == qy * width + qx,
                    0 <= px < width,
                    0 <= qx < width,
                    0 <= py,
                    0 <= qy,
            {
                if py < qy {
                    assert(py * width + px < qy * width);
                } else if qy < py {
                    assert(qy * width + qx < py * width);
                }
            }
            assert(p == 4 * (p / 4) + p % 4);
            assert(q == 4 * (q / 4) + q % 4);
        }
    }
}

/// A message is always sent between two distinct sites.
pub proof fn lemma_ipc_sites_differ(width: int, height: int, src: int, dst: int)
    requires
        src != dst,
        spec_site_index(width, height, src) is Some,
        spec_site_index(width, height, dst) is Some,
    ensures
        spec_site_index(width, height, src) != spec_site_index(width, height, dst),
{
    lemma_sites_distinct(width, height, src, dst);
}

/// Evolving `m` moments and then `n` more leaves the counter where evolving
/// `m + n` moments at once does.
pub proof fn lemma_age_composes(age: u64, m: nat, n: nat)
    ensures
        age_after(age_after(age, m as int), n as int) == age_after(age, (m + n) as int),
{
    let k = 0x1_0000_0000_0000_0000int;
    let a = age as int;
    let x = (a + m) % k;
    vstd::arithmetic::div_mod::lemma_add_mod_noop(a + m, n as int, k);
    vstd::arithmetic::div_mod::lemma_add_mod_noop(x, n as int, k);
    vstd::arithmetic::div_mod::lemma_mod_twice(a + m, k);
    assert((x + n) % k == (a + m + n) % k);
}

/// Over any sequence of calls, the counter has advanced by every moment that
/// `evolve_once` (one each) and `evolve_for` (its argument) evolved, modulo
/// 2^64; the other methods leave it where it was. From a new state (counter
/// 0) the age is the total number of moments evolved, modulo 2^64.
pub proof fn lemma_age_counts_all_evolutions(age: u64, calls: Seq<GlueCall>)
    ensures
        age_through(age, calls) == age_after(age, total_moments(calls) as int),
        age_through(0u64, calls) == (total_moments(calls) as int % counter_modulus()) as u64,
    decreases calls.len(),
{
    if calls.len() == 0 {
        vstd::arithmetic::div_mod::lemma_small_mod(age as nat, counter_modulus() as nat);
    } else {
        let prefix = calls.drop_last();
        lemma_age_counts_all_evolutions(age, prefix);
        lemma_age_counts_all_evolutions(0, prefix);
        lemma_age_composes(age, total_moments(prefix), call_moments(calls.last()));
        lemma_age_composes(0, total_moments(prefix), call_moments(calls.last()));
        match calls.last() {
            GlueCall::Other => {
                vstd::arithmetic::div_mod::lemma_small_mod(age_through(age, prefix) as nat, counter_modulus() as nat);
                vstd::arithmetic::div_mod::lemma_small_mod(age_through(0, prefix) as nat, counter_modulus() as nat);
            },
            _ => {},
        }
    }
}

/// A receive hands back what the previous receive for the same PID stored,
/// and a receive for one PID changes nothing that another PID's receive
/// sees.
pub proof fn lemma_recv_reads_back<T>(
    width: int,
    height: int,
    baselines: Seq<T>,
    pid: int,
    first: T,
    second: T,
    other: int,
    other_trace: T,
)
    requires
        baselines.len() == MAX_PIDS,
        other != pid,
    ensures
        ({
            let (_, after_first) = spec_recv(width, height, baselines, pid, first);
            spec_site_index(width, height, pid) is Some
                ==> spec_recv(width, height, after_first, pid, second).0 == Some(first)
        }),
        ({
            let (_, after_first) = spec_recv(width, height, baselines, pid, first);
            spec_recv(width, height, after_first, other, other_trace).0
                == spec_recv(width, height, baselines, other, other_trace).0
        }),
{
    if spec_site_index(width, height, pid) is Some {
        assert(0 <= pid < MAX_PIDS);
    }
    if spec_site_index(width, height, other) is Some {
        assert(0 <= other < MAX_PIDS);
    }
}

/// PID `pid`'s bit in `mask` is set exactly when the PID is Ready.
proof fn lemma_mask_bit_is_ready(mask: u16, pid: int)
    requires
        0 <= pid < MAX_PIDS,
    ensures
        ((mask & (1u16 << (pid as u16))) != 0u16) == is_ready(mask, pid),
{
    let p16 = pid as u16;
    assert(((mask & (1u16 << p16)) == 0u16) == ((mask >> p16) % 2 != 1)) by (bit_vector)
        requires p16 < 16;
    vstd::bits::lemma_u16_shr_is_div(mask, p16);
}

/// The scheduler's pick is the best Ready PID over the whole PID range: every
/// PID `p` below `MAX_PIDS` whose bit is set in the mask, whose site exists
/// (the grid is at least 4 x 4) and whose score is known is beaten or
/// matched by the pick, and a tie goes to the lower PID; the pick itself is
/// such a PID; and nothing is picked only when no PID qualifies.
pub proof fn lemma_pick_is_best_ready_pid(
    width: int,
    height: int,
    mask: u16,
    scores: Seq<Option<u32>>,
    r: Option<usize>,
)
    requires
        is_pick(width, height, mask, scores, r),
        scores.len() == MAX_PIDS,
    ensures
        forall|p: int|
            0 <= p < MAX_PIDS && width >= 4 && height >= 4
                && (mask & (1u16 << (p as u16))) != 0u16 && #[trigger] scores[p] is Some
                ==> {
                    &&& r is Some
                    &&& scores[r.unwrap() as int].unwrap() >= scores[p].unwrap()
                    &&& (scores[r.unwrap() as int].unwrap() == scores[p].unwrap() ==> r.unwrap() <= p)
                },
        r matches Some(q) ==> {
            &&& q < MAX_PIDS
            &&& width >= 4
            &&& height >= 4
            &&& (mask & (1u16 << (q as u16))) != 0u16
            &&& scores[q as int] is Some
        },
{
    assert forall|p: int|
        0 <= p < MAX_PIDS && width >= 4 && height >= 4
            && (mask & (1u16 << (p as u16))) != 0u16 && #[trigger] scores[p] is Some
        implies {
            &&& r is Some
            &&& scores[r.unwrap() as int].unwrap() >= scores[p].unwrap()
            &&& (scores[r.unwrap() as int].unwrap() == scores[p].unwrap() ==> r.unwrap() <= p)
        } by {
        lemma_mask_bit_is_ready(mask, p);
        assert(eligible(width, height, mask, scores, p));
    }
    if let Some(q) = r {
        lemma_mask_bit_is_ready(mask, q as int);
    }
}

/// The row-major index of a PID's site: dividing it by the width gives the
/// site's row and the remainder gives its column, on every grid.
pub proof fn lemma_site_index_is_row_major(width: int, height: int, pid: int)
    requires
        spec_site_for_pid(width, height, pid) is Some,
    ensures
        ({
            let (x, y) = spec_site_for_pid(width, height, pid).unwrap();
            &&& spec_site_index(width, height, pid) is Some
            &&& spec_site_index(width, height, pid).unwrap() / width == y
            &&& spec_site_index(width, height, pid).unwrap() % width == x
            &&& 0 <= spec_site_index(width, height, pid).unwrap() < width * height
        }),
{
    let (x, y) = spec_site_for_pid(width, height, pid).unwrap();
    lemma_sites_distinct(width, height, pid, pid);
    let i = y * width + x;
    vstd::arithmetic::div_mod::lemma_fundamental_div_mod_converse_div(i, width, y, x);
    vstd::arithmetic::div_mod::lemma_fundamental_div_mod_converse_mod(i, width, y, x);
    assert(0 <= i < width * height) by (nonlinear_arith)
        requires i == y * width + x, 0 <= x < width, 0 <= y < height;
    assert(spec_site_index(width, height, pid) == Some(i));
}

/// Two runs measure the same exactly when every compared quantity agrees:
/// the comparison is equality of the whole record.
pub proof fn lemma_same_measurements_is_equality(a: MeasurementBits, b: MeasurementBits)
    ensures
        spec_same_measurements(a, b) <==> a == b,
{
}

/// Arguments made only of option settings always run, with the options they
/// set, unless the number of moments they end with is zero: then, and only
/// then, the run is refused for it.
pub proof fn lemma_settings_run_unless_zero_moments(args: Seq<Seq<char>>, i: nat, o: OptionsModel)
    requires
        only_option_settings(args, i),
    ensures
        ({
            let last = options_after_settings(args, i, o);
            scan_falsify_args(args, i, o) == if last.moments == 0 {
                FalsifyParse::Invalid("--moments must be greater than zero"@)
            } else {
                FalsifyParse::Run(last)
            }
        }),
    decreases args.len() - i,
{
    if i < args.len() {
        let a = args[i as int];
        let v = args[i + 1int];
        let n = spec_decimal(v).unwrap();
        let next = (i + 2) as nat;
        if a == "--width"@ {
            lemma_settings_run_unless_zero_moments(args, next, OptionsModel { width: n as usize, ..o });
        } else if a == "--height"@ {
            lemma_settings_run_unless_zero_moments(args, next, OptionsModel { height: n as usize, ..o });
        } else if a == "--moments"@ {
            lemma_settings_run_unless_zero_moments(args, next, OptionsModel { moments: n as u64, ..o });
        } else if a == "--seed"@ {
            lemma_settings_run_unless_zero_moments(args, next, OptionsModel { seed: n as u64, ..o });
        } else {
            lemma_settings_run_unless_zero_moments(args, next, OptionsModel { output: v, ..o });
        }
    }
}

/// Settings that end with `--moments v` leave the number of moments at `v`,
/// whatever came before; so with `v` at least one the run goes ahead with
/// `v` moments.
pub proof fn lemma_last_moments_setting_wins(args: Seq<Seq<char>>, i: nat, o: OptionsModel)
    requires
        only_option_settings(args, i),
        i + 2 <= args.len(),
        args[args.len() - 2] == "--moments"@,
    ensures
        options_after_settings(args, i, o).moments == spec_decimal(args[args.len() - 1]).unwrap(),
        spec_decimal(args[args.len() - 1]).unwrap() >= 1 ==> scan_falsify_args(args, i, o)
            == FalsifyParse::Run(options_after_settings(args, i, o)),
    decreases args.len() - i,
{
    reveal_strlit("--width");
    reveal_strlit("--height");
    reveal_strlit("--moments");
    reveal_strlit("--seed");
    assert("--moments"@.len() == 9 && "--width"@.len() == 7 && "--height"@.len() == 8);
    assert("--moments"@ != "--width"@ && "--moments"@ != "--height"@);
    lemma_settings_run_unless_zero_moments(args, i, o);
    let a = args[i as int];
    let v = args[i + 1int];
    let n = spec_decimal(v).unwrap();
    let next = (i + 2) as nat;
    if next < args.len() {
        assert(only_option_settings(args, next));
        if a == "--width"@ {
            lemma_last_moments_setting_wins(args, next, OptionsModel { width: n as usize, ..o });
        } else if a == "--height"@ {
            lemma_last_moments_setting_wins(args, next, OptionsModel { height: n as usize, ..o });
        } else if a == "--moments"@ {
            lemma_last_moments_setting_wins(args, next, OptionsModel { moments: n as u64, ..o });
        } else if a == "--seed"@ {
            lemma_last_moments_setting_wins(args, next, OptionsModel { seed: n as u64, ..o });
        } else {
            lemma_last_moments_setting_wins(args, next, OptionsModel { output: v, ..o });
        }
    } else {
        assert(a == "--moments"@);
        assert(is_option_setting(a, v));
        assert(options_after_settings(args, next, OptionsModel { moments: n as u64, ..o }).moments == n as u64);
    }
}

/// `f32_round(n)` is `n` to within half a unit of its last significant
/// digit, never below the multiple of that unit just under `n`.
proof fn lemma_f32_round_near(n: nat) -> (d: nat)
    ensures
        d == 1 || d == pow2((bit_len(n) - 24) as nat),
        d >= 1,
        bit_len(n) <= 24 ==> d == 1,
        bit_len(n) > 24 ==> d == pow2((bit_len(n) - 24) as nat),
        (n / d) * d <= f32_round(n),
        2 * f32_round(n) <= 2 * n + d,
{
    if bit_len(n) <= 24 {
        vstd::arithmetic::div_mod::lemma_div_basics(n as int);
        1
    } else {
        let s = (bit_len(n) - 24) as nat;
        let d = pow2(s);
        vstd::arithmetic::power2::lemma_pow2_pos(s);
        let q = n / d;
        let r = n % d;
        vstd::arithmetic::div_mod::lemma_fundamental_div_mod(n as int, d as int);
        let k = div_pow2_round_even(n, s);
        assert(k == q || k == q + 1);
        assert(k == q + 1 ==> 2 * r >= d);
        assert(q * d <= k * d && 2 * (k * d) <= 2 * n + d) by (nonlinear_arith)
            requires
                n == d * q + r,
                0 <= r < d,
                k == q || k == q + 1,
                k == q + 1 ==> 2 * r >= d,
        ;
        d
    }
}

/// A multiple of `d` that is at most `n` is at most `n` rounded down to a
/// multiple of `d`.
proof fn lemma_multiple_below(n: nat, d: nat, k: nat)
    requires
        d >= 1,
        k * d <= n,
    ensures
        k * d <= (n / d) * d,
{
    vstd::arithmetic::div_mod::lemma_fundamental_div_mod(n as int, d as int);
    let q = n / d;
    assert(k <= q) by (nonlinear_arith)
        requires
            k * d <= n,
            n == d * q + n % d,
            n % d < d,
            d >= 1,
    {
        if k > q {
            assert(k * d >= (q + 1) * d);
        }
    }
    assert(k * d <= q * d) by (nonlinear_arith)
        requires k <= q, d >= 1;
}

/// On grids narrower than 2^24 sites the block's column is exactly half the
/// width, rounded down, and at most `width - 4`; on grids lower than 2^16
/// sites its row is exactly three tenths of the height, rounded down, and at
/// most `height - 4`.
pub proof fn lemma_block_origin_is_half_and_three_tenths(width: nat, height: nat)
    ensures
        width < 0x100_0000 ==> block_x_origin(width as int)
            == if width / 2 <= width - 4 { (width / 2) as int } else { width - 4 },
        height < 0x1_0000 ==> block_y_origin(height as int)
            == if (3 * height) / 10 <= height - 4 { ((3 * height) / 10) as int } else { height - 4 },
{
    vstd::arithmetic::power2::lemma2_to64();
    if width < 0x100_0000 {
        lemma_bit_len_bound(width, 24);
    }
    if height < 0x1_0000 {
        let h = height;
        lemma_bit_len_bound(h, 16);
        assert(f32_round(h) == h);
        let big = h * f32_three_tenths_scaled();
        assert(big < 0x100_0000_0000) by (nonlinear_arith)
            requires big == h * 10066330, h < 0x1_0000;
        vstd::arithmetic::power2::lemma_pow2_adds(32, 8);
        lemma_bit_len_bound(big, 40);
        let d = lemma_f32_round_near(big);
        let f = f32_round(big);
        let unit = pow2(25);
        assert(unit == 0x200_0000);
        let t = (3 * h) / 10;
        // `d` divides the unit, so `t * unit` is a multiple of `d`.
        let m: nat = if bit_len(big) > 24 {
            let s = (bit_len(big) - 24) as nat;
            vstd::arithmetic::power2::lemma_pow2_adds(s, (25 - s) as nat);
            t * pow2((25 - s) as nat)
        } else {
            t * unit
        };
        assert(m * d == t * unit) by (nonlinear_arith)
            requires
                bit_len(big) > 24 ==> m == t * pow2((25 - (bit_len(big) - 24)) as nat)
                    && unit == pow2((bit_len(big) - 24) as nat) * pow2((25 - (bit_len(big) - 24)) as nat)
                    && d == pow2((bit_len(big) - 24) as nat),
                bit_len(big) <= 24 ==> m == t * unit && d == 1,
        ;
        assert(10 * big == 3 * h * unit + 4 * h);
        assert(t * unit <= big) by (nonlinear_arith)
            requires
                10 * big == 3 * h * unit + 4 * h,
                t == (3 * h) / 10,
                unit > 0,
        {
            vstd::arithmetic::div_mod::lemma_fundamental_div_mod((3 * h) as int, 10);
        }
        lemma_multiple_below(big, d, m);
        assert(d <= 0x1_0000) by {
            if bit_len(big) > 24 {
                let s = (bit_len(big) - 24) as nat;
                if s < 16 {
                    vstd::arithmetic::power2::lemma_pow2_strictly_increases(s, 16);
                }
            }
        }
        assert(t * unit <= f && f < t * unit + unit) by (nonlinear_arith)
            requires
                t * unit <= (big / d) * d,
                (big / d) * d <= f,
                2 * f <= 2 * big + d,
                d <= 0x1_0000,
                10 * big == 3 * h * unit + 4 * h,
                t == (3 * h) / 10,
                unit == 0x200_0000,
                h < 0x1_0000,
        {
            vstd::arithmetic::div_mod::lemma_fundamental_div_mod((3 * h) as int, 10);
        }
        vstd::arithmetic::div_mod::lemma_fundamental_div_mod_converse_div(
            f as int,
            unit as int,
            t as int,
            f - t * unit,
        );
        assert(f / unit == t);
    }
}

} // verus!
