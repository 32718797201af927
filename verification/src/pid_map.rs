//! The fixed mapping from PIDs to field sites.
//!
//! PIDs `0..MAX_PIDS` occupy a 4x4 block of sites whose origin sits at half
//! the width (just inside the observation band) and three tenths of the
//! height, clamped so that the whole block stays inside the grid.
//!
//! Both fractions are taken the way single-precision arithmetic takes them:
//! the grid size is first rounded to the nearest `f32`, the product with
//! `0.5` or with the `f32` nearest `0.3` is rounded to the nearest `f32`
//! again, and the result is rounded down. On grids up to a few million sites
//! a side this is exactly `width / 2` and `3 * height / 10`; on larger grids
//! the rounding can move the origin by one, and the block moves with it.

use vstd::prelude::*;
use vstd::arithmetic::power2::pow2;

verus! {

/// Maximum number of PIDs the glue layer tracks (the kernel's task-slot count).
pub const MAX_PIDS: usize = 16;

/// Number of binary digits of `n` (none for 0).
pub open spec fn bit_len(n: nat) -> nat
    decreases n,
{
    if n == 0 {
        0
    } else {
        1 + bit_len(n / 2)
    }
}

/// `n / 2^s` rounded to the nearest integer, a tie going to the even one.
pub open spec fn div_pow2_round_even(n: nat, s: nat) -> nat {
    let d = pow2(s);
    let q = n / d;
    let r = n % d;
    if 2 * r < d {
        q
    } else if 2 * r > d {
        q + 1
    } else if q % 2 == 0 {
        q
    } else {
        q + 1
    }
}

/// `n` rounded to 24 significant binary digits, a tie going to the even
/// significand: the value of the `f32` nearest `n`. Scaling by a power of two
/// leaves it unchanged, so `f32_round(m) / 2^k` is also the `f32` nearest
/// `m / 2^k`.
pub open spec fn f32_round(n: nat) -> nat {
    let len = bit_len(n);
    if len <= 24 {
        n
    } else {
        let s = (len - 24) as nat;
        div_pow2_round_even(n, s) * pow2(s)
    }
}

/// The `f32` nearest `0.3` is this number divided by `2^25`.
pub open spec fn f32_three_tenths_scaled() -> nat {
    10066330
}

/// Column of the PID block's left edge: half the width in `f32`, rounded
/// down, at most `width - 4`.
pub open spec fn block_x_origin(width: int) -> int {
    let half = f32_round(width as nat) / 2;
    if half <= width - 4 { half as int } else { width - 4 }
}

/// Row of the PID block's top edge: three tenths of the height in `f32`,
/// rounded down, at most `height - 4`.
pub open spec fn block_y_origin(height: int) -> int {
    let tenths = f32_round(f32_round(height as nat) * f32_three_tenths_scaled()) / pow2(25);
    if tenths <= height - 4 { tenths as int } else { height - 4 }
}

/// A number below `2^k` has at most `k` binary digits.
pub(crate) proof fn lemma_bit_len_bound(n: nat, k: nat)
    requires
        n < pow2(k),
    ensures
        bit_len(n) <= k,
    decreases k,
{
    if n > 0 {
        if k == 0 {
            vstd::arithmetic::power2::lemma2_to64();
        } else {
            vstd::arithmetic::power2::lemma_pow2_unfold(k);
            lemma_bit_len_bound(n / 2, (k - 1) as nat);
        }
    }
}

/// A positive number is at least 2 to the power of its number of digits
/// less one.
pub(crate) proof fn lemma_bit_len_low(n: nat)
    requires
        n > 0,
    ensures
        bit_len(n) >= 1,
        pow2((bit_len(n) - 1) as nat) <= n,
    decreases n,
{
    assert(bit_len(n) == 1 + bit_len(n / 2));
    if n / 2 == 0 {
        assert(bit_len(0) == 0);
        vstd::arithmetic::power2::lemma2_to64();
    } else {
        lemma_bit_len_low(n / 2);
        let e = (bit_len(n) - 1) as nat;
        vstd::arithmetic::power2::lemma_pow2_unfold(e);
        assert(pow2(e) == 2 * pow2((e - 1) as nat));
        assert(2 * (n / 2) <= n);
    }
}

/// The `f32` nearest `n`, for `n` below `2^100`; it is at most `2 * n`.
fn nearest_f32(n: u128) -> (r: u128)
    requires
        n < 0x10_0000_0000_0000_0000_0000_0000,
    ensures
        r == f32_round(n as nat),
        r <= 2 * n,
{
    proof {
        vstd::arithmetic::power2::lemma2_to64();
        vstd::arithmetic::power2::lemma_pow2_adds(64, 32);
        vstd::arithmetic::power2::lemma_pow2_adds(96, 4);
        vstd::arithmetic::power2::lemma_pow2_adds(64, 12);
        lemma_bit_len_bound(n as nat, 100);
    }
    let mut len: u32 = 0;
    let mut m: u128 = n;
    while m > 0
        invariant
            bit_len(n as nat) == len + bit_len(m as nat),
            bit_len(n as nat) <= 100,
        decreases m,
    {
        m = m / 2;
        len = len + 1;
    }
    if len <= 24 {
        return n;
    }
    let s: u32 = len - 24;
    let mut d: u128 = 1;
    let mut i: u32 = 0;
    while i < s
        invariant
            i <= s,
            s <= 76,
            d == pow2(i as nat),
            pow2(76) == 0x1000_0000_0000_0000_0000,
        decreases s - i,
    {
        proof {
            vstd::arithmetic::power2::lemma_pow2_unfold((i + 1) as nat);
            if i + 1 < 76 {
                vstd::arithmetic::power2::lemma_pow2_strictly_increases((i + 1) as nat, 76);
            }
        }
        d = d * 2;
        i = i + 1;
    }
    proof {
        vstd::arithmetic::power2::lemma_pow2_pos(s as nat);
        if s < 76 {
            vstd::arithmetic::power2::lemma_pow2_strictly_increases(s as nat, 76);
        }
        lemma_bit_len_low(n as nat);
        vstd::arithmetic::power2::lemma_pow2_strictly_increases(s as nat, (len - 1) as nat);
    }
    let q = n / d;
    let rem = n % d;
    let rounded = if 2 * rem < d {
        q
    } else if 2 * rem > d {
        q + 1
    } else if q % 2 == 0 {
        q
    } else {
        q + 1
    };
    assert(rounded * d <= n + d) by (nonlinear_arith)
        requires
            d > 0,
            q == n / d,
            rounded <= q + 1,
    {
        vstd::arithmetic::div_mod::lemma_fundamental_div_mod(n as int, d as int);
    }
    rounded * d
}

/// The site `(x, y)` of `pid` in a `width` x `height` grid, or `None` when the
/// PID is out of range or the grid is too small to hold the 4x4 block.
pub open spec fn spec_site_for_pid(width: int, height: int, pid: int) -> Option<(int, int)> {
    if pid < 0 || pid >= MAX_PIDS || width < 4 || height < 4 {
        None
    } else {
        Some((block_x_origin(width) + pid % 4, block_y_origin(height) + pid / 4))
    }
}

/// Maps a PID to an (x, y) site inside the observation-access region.
pub fn site_for_pid(width: usize, height: usize, pid: usize) -> (r: Option<(usize, usize)>)
    ensures
        match spec_site_for_pid(width as int, height as int, pid as int) {
            None => r is None,
            Some((x, y)) => r == Some((x as usize, y as usize)) && 0 <= x < width && 0 <= y < height,
        },
        r matches Some((x, y)) ==> x < width && y < height,
{
    if pid >= MAX_PIDS {
        return None;
    }
    if width < 4 || height < 4 {
        return None;
    }
    proof {
        vstd::arithmetic::power2::lemma2_to64();
    }
    let rounded_width = nearest_f32(width as u128);
    let half = rounded_width / 2;
    let x_origin: usize = if half <= (width - 4) as u128 { half as usize } else { width - 4 };
    let rounded_height = nearest_f32(height as u128);
    let product = nearest_f32(rounded_height * 10066330);
    let tenths = product / 0x200_0000;
    let y_origin: usize = if tenths <= (height - 4) as u128 { tenths as usize } else { height - 4 };
    let row = pid / 4;
    let col = pid % 4;
    Some((x_origin + col, y_origin + row))
}

} // verus!
