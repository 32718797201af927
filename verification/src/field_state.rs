//! The kernel-side state of the field substrate that the glue layer itself
//! owns: the grid dimensions it maps PIDs into, the evolution counter, and
//! the per-PID trace baselines that turn radiation into received IPC.
//!
//! The field itself evolves elsewhere; each method here makes the decision
//! that the corresponding kernel operation needs (which site to touch,
//! whether the request is valid, which PID runs next) and keeps the
//! bookkeeping that belongs to the glue layer.

use vstd::prelude::*;
use vstd::arithmetic::power2::pow2;
use crate::pid_map::{site_for_pid, spec_site_for_pid, MAX_PIDS};

verus! {

/// Number of distinct values of the evolution counter (it wraps at 2^64).
pub open spec fn counter_modulus() -> int {
    0x1_0000_0000_0000_0000
}

/// The evolution counter after `moments` more moments, starting from `age`.
pub open spec fn age_after(age: u64, moments: int) -> u64 {
    ((age + moments) % counter_modulus()) as u64
}

/// A call on the glue state, as far as the evolution counter is concerned.
pub enum GlueCall {
    /// `evolve_once`.
    EvolveOnce,
    /// `evolve_for` with this many moments.
    EvolveFor(u64),
    /// Any other method (`age`, `site_index`, `stimulate`,
    /// `ipc_send_as_energy`, `ipc_recv_as_radiation`, `scheduler_pick`).
    Other,
}

/// The evolution counter after one call, starting from `age`.
pub open spec fn age_step(age: u64, call: GlueCall) -> u64 {
    match call {
        GlueCall::EvolveOnce => age_after(age, 1),
        GlueCall::EvolveFor(moments) => age_after(age, moments as int),
        GlueCall::Other => age,
    }
}

/// The moments a call evolves.
pub open spec fn call_moments(call: GlueCall) -> nat {
    match call {
        GlueCall::EvolveOnce => 1,
        GlueCall::EvolveFor(moments) => moments as nat,
        GlueCall::Other => 0,
    }
}

/// The evolution counter after the calls `calls`, in order, from `age`.
pub open spec fn age_through(age: u64, calls: Seq<GlueCall>) -> u64
    decreases calls.len(),
{
    if calls.len() == 0 {
        age
    } else {
        age_step(age_through(age, calls.drop_last()), calls.last())
    }
}

/// The moments that the calls `calls` evolve in all.
pub open spec fn total_moments(calls: Seq<GlueCall>) -> nat
    decreases calls.len(),
{
    if calls.len() == 0 {
        0
    } else {
        total_moments(calls.drop_last()) + call_moments(calls.last())
    }
}

/// The row-major index of `pid`'s site in a `width`-wide grid.
pub open spec fn spec_site_index(width: int, height: int, pid: int) -> Option<int> {
    match spec_site_for_pid(width, height, pid) {
        Some((x, y)) => Some(y * width + x),
        None => None,
    }
}

/// A receive for `pid` with the trace `current`: the baseline it hands back
/// and the baselines it leaves. A PID without a site gets nothing and
/// changes nothing; otherwise its old baseline comes back and `current`
/// takes its place.
pub open spec fn spec_recv<T>(width: int, height: int, baselines: Seq<T>, pid: int, current: T) -> (Option<T>, Seq<T>) {
    if spec_site_index(width, height, pid) is Some {
        (Some(baselines[pid]), baselines.update(pid, current))
    } else {
        (None, baselines)
    }
}

/// Bit `pid` of `mask` is set: PID `pid` is Ready.
pub open spec fn is_ready(mask: u16, pid: int) -> bool {
    0 <= pid < MAX_PIDS && (mask as nat / pow2(pid as nat)) % 2 == 1
}

/// `pid` competes for the next time slice: it is Ready, it has a site, and
/// its site's score is known.
pub open spec fn eligible(width: int, height: int, mask: u16, scores: Seq<Option<u32>>, pid: int) -> bool {
    &&& is_ready(mask, pid)
    &&& spec_site_for_pid(width, height, pid) is Some
    &&& pid < scores.len()
    &&& scores[pid] is Some
}

/// `r` is the scheduler's choice among the PIDs below `n`: `None` when none of
/// them is eligible, else the eligible PID with the highest score, the lowest
/// such PID when several share it.
pub open spec fn is_pick_below(width: int, height: int, mask: u16, scores: Seq<Option<u32>>, n: int, r: Option<usize>) -> bool {
    match r {
        None => forall|q: int| 0 <= q < n ==> !eligible(width, height, mask, scores, q),
        Some(p) => {
            &&& p < n
            &&& eligible(width, height, mask, scores, p as int)
            &&& forall|q: int| 0 <= q < n && #[trigger] eligible(width, height, mask, scores, q) ==> {
                &&& scores[q].unwrap() <= scores[p as int].unwrap()
                &&& (q < p ==> scores[q].unwrap() < scores[p as int].unwrap())
            }
        },
    }
}

/// `r` is the scheduler's choice among all PIDs.
pub open spec fn is_pick(width: int, height: int, mask: u16, scores: Seq<Option<u32>>, r: Option<usize>) -> bool {
    is_pick_below(width, height, mask, scores, MAX_PIDS as int, r)
}

/// The glue layer's state for one field.
pub struct FieldState<T> {
    width: usize,
    height: usize,
    last_trace: Vec<T>,
    evolution_count: u64,
}

impl<T> FieldState<T> {
    #[verifier::type_invariant]
    spec fn well_formed(self) -> bool {
        &&& self.last_trace@.len() == MAX_PIDS
        &&& self.width * self.height <= usize::MAX
    }

    /// Width of the field grid.
    pub closed spec fn grid_width(&self) -> usize {
        self.width
    }

    /// Height of the field grid.
    pub closed spec fn grid_height(&self) -> usize {
        self.height
    }

    /// The per-PID trace baselines, indexed by PID.
    pub closed spec fn baselines(&self) -> Seq<T> {
        self.last_trace@
    }

    /// Number of moments evolved since construction, modulo 2^64.
    pub closed spec fn evolutions(&self) -> u64 {
        self.evolution_count
    }

    /// Starts the glue state for a field of `width` x `height` sites, every
    /// PID's trace baseline set to `zero`, and no moments evolved.
    pub fn new(width: usize, height: usize, zero: T) -> (r: Self)
        where T: Copy
        requires
            width * height <= usize::MAX,
        ensures
            r.grid_width() == width,
            r.grid_height() == height,
            r.evolutions() == 0,
            r.baselines() == Seq::new(MAX_PIDS as nat, |i: int| zero),
            r.baselines().len() == MAX_PIDS,
    {
        let mut last_trace: Vec<T> = Vec::new();
        let mut i: usize = 0;
        while i < MAX_PIDS
            invariant
                i <= MAX_PIDS,
                last_trace@ == Seq::new(i as nat, |k: int| zero),
            decreases MAX_PIDS - i,
        {
            last_trace.push(zero);
            i = i + 1;
        }
        FieldState { width, height, last_trace, evolution_count: 0 }
    }

    /// Records that the field advanced one moment.
    pub fn evolve_once(&mut self)
        ensures
            final(self).evolutions() == age_after(old(self).evolutions(), 1),
            final(self).evolutions() == age_step(old(self).evolutions(), GlueCall::EvolveOnce),
            final(self).grid_width() == old(self).grid_width(),
            final(self).grid_height() == old(self).grid_height(),
            final(self).baselines() == old(self).baselines(),
            final(self).baselines().len() == MAX_PIDS,
    {
        proof { use_type_invariant(&*self); }
        self.evolution_count = self.evolution_count.wrapping_add(1);
    }

    /// Records that the field advanced `moments` moments.
    pub fn evolve_for(&mut self, moments: u64)
        ensures
            final(self).evolutions() == age_after(old(self).evolutions(), moments as int),
            final(self).evolutions() == age_step(old(self).evolutions(), GlueCall::EvolveFor(moments)),
            final(self).grid_width() == old(self).grid_width(),
            final(self).grid_height() == old(self).grid_height(),
            final(self).baselines() == old(self).baselines(),
            final(self).baselines().len() == MAX_PIDS,
    {
        proof { use_type_invariant(&*self); }
        self.evolution_count = self.evolution_count.wrapping_add(moments);
    }

    /// Number of moments the field has evolved since construction.
    pub fn age(&self) -> (r: u64)
        ensures
            r == self.evolutions(),
            self.baselines().len() == MAX_PIDS,
            self.grid_width() * self.grid_height() <= usize::MAX,
    {
        proof { use_type_invariant(self); }
        self.evolution_count
    }

    /// The row-major index of `pid`'s site, or `None` when the PID is out of
    /// range or the grid cannot hold the PID block.
    pub fn site_index(&self, pid: usize) -> (r: Option<usize>)
        ensures
            match spec_site_index(self.grid_width() as int, self.grid_height() as int, pid as int) {
                None => r is None,
                Some(i) => r == Some(i as usize),
            },
            r matches Some(i) ==> i < self.grid_width() * self.grid_height(),
            self.baselines().len() == MAX_PIDS,
    {
        proof { use_type_invariant(self); }
        match site_for_pid(self.width, self.height, pid) {
            None => None,
            Some((x, y)) => {
                let w = self.width;
                let h = self.height;
                assert(y * w + x < w * h) by (nonlinear_arith)
                    requires x < w, y < h;
                Some(y * w + x)
            }
        }
    }

    /// The site index at which to inject energy for `pid`, or `None` when
    /// the PID is out of range or has no site.
    pub fn stimulate(&self, pid: usize) -> (r: Option<usize>)
        ensures
            match spec_site_index(self.grid_width() as int, self.grid_height() as int, pid as int) {
                None => r is None,
                Some(i) => r == Some(i as usize),
            },
            self.baselines().len() == MAX_PIDS,
    {
        proof { use_type_invariant(self); }
        if pid >= MAX_PIDS {
            return None;
        }
        self.site_index(pid)
    }

    /// The sender's and the receiver's site indices for a message from `src`
    /// to `dst`, or `None` when either PID is out of range or has no site, or
    /// when the two are the same PID.
    pub fn ipc_send_as_energy(&self, src: usize, dst: usize) -> (r: Option<(usize, usize)>)
        ensures
            ({
                let w = self.grid_width() as int;
                let h = self.grid_height() as int;
                if src >= MAX_PIDS || dst >= MAX_PIDS || src == dst {
                    r is None
                } else {
                    match (spec_site_index(w, h, src as int), spec_site_index(w, h, dst as int)) {
                        (Some(si), Some(di)) => r == Some((si as usize, di as usize)),
                        _ => r is None,
                    }
                }
            }),
            self.baselines().len() == MAX_PIDS,
    {
        proof { use_type_invariant(self); }
        if src >= MAX_PIDS || dst >= MAX_PIDS || src == dst {
            return None;
        }
        match (self.site_index(src), self.site_index(dst)) {
            (Some(si), Some(di)) => Some((si, di)),
            _ => None,
        }
    }

    /// Scheduler hook: among the PIDs whose bit is set in `ready_mask` (bit
    /// `i` set means PID `i` is Ready) and that have a site, the one whose
    /// score is highest, the lowest PID on a tie. `scores[pid]` is the order
    /// key of PID `pid`'s score, `None` where the score does not compete.
    pub fn scheduler_pick(&self, ready_mask: u16, scores: &Vec<Option<u32>>) -> (r: Option<usize>)
        requires
            scores@.len() == MAX_PIDS,
        ensures
            is_pick(self.grid_width() as int, self.grid_height() as int, ready_mask, scores@, r),
            self.baselines().len() == MAX_PIDS,
    {
        proof { use_type_invariant(self); }
        let ghost w = self.grid_width() as int;
        let ghost h = self.grid_height() as int;
        if ready_mask == 0 {
            assert forall|q: int| 0 <= q < MAX_PIDS implies !eligible(w, h, ready_mask, scores@, q) by {
                vstd::arithmetic::power2::lemma_pow2_pos(q as nat);
                vstd::arithmetic::div_mod::lemma_basic_div(0, pow2(q as nat) as int);
            }
            return None;
        }
        let mut best: Option<usize> = None;
        let mut best_score: u32 = 0;
        let mut pid: usize = 0;
        while pid < MAX_PIDS
            invariant
                pid <= MAX_PIDS,
                scores@.len() == MAX_PIDS,
                w == self.grid_width() as int,
                h == self.grid_height() as int,
                is_pick_below(w, h, ready_mask, scores@, pid as int, best),
                best matches Some(b) ==> scores@[b as int] == Some(best_score),
            decreases MAX_PIDS - pid,
        {
            let bit: u16 = 1u16 << (pid as u16);
            let p16 = pid as u16;
            assert(((ready_mask & (1u16 << p16)) == 0u16) == ((ready_mask >> p16) % 2 != 1)) by (bit_vector)
                requires p16 < 16;
            proof {
                vstd::bits::lemma_u16_shr_is_div(ready_mask, p16);
            }
            if (ready_mask & bit) != 0 {
                if let Some(_) = site_for_pid(self.width, self.height, pid) {
                    if let Some(k) = scores[pid] {
                        let better = match best {
                            None => true,
                            Some(_) => k > best_score,
                        };
                        if better {
                            best = Some(pid);
                            best_score = k;
                        }
                    }
                }
            }
            pid = pid + 1;
        }
        best
    }

    /// Replaces `pid`'s trace baseline with `current` and hands back the one
    /// it replaces.
    pub fn ipc_recv_as_radiation(&mut self, pid: usize, current: T) -> (r: Option<T>)
        where T: Copy
        ensures
            (r, final(self).baselines()) == spec_recv(
                old(self).grid_width() as int,
                old(self).grid_height() as int,
                old(self).baselines(),
                pid as int,
                current,
            ),
            final(self).grid_width() == old(self).grid_width(),
            final(self).grid_height() == old(self).grid_height(),
            final(self).evolutions() == old(self).evolutions(),
            final(self).evolutions() == age_step(old(self).evolutions(), GlueCall::Other),
            final(self).baselines().len() == MAX_PIDS,
    {
        proof { use_type_invariant(&*self); }
        if pid >= MAX_PIDS {
            return None;
        }
        match self.site_index(pid) {
            None => None,
            Some(_) => {
                let previous = self.last_trace[pid];
                let mut updated: Vec<T> = Vec::new();
                let mut i: usize = 0;
                while i < MAX_PIDS
                    invariant
                        i <= MAX_PIDS,
                        pid < MAX_PIDS,
                        self.last_trace@.len() == MAX_PIDS,
                        updated@ == self.last_trace@.update(pid as int, current).take(i as int),
                    decreases MAX_PIDS - i,
                {
                    if i == pid {
                        updated.push(current);
                    } else {
                        updated.push(self.last_trace[i]);
                    }
                    i = i + 1;
                }
                self.last_trace = updated;
                Some(previous)
            }
        }
    }
}

/// An empty byte vector; keeps `Vec` in use where no per-PID history buffer
/// exists yet.
pub fn _vec_anchor() -> (r: Vec<u8>)
    ensures
        r@ == Seq::<u8>::empty(),
{
    Vec::new()
}

} // verus!
