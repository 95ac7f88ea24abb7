//! Shared helpers used across heuristic modules.
use vstd::prelude::*;
use crate::types::Severity;

verus! {

/// Additive scaling: `>= limit + crit_offset` is Critical, `>= limit + high_offset`
/// is High, anything else Medium.
pub open spec fn scale_offset(value: nat, limit: nat, high_offset: nat, crit_offset: nat) -> Severity {
    if value >= limit + crit_offset {
        Severity::Critical
    } else if value >= limit + high_offset {
        Severity::High
    } else {
        Severity::Medium
    }
}

/// Multiplicative scaling of a ratio `num / den` against `limit`:
/// `>= limit*3` is Critical, `>= limit*2` is High, anything else Medium.
pub open spec fn scale_ratio(num: nat, den: nat, limit: nat) -> Severity {
    if num >= (limit * 3) * den {
        Severity::Critical
    } else if num >= (limit * 2) * den {
        Severity::High
    } else {
        Severity::Medium
    }
}

/// Additive severity scaling for depth-based heuristics: `>= limit+crit_offset` → Critical,
/// `>= limit+high_offset` → High, else Medium.
pub fn severity_scale_offset(value: usize, limit: usize, high_offset: usize, crit_offset: usize) -> (r: Severity)
    requires
        limit + crit_offset <= usize::MAX,
        limit + high_offset <= usize::MAX,
    ensures
        r == scale_offset(value as nat, limit as nat, high_offset as nat, crit_offset as nat),
{
    if value >= limit + crit_offset {
        Severity::Critical
    } else if value >= limit + high_offset {
        Severity::High
    } else {
        Severity::Medium
    }
}

/// Multiplicative severity scaling of the ratio `num / den` against `limit`.
pub fn severity_scale(num: usize, den: usize, limit: usize) -> (r: Severity)
    ensures
        r == scale_ratio(num as nat, den as nat, limit as nat),
{
    if den == 0 {
        return Severity::Critical;
    }
    let q = (num / den) as u128;
    let l3 = (limit as u128) * 3;
    let l2 = (limit as u128) * 2;
    proof {
        lemma_le_div(num as nat, den as nat, limit as nat * 3);
        lemma_le_div(num as nat, den as nat, limit as nat * 2);
    }
    if q >= l3 {
        Severity::Critical
    } else if q >= l2 {
        Severity::High
    } else {
        Severity::Medium
    }
}

/// `k * d <= n` exactly when `k <= n / d`.
pub proof fn lemma_le_div(n: nat, d: nat, k: nat)
    requires
        d > 0,
    ensures
        (k * d <= n) == (k <= n / d),
{
    assert((k * d <= n) == (k <= n / d)) by (nonlinear_arith)
        requires
            d > 0,
    ;
}

/// Severity never falls as the value grows.
pub proof fn lemma_scale_offset_monotone(v1: nat, v2: nat, limit: nat, h: nat, c: nat)
    requires
        v1 <= v2,
    ensures
        scale_offset(v1, limit, h, c).rank() <= scale_offset(v2, limit, h, c).rank(),
{
}


/// Severity never falls as the ratio's numerator grows.
pub proof fn lemma_scale_ratio_monotone(n1: nat, n2: nat, den: nat, limit: nat)
    requires
        n1 <= n2,
    ensures
        scale_ratio(n1, den, limit).rank() <= scale_ratio(n2, den, limit).rank(),
{
}

} // verus!
