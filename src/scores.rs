use vstd::prelude::*;
use crate::stats::NetworkStats;
use vstd::arithmetic::div_mod::{
    lemma_div_is_ordered, lemma_fundamental_div_mod, lemma_fundamental_div_mod_converse,
};

verus! {

/// Stake above which the opportunity bonus is at its maximum (100 units).
pub const BONUS_STAKE_CAP: i128 = 1_000_000_000;

/// Stake bonus of the opportunity score: 2000 above the cap, else 1000 per
/// whole 50 units, truncated toward zero.
pub open spec fn stake_bonus(stake: int) -> int {
    if stake > 1_000_000_000 {
        2000
    } else if stake >= 0 {
        stake / 500_000_000 * 1000
    } else {
        0 - (0 - stake) / 500_000_000 * 1000
    }
}

pub open spec fn clamp_score(s: int) -> int {
    if s < 0 { 0 } else if s > 10000 { 10000 } else { s }
}

/// Opportunity score for a stake under a difficulty.
pub open spec fn opportunity_spec(difficulty: int, stake: int) -> int {
    clamp_score(5000 + (10000 - difficulty) / 4 - 2500 + stake_bonus(stake))
}

/// Base optimal stake (200 units), scaled by difficulty.
pub open spec fn scaled_optimal(difficulty: int) -> int {
    if difficulty > 7000 {
        3_000_000_000
    } else if difficulty < 3000 {
        1_500_000_000
    } else {
        2_000_000_000
    }
}

/// Optimal stake: the scaled base, capped at 120% of the average stake per farmer.
pub open spec fn optimal_stake_spec(n: NetworkStats) -> int {
    let optimal = scaled_optimal(n.farming_difficulty as int);
    let avg = if n.total_farmers > 0 {
        (n.total_staked as int) / (n.total_farmers as int)
    } else {
        optimal
    };
    let capped = avg * 120 / 100;
    if optimal < capped { optimal } else { capped }
}

pub open spec fn min_int(a: int, b: int) -> int {
    if a < b { a } else { b }
}

/// Difficulty balance: 20 within 40%..=60%, 15 within 30%..=70%, else 5.
pub open spec fn balance_score(difficulty: int) -> int {
    if 4000 <= difficulty <= 6000 {
        20
    } else if 3000 <= difficulty <= 7000 {
        15
    } else {
        5
    }
}

/// Health score: participation, staking, emission and balance sub-scores.
pub open spec fn health_spec(n: NetworkStats) -> int {
    let participation = min_int(30, (n.total_farmers as int) * 30 / 1000);
    let staking = min_int(25, (n.total_staked as int) * 25 / 10_000_000_000_000);
    let emission = min_int(25, (n.current_emission_rate as int) * 25 / 50000);
    let total = participation + staking + emission + balance_score(n.farming_difficulty as int);
    min_int(100, total)
}

/// Competition factor: 10000 up to 100 farmers, then 10 less per farmer, at least 5000.
pub open spec fn competition_factor(total_farmers: int) -> int {
    if total_farmers <= 100 {
        10000
    } else if 10000 - (total_farmers - 100) * 10 > 5000 {
        10000 - (total_farmers - 100) * 10
    } else {
        5000
    }
}

/// Predicted reward for a non-negative stake.
pub open spec fn reward_magnitude(stake: nat, difficulty: int, total_farmers: int) -> int {
    let base = (stake as int) / 100;
    let adjusted = base * (10000 - difficulty) / 10000;
    adjusted * competition_factor(total_farmers) / 10000
}

/// Predicted reward: each step truncates toward zero, so a negative stake
/// predicts the negation of its magnitude's reward.
pub open spec fn predict_spec(n: NetworkStats, stake: int) -> int {
    if stake >= 0 {
        reward_magnitude(stake as nat, n.farming_difficulty as int, n.total_farmers as int)
    } else {
        0 - reward_magnitude((0 - stake) as nat, n.farming_difficulty as int, n.total_farmers as int)
    }
}

/// Whether difficulty, competition and emission all favour farming now.
pub open spec fn optimal_time_spec(n: NetworkStats) -> bool {
    n.farming_difficulty < 8000 && n.total_farmers < 500 && n.current_emission_rate > 40000
}

/// Estimated daily sessions: two sessions for each of 70% of the farmers.
pub open spec fn activity_spec(n: NetworkStats) -> int {
    (n.total_farmers as int) * 2 * 70 / 100
}

/// Opportunity score of a stake, on the 0..=10000 scale.
pub fn opportunity_score(n: &NetworkStats, stake: i128) -> (r: u32)
    requires
        n.wf(),
    ensures
        r == opportunity_spec(n.farming_difficulty as int, stake as int),
        r <= 10000,
{
    let base: i64 = 5000 + ((10000 - n.farming_difficulty) / 4) as i64 - 2500;
    let bonus: i64 = if stake > BONUS_STAKE_CAP {
        2000
    } else if stake >= 0 {
        ((stake as u64) / 500_000_000) as i64 * 1000
    } else if stake <= -3_000_000_000 {
        -6000
    } else {
        0 - ((0 - stake) as u64 / 500_000_000) as i64 * 1000
    };
    proof {
        if stake <= -3_000_000_000 {
            assert(stake_bonus(stake as int) <= -6000) by (nonlinear_arith)
                requires
                    stake <= -3_000_000_000,
                    stake_bonus(stake as int) == 0 - (0 - stake) / 500_000_000 * 1000,
            ;
        }
    }
    let score: i64 = base + bonus;
    if score < 0 {
        0
    } else if score > 10000 {
        10000
    } else {
        score as u32
    }
}

/// Optimal stake under current conditions.
pub fn optimal_stake(n: &NetworkStats) -> (r: i128)
    requires
        n.wf(),
    ensures
        r == optimal_stake_spec(*n),
{
    let optimal: i128 = if n.farming_difficulty > 7000 {
        3_000_000_000
    } else if n.farming_difficulty < 3000 {
        1_500_000_000
    } else {
        2_000_000_000
    };
    let avg: u128 = if n.total_farmers > 0 {
        (n.total_staked as u128) / (n.total_farmers as u128)
    } else {
        optimal as u128
    };
    if avg >= optimal as u128 {
        proof {
            assert(avg * 120 / 100 >= avg) by (nonlinear_arith)
                requires avg >= 0;
        }
        optimal
    } else {
        let capped: i128 = (avg * 120 / 100) as i128;
        if optimal < capped { optimal } else { capped }
    }
}

/// Whether conditions currently favour farming.
pub fn optimal_time(n: &NetworkStats) -> (r: bool)
    ensures
        r == optimal_time_spec(*n),
{
    n.farming_difficulty < 8000 && n.total_farmers < 500 && n.current_emission_rate > 40000
}

/// Health score of the network, on the 0..=100 scale.
pub fn health_score(n: &NetworkStats) -> (r: u32)
    requires
        n.wf(),
    ensures
        r == health_spec(*n),
        r <= 100,
{
    let p: u64 = (n.total_farmers as u64) * 30 / 1000;
    let participation: u64 = if p < 30 { p } else { 30 };
    let staking: u64 = if n.total_staked >= 10_000_000_000_000 {
        proof {
            assert(n.total_staked * 25 / 10_000_000_000_000 >= 25) by (nonlinear_arith)
                requires n.total_staked >= 10_000_000_000_000;
        }
        25
    } else {
        let s: u64 = ((n.total_staked as u64) * 25 / 10_000_000_000_000) as u64;
        if s < 25 { s } else { 25 }
    };
    let e: u64 = (n.current_emission_rate as u64) * 25 / 50000;
    let emission: u64 = if e < 25 { e } else { 25 };
    let balance: u64 = if n.farming_difficulty >= 4000 && n.farming_difficulty <= 6000 {
        20
    } else if n.farming_difficulty >= 3000 && n.farming_difficulty <= 7000 {
        15
    } else {
        5
    };
    let total: u64 = participation + staking + emission + balance;
    if total < 100 { total as u32 } else { 100 }
}

/// `x * m / 10000`, computed without forming the full product.
pub fn scale_by(x: u128, m: u128) -> (r: u128)
    requires
        m <= 10000,
    ensures
        r == x * m / 10000,
        r <= x,
{
    let q: u128 = x / 10000;
    let rem: u128 = x % 10000;
    proof {
        let t = (rem * m) / 10000;
        let s = (rem * m) % 10000;
        lemma_fundamental_div_mod(x as int, 10000);
        lemma_fundamental_div_mod((rem * m) as int, 10000);
        assert(x * m == (q * m + t) * 10000 + s) by (nonlinear_arith)
            requires
                x == 10000 * q + rem,
                rem * m == 10000 * t + s,
        ;
        lemma_fundamental_div_mod_converse((x * m) as int, 10000, (q * m + t) as int, s as int);
        assert(x * m <= x * 10000) by (nonlinear_arith)
            requires m <= 10000;
        lemma_div_is_ordered((x * m) as int, (x * 10000) as int, 10000);
        lemma_fundamental_div_mod_converse((x * 10000) as int, 10000, x as int, 0);
        assert(rem * m < 10000 * 10000 + 1) by (nonlinear_arith)
            requires rem < 10000, m <= 10000;
    }
    q * m + rem * m / 10000
}

/// Predicted reward of a stake of the given size.
pub fn predict(n: &NetworkStats, stake: i128) -> (r: i128)
    requires
        n.wf(),
    ensures
        r == predict_spec(*n, stake as int),
{
    let mag: u128 = if stake >= 0 {
        stake as u128
    } else {
        ((0 - (stake + 1)) as u128) + 1
    };
    let base: u128 = mag / 100;
    let adjusted: u128 = scale_by(base, (10000 - n.farming_difficulty) as u128);
    let tf: u64 = n.total_farmers as u64;
    let factor: u128 = if tf <= 100 {
        10000
    } else if tf < 600 {
        (10000 - (tf - 100) * 10) as u128
    } else {
        5000
    };
    let out: u128 = scale_by(adjusted, factor);
    if stake >= 0 {
        out as i128
    } else {
        0 - (out as i128)
    }
}

/// More farmers never raise the competition factor, which stays within 5000..=10000.
pub proof fn lemma_competition_factor_ordered(tf1: int, tf2: int)
    requires
        tf1 <= tf2,
    ensures
        competition_factor(tf2) <= competition_factor(tf1),
        5000 <= competition_factor(tf2) <= 10000,
{
}

/// The reward magnitude grows with the stake and shrinks with difficulty and
/// with the number of farmers.
pub proof fn lemma_reward_magnitude_ordered(
    s1: nat,
    s2: nat,
    d1: int,
    d2: int,
    tf1: int,
    tf2: int,
)
    requires
        s1 <= s2,
        d2 <= d1 <= 10000,
        tf2 <= tf1,
    ensures
        0 <= reward_magnitude(s1, d1, tf1) <= reward_magnitude(s2, d2, tf2),
{
    let b1 = (s1 as int) / 100;
    let b2 = (s2 as int) / 100;
    lemma_div_is_ordered(s1 as int, s2 as int, 100);
    lemma_div_is_ordered(0, s1 as int, 100);
    let m1 = 10000 - d1;
    let m2 = 10000 - d2;
    assert(0 <= b1 * m1 <= b2 * m2) by (nonlinear_arith)
        requires 0 <= b1 <= b2, 0 <= m1 <= m2;
    let a1 = b1 * m1 / 10000;
    let a2 = b2 * m2 / 10000;
    lemma_div_is_ordered(b1 * m1, b2 * m2, 10000);
    lemma_div_is_ordered(0, b1 * m1, 10000);
    lemma_competition_factor_ordered(tf2, tf1);
    let c1 = competition_factor(tf1);
    let c2 = competition_factor(tf2);
    assert(0 <= a1 * c1 <= a2 * c2) by (nonlinear_arith)
        requires 0 <= a1 <= a2, 0 <= c1 <= c2;
    lemma_div_is_ordered(a1 * c1, a2 * c2, 10000);
    lemma_div_is_ordered(0, a1 * c1, 10000);
}

/// For a non-negative stake the prediction lies between 0 and the 1% base.
pub proof fn lemma_predict_within_base(n: NetworkStats, stake: int)
    requires
        n.wf(),
        stake >= 0,
    ensures
        0 <= predict_spec(n, stake) <= stake / 100,
{
    let b = stake / 100;
    lemma_div_is_ordered(0, stake, 100);
    let m = 10000 - n.farming_difficulty;
    assert(b * m <= b * 10000) by (nonlinear_arith)
        requires 0 <= b, m <= 10000;
    lemma_div_is_ordered(b * m, b * 10000, 10000);
    lemma_fundamental_div_mod_converse(b * 10000, 10000, b, 0);
    let a = b * m / 10000;
    lemma_reward_magnitude_ordered(stake as nat, stake as nat, n.farming_difficulty as int,
        n.farming_difficulty as int, n.total_farmers as int, n.total_farmers as int);
    let c = competition_factor(n.total_farmers as int);
    lemma_competition_factor_ordered(0, n.total_farmers as int);
    assert(a * c <= a * 10000) by (nonlinear_arith)
        requires 0 <= a, c <= 10000;
    lemma_div_is_ordered(a * c, a * 10000, 10000);
    lemma_fundamental_div_mod_converse(a * 10000, 10000, a, 0);
}

/// A larger non-negative stake never predicts a smaller reward.
pub proof fn lemma_predict_monotone_in_stake(n: NetworkStats, s1: int, s2: int)
    requires
        n.wf(),
        0 <= s1 <= s2,
    ensures
        predict_spec(n, s1) <= predict_spec(n, s2),
{
    lemma_reward_magnitude_ordered(s1 as nat, s2 as nat, n.farming_difficulty as int,
        n.farming_difficulty as int, n.total_farmers as int, n.total_farmers as int);
}

/// More difficulty or more farmers never raise the prediction of a
/// non-negative stake.
pub proof fn lemma_predict_antitone_in_conditions(n1: NetworkStats, n2: NetworkStats, stake: int)
    requires
        n2.wf(),
        n1.farming_difficulty <= n2.farming_difficulty,
        n1.total_farmers <= n2.total_farmers,
        stake >= 0,
    ensures
        predict_spec(n2, stake) <= predict_spec(n1, stake),
{
    lemma_reward_magnitude_ordered(stake as nat, stake as nat, n2.farming_difficulty as int,
        n1.farming_difficulty as int, n2.total_farmers as int, n1.total_farmers as int);
}

/// Estimated number of sessions in a day; an estimate from the farmer count,
/// not a count of recorded sessions.
pub fn activity_estimate(n: &NetworkStats) -> (r: u64)
    ensures
        r == activity_spec(*n),
{
    (n.total_farmers as u64) * 2 * 70 / 100
}

/// Both scores stay on their scales for every well-formed set of aggregates
/// and every stake.
pub proof fn lemma_scores_bounded(n: NetworkStats, stake: int)
    requires
        n.wf(),
    ensures
        0 <= opportunity_spec(n.farming_difficulty as int, stake) <= 10000,
        0 <= health_spec(n) <= 100,
{
    assert(n.total_staked * 25 / 10_000_000_000_000 >= 0) by (nonlinear_arith)
        requires n.total_staked >= 0;
}

} // verus!
