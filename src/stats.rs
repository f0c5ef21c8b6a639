use vstd::prelude::*;

verus! {

/// Fixed-point scale of a success rate: 10000 stands for 100.00%.
pub const RATE_SCALE: u64 = 10000;

/// Per-farmer statistics, one record per farmer identity.
#[derive(Clone, Copy, Debug, PartialEq, Eq)]
pub struct FarmerData {
    pub address: u64,
    pub total_staked: i128,
    pub total_rewards: i128,
    pub farms_completed: u32,
    pub last_plant_time: u64,
    pub last_harvest_time: u64,
    /// Percentage scaled by 100 (8500 stands for 85.00%).
    pub success_rate: u32,
}

/// Network-wide aggregates, one per deployment.
#[derive(Clone, Copy, Debug, PartialEq, Eq)]
pub struct NetworkStats {
    pub total_farmers: u32,
    pub total_staked: i128,
    pub total_rewards_distributed: i128,
    /// Emission per minute, scaled by 100.
    pub current_emission_rate: u32,
    /// Difficulty on a 0..=10000 scale.
    pub farming_difficulty: u32,
    pub last_updated: u64,
}

/// One stake-and-attempt cycle of a farmer.
#[derive(Clone, Copy, Debug, PartialEq, Eq)]
pub struct FarmingSession {
    pub farmer: u64,
    pub stake_amount: i128,
    pub plant_time: u64,
    pub target_hash: u64,
    pub is_active: bool,
    pub reward_claimed: bool,
}

impl FarmerData {
    /// A farmer's record is well formed when its success rate is a percentage.
    pub open spec fn wf(&self) -> bool {
        self.success_rate <= 10000
    }
}

impl NetworkStats {
    /// Aggregates are well formed when the sums are non-negative and the
    /// difficulty lies on its scale.
    pub open spec fn wf(&self) -> bool {
        &&& self.total_staked >= 0
        &&& self.total_rewards_distributed >= 0
        &&& self.farming_difficulty <= 10000
    }
}

/// The empty record of a farmer that has not farmed yet.
pub open spec fn new_farmer_spec(address: u64) -> FarmerData {
    FarmerData {
        address,
        total_staked: 0,
        total_rewards: 0,
        farms_completed: 0,
        last_plant_time: 0,
        last_harvest_time: 0,
        success_rate: 0,
    }
}

/// The aggregates right after initialization.
pub open spec fn default_stats_spec(now: u64) -> NetworkStats {
    NetworkStats {
        total_farmers: 0,
        total_staked: 0,
        total_rewards_distributed: 0,
        current_emission_rate: 50000,
        farming_difficulty: 5000,
        last_updated: now,
    }
}

/// The incremental success-rate formula: the successes implied by the previous
/// rate over `before` sessions, plus this one, over `before + 1` sessions.
pub open spec fn next_success_rate(rate: int, before: int, success: bool) -> int {
    let prior = if before == 0 { 0 } else { rate * before / 10000 };
    let successes = if success { prior + 1 } else { prior };
    successes * 10000 / (before + 1)
}

/// Difficulty for a number of farmers: 30% plus 0.1% per farmer, at most 90%.
pub open spec fn difficulty_for(total_farmers: int) -> int {
    if 3000 + total_farmers * 10 < 9000 {
        3000 + total_farmers * 10
    } else {
        9000
    }
}

/// Whether recording a session would overflow one of the farmer's sums.
pub open spec fn farmer_overflows(f: FarmerData, stake: i128, success: bool, reward: i128) -> bool {
    ||| f.total_staked + stake > i128::MAX
    ||| (success && f.total_rewards + reward > i128::MAX)
    ||| f.farms_completed == u32::MAX
}

/// The farmer's record after one session.
pub open spec fn farmer_after(
    f: FarmerData,
    stake: i128,
    success: bool,
    reward: i128,
    now: u64,
) -> FarmerData {
    FarmerData {
        address: f.address,
        total_staked: (f.total_staked + stake) as i128,
        total_rewards: if success { (f.total_rewards + reward) as i128 } else { f.total_rewards },
        farms_completed: (f.farms_completed + 1) as u32,
        last_plant_time: now,
        last_harvest_time: if success { now } else { f.last_harvest_time },
        success_rate: next_success_rate(
            f.success_rate as int,
            f.farms_completed as int,
            success,
        ) as u32,
    }
}

/// Whether folding a session into the aggregates would overflow one of them.
pub open spec fn network_overflows(
    n: NetworkStats,
    first: bool,
    stake: i128,
    success: bool,
    reward: i128,
) -> bool {
    ||| (first && n.total_farmers == u32::MAX)
    ||| n.total_staked + stake > i128::MAX
    ||| (success && n.total_rewards_distributed + reward > i128::MAX)
}

/// The aggregates after one session; `first` tells whether it was the
/// farmer's first.
pub open spec fn network_after(
    n: NetworkStats,
    first: bool,
    stake: i128,
    success: bool,
    reward: i128,
    now: u64,
) -> NetworkStats {
    let farmers = if first { n.total_farmers + 1 } else { n.total_farmers as int };
    NetworkStats {
        total_farmers: farmers as u32,
        total_staked: (n.total_staked + stake) as i128,
        total_rewards_distributed: if success {
            (n.total_rewards_distributed + reward) as i128
        } else {
            n.total_rewards_distributed
        },
        current_emission_rate: n.current_emission_rate,
        farming_difficulty: difficulty_for(farmers) as u32,
        last_updated: now,
    }
}

/// The success-rate formula keeps a rate within 0..=10000.
pub proof fn lemma_next_rate_bounded(rate: int, before: int, success: bool)
    requires
        0 <= rate <= 10000,
        0 <= before,
    ensures
        0 <= next_success_rate(rate, before, success) <= 10000,
{
    let prior = if before == 0 { 0 } else { rate * before / 10000 };
    assert(0 <= prior <= before) by (nonlinear_arith)
        requires
            prior == (if before == 0 { 0 } else { rate * before / 10000 }),
            0 <= rate <= 10000,
            0 <= before,
    ;
    let successes = if success { prior + 1 } else { prior };
    assert(0 <= successes * 10000 / (before + 1) <= 10000) by (nonlinear_arith)
        requires
            0 <= successes <= before + 1,
            0 <= before,
    ;
}

/// Difficulty stays within 30%..=90% for every number of farmers.
pub proof fn lemma_difficulty_bounded(total_farmers: int)
    requires
        0 <= total_farmers,
    ensures
        3000 <= difficulty_for(total_farmers) <= 9000,
{
}

/// The record of a farmer that has not farmed yet.
pub fn new_farmer(address: u64) -> (r: FarmerData)
    ensures
        r == new_farmer_spec(address),
        r.wf(),
{
    FarmerData {
        address,
        total_staked: 0,
        total_rewards: 0,
        farms_completed: 0,
        last_plant_time: 0,
        last_harvest_time: 0,
        success_rate: 0,
    }
}

/// The aggregates that a fresh deployment starts from.
pub fn default_stats(now: u64) -> (r: NetworkStats)
    ensures
        r == default_stats_spec(now),
        r.wf(),
{
    NetworkStats {
        total_farmers: 0,
        total_staked: 0,
        total_rewards_distributed: 0,
        current_emission_rate: 50000,
        farming_difficulty: 5000,
        last_updated: now,
    }
}

/// Difficulty for a number of farmers.
pub fn compute_difficulty(total_farmers: u32) -> (r: u32)
    ensures
        r == difficulty_for(total_farmers as int),
        3000 <= r <= 9000,
{
    let d: u64 = 3000 + (total_farmers as u64) * 10;
    if d < 9000 {
        d as u32
    } else {
        9000
    }
}

/// Folds one session into a farmer's record, or `None` where a sum or the
/// session counter would overflow.
pub fn apply_farmer_session(
    f: &FarmerData,
    stake: i128,
    success: bool,
    reward: i128,
    now: u64,
) -> (r: Option<FarmerData>)
    requires
        f.wf(),
        stake >= 0,
        reward >= 0,
    ensures
        r is None <==> farmer_overflows(*f, stake, success, reward),
        r matches Some(g) ==> g == farmer_after(*f, stake, success, reward, now) && g.wf(),
{
    let total_staked = match f.total_staked.checked_add(stake) {
        Some(v) => v,
        None => return None,
    };
    let total_rewards = if success {
        match f.total_rewards.checked_add(reward) {
            Some(v) => v,
            None => return None,
        }
    } else {
        f.total_rewards
    };
    if f.farms_completed == u32::MAX {
        return None;
    }
    let before: u64 = f.farms_completed as u64;
    let rate: u64 = f.success_rate as u64;
    let prior: u64 = if before == 0 {
        0
    } else {
        assert(rate * before <= 10000 * 0xffff_ffff) by (nonlinear_arith)
            requires
                rate <= 10000,
                before <= 0xffff_ffff,
        ;
        rate * before / RATE_SCALE
    };
    proof {
        assert(prior <= before) by (nonlinear_arith)
            requires
                prior == (if before == 0 { 0 } else { rate * before / 10000 }),
                rate <= 10000,
        ;
        lemma_next_rate_bounded(rate as int, before as int, success);
    }
    let successes: u64 = if success { prior + 1 } else { prior };
    let new_rate: u64 = successes * RATE_SCALE / (before + 1);
    Some(FarmerData {
        address: f.address,
        total_staked,
        total_rewards,
        farms_completed: f.farms_completed + 1,
        last_plant_time: now,
        last_harvest_time: if success { now } else { f.last_harvest_time },
        success_rate: new_rate as u32,
    })
}

/// Folds one session into the aggregates, or `None` where a sum or the farmer
/// count would overflow. `first` tells whether it is the farmer's first session.
pub fn apply_network_session(
    n: &NetworkStats,
    first: bool,
    stake: i128,
    success: bool,
    reward: i128,
    now: u64,
) -> (r: Option<NetworkStats>)
    requires
        n.wf(),
        stake >= 0,
        reward >= 0,
    ensures
        r is None <==> network_overflows(*n, first, stake, success, reward),
        r matches Some(m) ==> m == network_after(*n, first, stake, success, reward, now) && m.wf(),
{
    let total_farmers = if first {
        if n.total_farmers == u32::MAX {
            return None;
        }
        n.total_farmers + 1
    } else {
        n.total_farmers
    };
    let total_staked = match n.total_staked.checked_add(stake) {
        Some(v) => v,
        None => return None,
    };
    let total_rewards = if success {
        match n.total_rewards_distributed.checked_add(reward) {
            Some(v) => v,
            None => return None,
        }
    } else {
        n.total_rewards_distributed
    };
    Some(NetworkStats {
        total_farmers,
        total_staked,
        total_rewards_distributed: total_rewards,
        current_emission_rate: n.current_emission_rate,
        farming_difficulty: compute_difficulty(total_farmers),
        last_updated: now,
    })
}

} // verus!
