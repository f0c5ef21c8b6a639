use vstd::prelude::*;
use crate::stats::{
    FarmerData, NetworkStats, new_farmer_spec, default_stats_spec, network_after, farmer_after,
    farmer_overflows, network_overflows, new_farmer, default_stats, apply_farmer_session,
    apply_network_session, next_success_rate, difficulty_for, lemma_next_rate_bounded,
    lemma_difficulty_bounded,
};
use crate::scores::{
    opportunity_score, optimal_stake, optimal_time, health_score, predict, activity_estimate,
    opportunity_spec, optimal_stake_spec, optimal_time_spec, health_spec, predict_spec,
    activity_spec,
};

verus! {

/// Why an operation was refused; a refused operation changes nothing.
#[derive(Clone, Copy, Debug, PartialEq, Eq)]
pub enum AnalyticsError {
    /// The network aggregates were read before initialization.
    NotInitialized,
    /// A sum or counter would leave its integer range.
    ArithmeticOverflow,
    /// The network aggregates already exist.
    AlreadyInitialized,
}

/// The analytics state: the network aggregates, once initialized, and the
/// farmer records, created on a farmer's first session and never removed.
pub struct KaleFarmingAnalytics {
    pub network: Option<NetworkStats>,
    pub farmers: Vec<FarmerData>,
}

/// Index of the last record of `address` in `s`, or -1 when there is none.
pub open spec fn find_index(s: Seq<FarmerData>, address: u64) -> int
    decreases s.len(),
{
    if s.len() == 0 {
        -1
    } else if s.last().address == address {
        s.len() - 1
    } else {
        find_index(s.drop_last(), address)
    }
}

/// The record of `address`, or the empty record when it has none yet.
pub open spec fn record_of(s: Seq<FarmerData>, address: u64) -> FarmerData {
    let i = find_index(s, address);
    if i >= 0 { s[i] } else { new_farmer_spec(address) }
}

/// The records after `address`'s record is replaced by, or extended with, `g`.
pub open spec fn store_record(s: Seq<FarmerData>, address: u64, g: FarmerData) -> Seq<FarmerData> {
    let i = find_index(s, address);
    if i >= 0 { s.update(i, g) } else { s.push(g) }
}

pub proof fn lemma_find_index_range(s: Seq<FarmerData>, address: u64)
    ensures
        -1 <= find_index(s, address) < s.len(),
        find_index(s, address) >= 0 ==> s[find_index(s, address)].address == address,
    decreases s.len(),
{
    if s.len() > 0 && s.last().address != address {
        lemma_find_index_range(s.drop_last(), address);
    }
}

/// Where no record has `address`, there is none to find.
pub proof fn lemma_find_none(s: Seq<FarmerData>, address: u64)
    ensures
        find_index(s, address) == -1 <==> forall|j: int| 0 <= j < s.len() ==> s[j].address != address,
    decreases s.len(),
{
    if s.len() > 0 {
        lemma_find_none(s.drop_last(), address);
        if s.last().address != address {
            assert forall|j: int| 0 <= j < s.len() - 1 implies s[j] == s.drop_last()[j] by {}
        }
    }
}

/// The record of `address` at `k`, with none after it, is the one found.
pub proof fn lemma_find_at(s: Seq<FarmerData>, address: u64, k: int)
    requires
        0 <= k < s.len(),
        s[k].address == address,
        forall|j: int| k < j < s.len() ==> s[j].address != address,
    ensures
        find_index(s, address) == k,
    decreases s.len(),
{
    if k < s.len() - 1 {
        lemma_find_at(s.drop_last(), address, k);
    }
}

/// Sum of the farmers' stakes.
pub open spec fn staked_sum(s: Seq<FarmerData>) -> int
    decreases s.len(),
{
    if s.len() == 0 { 0 } else { staked_sum(s.drop_last()) + s.last().total_staked }
}

/// Sum of the farmers' rewards.
pub open spec fn rewards_sum(s: Seq<FarmerData>) -> int
    decreases s.len(),
{
    if s.len() == 0 { 0 } else { rewards_sum(s.drop_last()) + s.last().total_rewards }
}

/// Replacing one record changes each sum by the difference of the two records.
pub proof fn lemma_sums_update(s: Seq<FarmerData>, k: int, g: FarmerData)
    requires
        0 <= k < s.len(),
    ensures
        staked_sum(s.update(k, g)) == staked_sum(s) - s[k].total_staked + g.total_staked,
        rewards_sum(s.update(k, g)) == rewards_sum(s) - s[k].total_rewards + g.total_rewards,
    decreases s.len(),
{
    let t = s.update(k, g);
    if k == s.len() - 1 {
        assert(t.drop_last() =~= s.drop_last());
    } else {
        assert(t.drop_last() =~= s.drop_last().update(k, g));
        lemma_sums_update(s.drop_last(), k, g);
    }
}

/// Farmer records have distinct addresses.
pub open spec fn unique_addresses(s: Seq<FarmerData>) -> bool {
    forall|i: int, j: int|
        0 <= i < s.len() && 0 <= j < s.len() && s[i].address == s[j].address ==> i == j
}

/// One recorded session never lowers a counter or a sum, and adds a farmer to
/// the network count exactly when it is that farmer's first session.
pub proof fn lemma_session_monotone(
    n: NetworkStats,
    f: FarmerData,
    stake: i128,
    success: bool,
    reward: i128,
    now: u64,
)
    requires
        n.wf(),
        stake >= 0,
        reward >= 0,
        !farmer_overflows(f, stake, success, reward),
        !network_overflows(n, f.farms_completed == 0, stake, success, reward),
    ensures
        ({
            let g = farmer_after(f, stake, success, reward, now);
            let m = network_after(n, f.farms_completed == 0, stake, success, reward, now);
            &&& g.farms_completed == f.farms_completed + 1
            &&& g.total_staked >= f.total_staked
            &&& g.total_rewards >= f.total_rewards
            &&& m.total_staked >= n.total_staked
            &&& m.total_rewards_distributed >= n.total_rewards_distributed
            &&& m.total_farmers == n.total_farmers + (if f.farms_completed == 0 { 1int } else { 0int })
            &&& 3000 <= m.farming_difficulty <= 9000
        }),
{
}

impl KaleFarmingAnalytics {
    pub open spec fn wf(&self) -> bool {
        &&& (self.network matches Some(n) ==> n.wf() && 3000 <= n.farming_difficulty <= 9000)
        &&& forall|i: int| 0 <= i < self.farmers.len() ==> (#[trigger] self.farmers[i]).wf()
        &&& forall|i: int| 0 <= i < self.farmers.len() ==> (#[trigger] self.farmers[i]).farms_completed >= 1
        &&& unique_addresses(self.farmers@)
        &&& (self.farmers.len() > 0 ==> self.network is Some)
        &&& (self.network matches Some(n) ==> n.total_farmers == self.farmers.len())
        &&& (self.network matches Some(n) ==> n.total_staked == staked_sum(self.farmers@)
            && n.total_rewards_distributed == rewards_sum(self.farmers@))
    }

    /// A deployment with no aggregates and no farmers.
    pub fn new() -> (r: Self)
        ensures
            r.network is None,
            r.farmers@.len() == 0,
            r.wf(),
    {
        KaleFarmingAnalytics { network: None, farmers: Vec::new() }
    }

    /// Writes the default aggregates; once they exist, a further call is
    /// refused and changes nothing.
    pub fn initialize(&mut self, now: u64) -> (r: Result<(), AnalyticsError>)
        requires
            old(self).wf(),
        ensures
            final(self).wf(),
            final(self).farmers@ == old(self).farmers@,
            old(self).network is Some <==> r == Err::<(), AnalyticsError>(AnalyticsError::AlreadyInitialized),
            r is Ok <==> old(self).network is None,
            r is Err ==> *final(self) == *old(self),
            r is Ok ==> final(self).network == Some(default_stats_spec(now)),
    {
        if self.network.is_some() {
            return Err(AnalyticsError::AlreadyInitialized);
        }
        self.network = Some(default_stats(now));
        Ok(())
    }

    fn find_farmer(&self, address: u64) -> (r: Option<usize>)
        ensures
            find_index(self.farmers@, address) >= 0 <==> r is Some,
            r matches Some(i) ==> i == find_index(self.farmers@, address),
    {
        let mut i: usize = self.farmers.len();
        assert(self.farmers@.subrange(0, i as int) =~= self.farmers@);
        while i > 0
            invariant
                i <= self.farmers.len(),
                find_index(self.farmers@, address) == find_index(self.farmers@.subrange(0, i as int), address),
            decreases i,
        {
            let ghost pre = self.farmers@.subrange(0, i as int);
            assert(pre.drop_last() =~= self.farmers@.subrange(0, i - 1));
            if self.farmers[i - 1].address == address {
                return Some(i - 1);
            }
            i = i - 1;
        }
        assert(self.farmers@.subrange(0, 0).len() == 0);
        None
    }

    /// The record of a farmer, if it has recorded a session.
    pub fn get_farmer_data(&self, farmer: u64) -> (r: Option<FarmerData>)
        ensures
            r is Some <==> find_index(self.farmers@, farmer) >= 0,
            r matches Some(f) ==> f == record_of(self.farmers@, farmer),
    {
        proof { lemma_find_index_range(self.farmers@, farmer); }
        match self.find_farmer(farmer) {
            Some(i) => Some(self.farmers[i]),
            None => None,
        }
    }

    /// Records one session of `farmer`: its record and the aggregates are
    /// updated together, or neither is.
    pub fn record_farming_session(
        &mut self,
        farmer: u64,
        stake_amount: i128,
        success: bool,
        reward: i128,
        now: u64,
    ) -> (r: Result<(), AnalyticsError>)
        requires
            old(self).wf(),
            stake_amount >= 0,
            reward >= 0,
        ensures
            final(self).wf(),
            r matches Err(e) ==> *final(self) == *old(self),
            old(self).network is None <==> r == Err::<(), AnalyticsError>(AnalyticsError::NotInitialized),
            old(self).network matches Some(n) ==> {
                let f = record_of(old(self).farmers@, farmer);
                let overflow = farmer_overflows(f, stake_amount, success, reward) || network_overflows(
                    n, f.farms_completed == 0, stake_amount, success, reward);
                &&& overflow <==> r == Err::<(), AnalyticsError>(AnalyticsError::ArithmeticOverflow)
                &&& !overflow <==> r is Ok
                &&& r is Ok ==> {
                    let g = farmer_after(f, stake_amount, success, reward, now);
                    &&& final(self).farmers@ == store_record(old(self).farmers@, farmer, g)
                    &&& final(self).network == Some(network_after(n, f.farms_completed == 0, stake_amount, success, reward, now))
                }
            },
            r is Ok ==> ({
                let f0 = record_of(old(self).farmers@, farmer);
                let f1 = record_of(final(self).farmers@, farmer);
                let n0 = old(self).network.unwrap();
                let n1 = final(self).network.unwrap();
                &&& find_index(final(self).farmers@, farmer) >= 0
                &&& f1.success_rate == next_success_rate(f0.success_rate as int, f0.farms_completed as int, success)
                &&& f1.farms_completed == f0.farms_completed + 1
                &&& f1.total_staked >= f0.total_staked
                &&& f1.total_rewards >= f0.total_rewards
                &&& n1.total_staked >= n0.total_staked
                &&& n1.total_rewards_distributed >= n0.total_rewards_distributed
                &&& n1.total_farmers == n0.total_farmers + (if find_index(old(self).farmers@, farmer) >= 0 { 0int } else { 1int })
                &&& n1.farming_difficulty == difficulty_for(n1.total_farmers as int)
                &&& 3000 <= n1.farming_difficulty <= 9000
            }),
    {
        proof { lemma_find_index_range(self.farmers@, farmer); }
        let n = match self.network {
            Some(n) => n,
            None => return Err(AnalyticsError::NotInitialized),
        };
        let idx = self.find_farmer(farmer);
        let f = match idx {
            Some(i) => self.farmers[i],
            None => new_farmer(farmer),
        };
        let g = match apply_farmer_session(&f, stake_amount, success, reward, now) {
            Some(g) => g,
            None => return Err(AnalyticsError::ArithmeticOverflow),
        };
        let m = match apply_network_session(&n, g.farms_completed == 1, stake_amount, success, reward, now) {
            Some(m) => m,
            None => return Err(AnalyticsError::ArithmeticOverflow),
        };
        proof {
            assert(g.farms_completed == 1 <==> f.farms_completed == 0);
        }
        match idx {
            Some(i) => { self.farmers.set(i, g); },
            None => { self.farmers.push(g); },
        }
        self.network = Some(m);
        proof {
            let s0 = old(self).farmers@;
            let s1 = self.farmers@;
            lemma_next_rate_bounded(f.success_rate as int, f.farms_completed as int, success);
            lemma_difficulty_bounded(m.total_farmers as int);
            assert forall|j: int| 0 <= j < s1.len() && j != s1.len() - 1 && idx is None
                implies s1[j] == s0[j] by {}
            assert forall|j: int| 0 <= j < self.farmers.len() implies
                (#[trigger] self.farmers[j]).wf() && self.farmers[j].farms_completed >= 1 by {
                if j < s0.len() && !(idx == Some(j as usize)) {
                    assert(self.farmers[j] == old(self).farmers[j]);
                }
            }
            let k: int = match idx { Some(i) => i as int, None => s0.len() as int };
            lemma_find_none(s0, farmer);
            assert(s1[k] == g);
            assert forall|i: int, j: int|
                0 <= i < s1.len() && 0 <= j < s1.len() && s1[i].address == s1[j].address implies i == j by {
                if i != k {
                    assert(s1[i] == s0[i]);
                }
                if j != k {
                    assert(s1[j] == s0[j]);
                }
            }
            assert forall|j: int| k < j < s1.len() implies s1[j].address != farmer by {
                assert(s1[j] == s0[j]);
            }
            lemma_find_at(s1, farmer, k);
            match idx {
                Some(i) => { lemma_sums_update(s0, i as int, g); },
                None => { assert(s1.drop_last() =~= s0); },
            }
        }
        Ok(())
    }

    /// The aggregates; before initialization, the defaults stamped with `now`.
    pub fn get_network_stats(&self, now: u64) -> (r: NetworkStats)
        requires
            self.wf(),
        ensures
            r == (match self.network { Some(n) => n, None => default_stats_spec(now) }),
            r.wf(),
            3000 <= r.farming_difficulty <= 9000,
            r.total_staked == staked_sum(self.farmers@),
            r.total_rewards_distributed == rewards_sum(self.farmers@),
    {
        match self.network {
            Some(n) => n,
            None => default_stats(now),
        }
    }

    /// Ranking is not kept by this state: the leaderboard is always empty.
    pub fn get_leaderboard(&self, limit: u32) -> (r: Vec<FarmerData>)
        ensures
            r@.len() == 0,
    {
        Vec::new()
    }

    /// Opportunity score of a stake under the current aggregates.
    pub fn calculate_opportunity_score(&self, stake_amount: i128, now: u64) -> (r: u32)
        requires
            self.wf(),
        ensures
            r == opportunity_spec(self.get_stats_spec(now).farming_difficulty as int, stake_amount as int),
            r <= 10000,
    {
        let n = self.get_network_stats(now);
        opportunity_score(&n, stake_amount)
    }

    /// Optimal stake under the current aggregates.
    pub fn get_optimal_stake(&self, now: u64) -> (r: i128)
        requires
            self.wf(),
        ensures
            r == optimal_stake_spec(self.get_stats_spec(now)),
    {
        let n = self.get_network_stats(now);
        optimal_stake(&n)
    }

    /// Whether the current aggregates favour farming.
    pub fn is_optimal_farming_time(&self, now: u64) -> (r: bool)
        requires
            self.wf(),
        ensures
            r == optimal_time_spec(self.get_stats_spec(now)),
    {
        let n = self.get_network_stats(now);
        optimal_time(&n)
    }

    /// Health score of the current aggregates.
    pub fn get_network_health_score(&self, now: u64) -> (r: u32)
        requires
            self.wf(),
        ensures
            r == health_spec(self.get_stats_spec(now)),
            r <= 100,
    {
        let n = self.get_network_stats(now);
        health_score(&n)
    }

    /// Predicted reward of a stake under the current aggregates.
    pub fn predict_reward(&self, stake_amount: i128, now: u64) -> (r: i128)
        requires
            self.wf(),
        ensures
            r == predict_spec(self.get_stats_spec(now), stake_amount as int),
    {
        let n = self.get_network_stats(now);
        predict(&n, stake_amount)
    }

    /// Estimated sessions in a day, from the farmer count alone.
    pub fn get_recent_activity_count(&self, now: u64) -> (r: u64)
        requires
            self.wf(),
        ensures
            r == activity_spec(self.get_stats_spec(now)),
    {
        let n = self.get_network_stats(now);
        activity_estimate(&n)
    }

    /// Sets the emission rate and the update time; nothing else changes.
    pub fn update_emission_rate(&mut self, new_rate: u32, now: u64) -> (r: Result<(), AnalyticsError>)
        requires
            old(self).wf(),
        ensures
            final(self).wf(),
            final(self).farmers@ == old(self).farmers@,
            old(self).network is None <==> r == Err::<(), AnalyticsError>(AnalyticsError::NotInitialized),
            r is Err ==> *final(self) == *old(self),
            old(self).network matches Some(n) ==> final(self).network == Some(NetworkStats {
                current_emission_rate: new_rate,
                last_updated: now,
                ..n
            }),
    {
        match self.network {
            Some(n) => {
                self.network = Some(NetworkStats { current_emission_rate: new_rate, last_updated: now, ..n });
                Ok(())
            },
            None => Err(AnalyticsError::NotInitialized),
        }
    }

    /// The aggregates that the derived scores read.
    pub open spec fn get_stats_spec(&self, now: u64) -> NetworkStats {
        match self.network {
            Some(n) => n,
            None => default_stats_spec(now),
        }
    }
}

} // verus!
