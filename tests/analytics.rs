use kale_farming_analytics::analytics::{AnalyticsError, KaleFarmingAnalytics};
use kale_farming_analytics::scores::{
    activity_estimate, health_score, optimal_stake, opportunity_score, predict, scale_by,
};
use kale_farming_analytics::stats::{apply_farmer_session, compute_difficulty, new_farmer, NetworkStats};

const FARMER_A: u64 = 11;
const FARMER_B: u64 = 22;

fn initialized() -> KaleFarmingAnalytics {
    let mut c = KaleFarmingAnalytics::new();
    c.initialize(1000).unwrap();
    c
}

#[test]
fn test_initialize() {
    let c = initialized();
    let stats = c.get_network_stats(1000);
    assert_eq!(stats.total_farmers, 0);
    assert_eq!(stats.current_emission_rate, 50000);
}

#[test]
fn test_record_farming_session() {
    let mut c = initialized();
    assert_eq!(c.record_farming_session(FARMER_A, 100_0000000, true, 10_0000000, 2000), Ok(()));
    let farmer_data = c.get_farmer_data(FARMER_A).unwrap();
    assert_eq!(farmer_data.total_staked, 100_0000000);
    assert_eq!(farmer_data.total_rewards, 10_0000000);
    assert_eq!(farmer_data.farms_completed, 1);
    let network_stats = c.get_network_stats(2000);
    assert_eq!(network_stats.total_farmers, 1);
    assert_eq!(network_stats.total_staked, 100_0000000);
}

#[test]
fn test_opportunity_scoring() {
    let c = initialized();
    let score = c.calculate_opportunity_score(200_0000000, 1000);
    assert!(score > 0);
    assert!(score <= 10000);
}

#[test]
fn test_network_health() {
    let c = initialized();
    let health_score = c.get_network_health_score(1000);
    assert!(health_score <= 100);
}

#[test]
fn test_optimal_stake_calculation() {
    let c = initialized();
    let optimal_stake = c.get_optimal_stake(1000);
    assert!(optimal_stake > 0);
}

#[test]
fn test_reward_prediction() {
    let c = initialized();
    let predicted_reward = c.predict_reward(100_0000000, 1000);
    assert!(predicted_reward > 0);
    assert!(predicted_reward <= 100_0000000);
}

#[test]
fn first_session_scenario() {
    let mut c = initialized();
    c.record_farming_session(FARMER_A, 100_0000000, true, 10_0000000, 2000).unwrap();
    let f = c.get_farmer_data(FARMER_A).unwrap();
    assert_eq!(f.success_rate, 10000);
    assert_eq!(f.last_plant_time, 2000);
    assert_eq!(f.last_harvest_time, 2000);
    let n = c.get_network_stats(2000);
    assert_eq!(n.farming_difficulty, 3010);
    assert_eq!(n.total_rewards_distributed, 10_0000000);
}

#[test]
fn failure_after_success_halves_rate() {
    let mut c = initialized();
    c.record_farming_session(FARMER_A, 100_0000000, true, 10_0000000, 2000).unwrap();
    c.record_farming_session(FARMER_A, 50_0000000, false, 99, 3000).unwrap();
    let f = c.get_farmer_data(FARMER_A).unwrap();
    assert_eq!(f.success_rate, 5000);
    assert_eq!(f.farms_completed, 2);
    assert_eq!(f.total_rewards, 10_0000000);
    assert_eq!(f.last_harvest_time, 2000);
    assert_eq!(f.last_plant_time, 3000);
    assert_eq!(c.get_network_stats(3000).total_farmers, 1);
}

#[test]
fn incremental_rate_has_truncation_drift() {
    // success, failure, failure: 10000 -> 5000 -> 3333
    let f0 = new_farmer(FARMER_A);
    let f1 = apply_farmer_session(&f0, 1, true, 1, 1).unwrap();
    let f2 = apply_farmer_session(&f1, 1, false, 0, 2).unwrap();
    let f3 = apply_farmer_session(&f2, 1, false, 0, 3).unwrap();
    assert_eq!(f3.success_rate, 3333);
    // a success after that: prior successes 3333*3/10000 = 0, so 1*10000/4
    let f4 = apply_farmer_session(&f3, 1, true, 1, 4).unwrap();
    assert_eq!(f4.success_rate, 2500);
}

#[test]
fn second_farmer_counts_once() {
    let mut c = initialized();
    c.record_farming_session(FARMER_A, 1, true, 1, 1).unwrap();
    c.record_farming_session(FARMER_B, 1, false, 0, 2).unwrap();
    c.record_farming_session(FARMER_B, 1, true, 1, 3).unwrap();
    let n = c.get_network_stats(3);
    assert_eq!(n.total_farmers, 2);
    assert_eq!(n.total_staked, 3);
    assert_eq!(n.farming_difficulty, 3020);
}

#[test]
fn session_before_initialize_fails() {
    let mut c = KaleFarmingAnalytics::new();
    assert_eq!(c.record_farming_session(FARMER_A, 1, true, 1, 1), Err(AnalyticsError::NotInitialized));
    assert!(c.get_farmer_data(FARMER_A).is_none());
    assert_eq!(c.update_emission_rate(1, 1), Err(AnalyticsError::NotInitialized));
}

#[test]
fn overflow_is_refused_without_change() {
    let mut c = initialized();
    c.record_farming_session(FARMER_A, i128::MAX, true, 0, 1).unwrap();
    assert_eq!(c.record_farming_session(FARMER_A, 1, true, 0, 2), Err(AnalyticsError::ArithmeticOverflow));
    assert_eq!(c.get_farmer_data(FARMER_A).unwrap().farms_completed, 1);
}

#[test]
fn difficulty_is_capped() {
    assert_eq!(compute_difficulty(0), 3000);
    assert_eq!(compute_difficulty(600), 9000);
    assert_eq!(compute_difficulty(u32::MAX), 9000);
}

fn stats(total_farmers: u32, total_staked: i128, rate: u32, difficulty: u32) -> NetworkStats {
    NetworkStats {
        total_farmers,
        total_staked,
        total_rewards_distributed: 0,
        current_emission_rate: rate,
        farming_difficulty: difficulty,
        last_updated: 0,
    }
}

#[test]
fn scores_exact_values() {
    let d = stats(0, 0, 50000, 5000);
    assert_eq!(opportunity_score(&d, 200_0000000), 5750);
    assert_eq!(opportunity_score(&d, 50_0000000), 4750);
    assert_eq!(opportunity_score(&stats(0, 0, 0, 10000), -100_0000000_0), 0);
    assert_eq!(health_score(&d), 45);
    assert_eq!(health_score(&stats(u32::MAX, i128::MAX, u32::MAX, 5000)), 100);
}

#[test]
fn optimal_stake_and_activity_with_no_farmers() {
    let d = stats(0, 0, 50000, 5000);
    assert_eq!(optimal_stake(&d), 200_0000000);
    assert_eq!(activity_estimate(&d), 0);
    assert_eq!(optimal_stake(&stats(2, 100, 0, 8000)), 60);
    assert_eq!(activity_estimate(&stats(10, 0, 0, 0)), 14);
}

#[test]
fn reward_prediction_exact() {
    let mut c = initialized();
    assert_eq!(c.predict_reward(100_0000000, 1), 5000000);
    assert_eq!(c.predict_reward(-100_0000000, 1), -5000000);
    assert_eq!(c.is_optimal_farming_time(1), true);
    c.update_emission_rate(40000, 5).unwrap();
    assert_eq!(c.is_optimal_farming_time(5), false);
    assert_eq!(c.get_network_stats(9).last_updated, 5);
    assert_eq!(c.get_leaderboard(10).len(), 0);
}

#[test]
fn second_initialize_is_refused() {
    let mut c = initialized();
    c.record_farming_session(FARMER_A, 5, true, 1, 2).unwrap();
    assert_eq!(c.initialize(3), Err(AnalyticsError::AlreadyInitialized));
    let n = c.get_network_stats(3);
    assert_eq!(n.total_farmers, 1);
    assert_eq!(n.total_staked, 5);
    assert_eq!(n.last_updated, 2);
}

#[test]
fn reward_prediction_for_extreme_stakes() {
    let c = initialized();
    // difficulty 5000, no farmers: (stake / 100) / 2
    assert_eq!(c.predict_reward(i128::MAX, 1), (i128::MAX / 100) / 2);
    assert_eq!(c.predict_reward(i128::MIN, 1), -((i128::MAX / 100) / 2));
    let crowded = stats(2000, 0, 0, 9000);
    assert_eq!(predict(&crowded, 1_000_000), 500);
}

#[test]
fn scale_by_matches_full_product() {
    assert_eq!(scale_by(123_456_789, 7_777), 123_456_789 * 7_777 / 10000);
    assert_eq!(scale_by(u128::MAX, 10000), u128::MAX);
    assert_eq!(scale_by(u128::MAX, 0), 0);
}
