use fleet_warden::anomaly::{latest_is_flagged, merge_anomaly_indices, push_bounded};
use fleet_warden::history::{newest_first, shown_count, HistoryEntry};
use fleet_warden::state::State;
use fleet_warden::watcher::{
    account_auto_clean, cmd_watch, first_action, next_action, WatchAction, WatchEvent,
    AUTO_CLEAN_THRESHOLD_PCT,
};

#[test]
fn test_detector_window_eviction() {
    let mut window: Vec<f64> = Vec::new();
    for v in &[1.0, 2.0, 3.0, 4.0, 5.0, 6.0] {
        push_bounded(&mut window, 5, *v);
    }
    assert_eq!(window.len(), 5);
    assert!((window[0] - 2.0).abs() < 1e-10);
}

#[test]
fn test_tracker_window_eviction() {
    let mut samples: Vec<f64> = Vec::new();
    for v in &[1.0, 2.0, 3.0, 4.0] {
        push_bounded(&mut samples, 3, *v);
    }
    assert_eq!(samples.len(), 3);
    let mean = samples.iter().sum::<f64>() / samples.len() as f64;
    assert!((mean - 3.0).abs() < 1e-10);
}

#[test]
fn merged_indices_are_sorted_and_unique() {
    assert_eq!(merge_anomaly_indices(&vec![7, 2], &vec![2, 5], &vec![]), vec![2, 5, 7]);
    assert!(merge_anomaly_indices(&vec![], &vec![], &vec![]).is_empty());
    assert_eq!(merge_anomaly_indices(&vec![3, 3], &vec![0], &vec![9, 0]), vec![0, 3, 9]);
}

#[test]
fn watch_cycle_over_threshold_cleans_twice() {
    assert_eq!(AUTO_CLEAN_THRESHOLD_PCT, 80);
    let mut a = first_action();
    assert_eq!(a, WatchAction::CheckBudget);
    a = next_action(a, WatchEvent::BudgetChecked { over_threshold: true });
    assert_eq!(a, WatchAction::CleanTargetDirs);
    a = next_action(a, WatchEvent::TargetDirsCleaned);
    assert_eq!(a, WatchAction::RecheckBudget);
    a = next_action(a, WatchEvent::BudgetRechecked { over_threshold: true });
    assert_eq!(a, WatchAction::CleanCaches);
    a = next_action(a, WatchEvent::CachesCleaned);
    assert_eq!(a, WatchAction::SaveBudgetSample);
    a = next_action(a, WatchEvent::SampleSaved);
    assert_eq!(a, WatchAction::Finished);
}

#[test]
fn watch_cycle_under_threshold_only_samples() {
    let a = next_action(WatchAction::CheckBudget, WatchEvent::BudgetChecked { over_threshold: false });
    assert_eq!(a, WatchAction::SaveBudgetSample);
    let b = next_action(WatchAction::RecheckBudget, WatchEvent::BudgetRechecked { over_threshold: false });
    assert_eq!(b, WatchAction::SaveBudgetSample);
    // An event that does not answer the pending action leaves it pending.
    assert_eq!(next_action(WatchAction::CleanCaches, WatchEvent::SampleSaved), WatchAction::CleanCaches);
    assert_eq!(cmd_watch(3600).interval_secs, 3600);
}

#[test]
fn auto_clean_is_recorded() {
    let mut state = State::default();
    let entry = account_auto_clean(&mut state, 5000, 1000).unwrap();
    assert_eq!(entry.category, "target_dirs_auto");
    assert_eq!(entry.recovered, 4000);
    assert_eq!(state.total_recovered, 4000);
    assert!(state.last_cleanup("target_dirs_auto").is_some());
}

fn entry(date: &str, recovered: u64) -> HistoryEntry {
    HistoryEntry { date: date.to_string(), category: "pip_cache".to_string(), recovered }
}

#[test]
fn history_shows_newest_first() {
    let entries = vec![entry("d1", 1), entry("d2", 2), entry("d3", 3)];
    let shown = newest_first(entries, 2);
    assert_eq!(shown.len(), 2);
    assert_eq!(shown[0].date, "d3");
    assert_eq!(shown[1].recovered, 2);
    assert_eq!(newest_first(vec![entry("a", 1)], 20).len(), 1);
    assert_eq!(shown_count(3, 20), 3);
    assert_eq!(shown_count(30, 20), 20);
}

#[test]
fn short_window_is_never_flagged() {
    // Two values are too few to judge, whatever the methods report.
    assert!(!latest_is_flagged(2, &vec![1], &vec![1], &vec![1]));
}

#[test]
fn latest_value_flagged_by_any_method() {
    assert!(latest_is_flagged(6, &vec![5], &vec![], &vec![]));
    assert!(latest_is_flagged(6, &vec![], &vec![0, 5], &vec![]));
    assert!(latest_is_flagged(4, &vec![], &vec![], &vec![3]));
    assert!(!latest_is_flagged(6, &vec![0, 4], &vec![1], &vec![2]));
    assert!(!latest_is_flagged(0, &vec![], &vec![], &vec![]));
}
