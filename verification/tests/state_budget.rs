use fleet_warden::budget::{
    budget_report, days_until_full, parse_df_output, usage_growth, usage_growth_between,
    DaysUntilFull,
};
use fleet_warden::state::{
    home_or_fallback, log_path, log_path_in, state_path, state_path_in, BudgetSample, State,
    MAX_BUDGET_SAMPLES,
};

/// Bytes per day, from what the library measures, divided as the daemon does.
fn calc_growth_rate(samples: &Vec<BudgetSample>) -> Option<u64> {
    usage_growth(samples).map(|(growth, secs)| (growth as f64 / (secs as f64 / 86400.0)) as u64)
}

fn make_sample(timestamp: &str, used: u64, total: u64) -> BudgetSample {
    BudgetSample { timestamp: timestamp.to_string(), used_bytes: used, total_bytes: total }
}

#[test]
fn test_state_record_cleanup() {
    let mut state = State::default();
    assert_eq!(state.total_recovered, 0);
    state.record_cleanup("test_category", 500);
    assert_eq!(state.total_recovered, 500);
    state.record_cleanup("another", 300);
    assert_eq!(state.total_recovered, 800);
}

#[test]
fn test_state_last_cleanup_date() {
    let mut state = State::default();
    state.record_cleanup("pip_cache", 100);
    assert!(state.last_cleanup("pip_cache").is_some());
    assert!(state.last_cleanup("pip_cache").unwrap().contains("20"));
}

#[test]
fn test_budget_growth_rate_insufficient_data() {
    let samples = vec![make_sample("2025-01-01T00:00:00Z", 1000, 10000)];
    let rate = calc_growth_rate(&samples);
    assert!(rate.is_none());
}

#[test]
fn test_budget_growth_rate_two_samples() {
    let samples = vec![
        make_sample("2025-01-01T00:00:00Z", 1000, 10000),
        make_sample("2025-01-02T00:00:00Z", 2000, 10000),
    ];
    let rate = calc_growth_rate(&samples);
    assert!(rate.is_some());
    assert!(rate.unwrap() > 500);
}

#[test]
fn test_budget_growth_rate_negative() {
    let samples = vec![
        make_sample("2025-01-01T00:00:00Z", 5000, 10000),
        make_sample("2025-01-02T00:00:00Z", 3000, 10000),
    ];
    let rate = calc_growth_rate(&samples);
    assert!(rate.is_none() || rate.unwrap() == 0);
}

#[test]
fn test_state_budget_samples_trim() {
    let mut state = State::default();
    for i in 0..35u64 {
        state.budget_samples.push(make_sample("2025-01-01T00:00:00Z", i, 100));
    }
    assert_eq!(state.budget_samples.len(), 35);
    state.trim_budget_samples();
    assert_eq!(state.budget_samples.len(), 30);
    assert_eq!(state.budget_samples[0].used_bytes, 5);
}

#[test]
fn pushing_samples_keeps_newest_thirty() {
    let mut state = State::default();
    for i in 0..35u64 {
        state.push_budget_sample(make_sample("2025-01-01T00:00:00Z", i, 100));
    }
    assert_eq!(state.budget_samples.len(), 30);
    assert_eq!(state.budget_samples[0].used_bytes, 5);
    assert_eq!(state.budget_samples[29].used_bytes, 34);
}

#[test]
fn usage_growth_uses_oldest_and_newest() {
    let samples = vec![
        make_sample("2025-01-01T00:00:00Z", 1000, 10000),
        make_sample("2025-01-01T12:00:00Z", 9999, 10000),
        make_sample("2025-01-02T00:00:00Z", 2000, 10000),
    ];
    assert_eq!(usage_growth(&samples), Some((1000, 86_400)));
    assert_eq!(calc_growth_rate(&samples), Some(1000));
    assert_eq!(usage_growth_between(0, 500, 43_200), Some((500, 43_200)));
    assert_eq!(usage_growth_between(10, 5, 86_400), Some((0, 86_400)));
    assert_eq!(usage_growth_between(0, 500, 0), None);
    assert_eq!(usage_growth_between(0, 500, -5), None);
}

#[test]
fn usage_growth_needs_later_parsable_timestamps() {
    let backwards = vec![
        make_sample("2025-01-02T00:00:00Z", 1000, 10000),
        make_sample("2025-01-01T00:00:00Z", 2000, 10000),
    ];
    assert_eq!(usage_growth(&backwards), None);
    let garbage = vec![make_sample("yesterday", 1000, 10000), make_sample("2025-01-01T00:00:00Z", 2000, 10000)];
    assert_eq!(usage_growth(&garbage), None);
    let offsets = vec![
        make_sample("2025-01-01T00:00:00+02:00", 0, 10),
        make_sample("2025-01-01T00:00:00Z", 100, 10),
    ];
    // Two hours apart.
    assert_eq!(usage_growth(&offsets), Some((100, 7_200)));
    let fractional = vec![
        make_sample("2025-01-01T00:00:00.900Z", 0, 10),
        make_sample("2025-01-01T00:00:02.100Z", 3, 10),
    ];
    // 1.2 s apart: whole seconds, rounded toward zero.
    assert_eq!(usage_growth(&fractional), Some((3, 1)));
}

#[test]
fn record_cleanup_overrides_previous_date() {
    let mut state = State::default();
    state.record_cleanup_at("pip_cache", 10, "2025-01-01T00:00:00Z".to_string());
    state.record_cleanup_at("npm_cache", 20, "2025-01-02T00:00:00Z".to_string());
    let entry = state.record_cleanup_at("pip_cache", 30, "2025-01-03T00:00:00Z".to_string());
    assert_eq!(entry.category, "pip_cache");
    assert_eq!(entry.recovered, 30);
    assert_eq!(entry.date, "2025-01-03T00:00:00Z");
    assert_eq!(state.last_cleanup("pip_cache").as_deref(), Some("2025-01-03T00:00:00Z"));
    assert_eq!(state.last_cleanup("npm_cache").as_deref(), Some("2025-01-02T00:00:00Z"));
    assert_eq!(state.last_cleanup("huggingface"), None);
    assert_eq!(state.last_cleanups.len(), 2);
    assert_eq!(state.total_recovered, 60);
}

#[test]
fn budget_sample_record_stamps_current_time() {
    let mut state = State::default();
    let stamp = state.record_budget_sample(700, 1000).unwrap();
    let t = stamp.as_bytes();
    // YYYY-MM-DDTHH:MM:SS, a fraction or none, then +00:00.
    assert_eq!((t[4], t[7], t[10], t[13], t[16]), (b'-', b'-', b'T', b':', b':'));
    assert_eq!(state.budget_samples.len(), 1);
    assert_eq!(state.budget_samples[0].timestamp, stamp);
    assert_eq!(state.budget_samples[0].used_bytes, 700);
    assert_eq!(state.budget_samples[0].total_bytes, 1000);
    assert!(stamp.starts_with("20"));
    assert!(stamp.ends_with("+00:00"));
    assert!(stamp.len() >= 25);
    assert_eq!(MAX_BUDGET_SAMPLES, 30);
}

#[test]
fn paths_live_under_fleet_warden_dir() {
    assert_eq!(state_path_in(b"/home/dev"), b"/home/dev/.fleet-warden/state.json".to_vec());
    assert_eq!(log_path_in(b"/home/dev/"), b"/home/dev/.fleet-warden/log.jsonl".to_vec());
    assert_eq!(state_path_in(b""), b".fleet-warden/state.json".to_vec());
    // Bytes that are not UTF-8 stay as they are.
    assert_eq!(state_path_in(&[47, 0xff, 0xfe]), b"/\xff\xfe/.fleet-warden/state.json".to_vec());
    assert!(state_path().ends_with(b"/.fleet-warden/state.json"));
    assert!(log_path().ends_with(b"/.fleet-warden/log.jsonl"));
    assert_eq!(home_or_fallback(None), b"/root".to_vec());
    assert_eq!(home_or_fallback(Some(b"/home/x".to_vec())), b"/home/x".to_vec());
}

#[test]
fn df_output_is_parsed() {
    let out = "Filesystem        1B-blocks         Used        Avail Use%\n/dev/sdc      1081101176832 400000000000 625000000000  40%\n";
    let info = parse_df_output(out);
    assert_eq!(info.mount_point, "/dev/sdc");
    assert_eq!(info.total, 1081101176832);
    assert_eq!(info.used, 400000000000);
    assert_eq!(info.free, 625000000000);
    assert_eq!(info.used_pct_text, "40");
}

#[test]
fn df_output_fallbacks() {
    let info = parse_df_output("Filesystem 1B-blocks Used Avail Use%");
    assert_eq!(info.mount_point, "/");
    assert_eq!((info.total, info.used, info.free), (0, 0, 0));
    assert_eq!(info.used_pct_text, "0");
    let short = parse_df_output("header\n/dev/sda 10 20\n");
    assert_eq!(short.mount_point, "/");
    let bad_numbers = parse_df_output("header\r\n/dev/sda -1 +7 99999999999999999999999 5%%\r\n");
    assert_eq!(bad_numbers.mount_point, "/dev/sda");
    assert_eq!(bad_numbers.total, 0);
    assert_eq!(bad_numbers.used, 7);
    assert_eq!(bad_numbers.free, 0);
    assert_eq!(bad_numbers.used_pct_text, "5");
}

#[test]
fn days_until_full_cases() {
    assert_eq!(days_until_full(1000, 0), DaysUntilFull::MoreThanAYear);
    assert_eq!(days_until_full(1000, 10), DaysUntilFull::Days(100));
    assert_eq!(days_until_full(3650, 10), DaysUntilFull::Days(365));
    assert_eq!(days_until_full(3660, 10), DaysUntilFull::MoreThanAYear);
}

#[test]
fn budget_report_renders_decimal_sizes() {
    let r = budget_report(1_000_000, 2_000, 0, Some(1_000_000_000), 5);
    assert_eq!(r.total, "1 MB");
    assert_eq!(r.used, "2 kB");
    assert_eq!(r.free, "0 B");
    assert_eq!(r.total_recovered, "5 B");
    let (rate, days) = r.growth.unwrap();
    assert_eq!(rate, "1 GB");
    assert_eq!(days, DaysUntilFull::Days(0));
    assert!(budget_report(1, 1, 1, None, 0).growth.is_none());
}

#[test]
fn home_dir_is_never_empty() {
    assert!(!fleet_warden::state::home_dir().is_empty());
}
