use fleet_warden::cleaner::{account_step, recovered_bytes, CleanStep, CleanTargets};
use fleet_warden::scanner::{
    is_active_toolchain, is_large_file, is_removable_toolchain, is_skipped_dir_name, parse_active_toolchain,
    pip_cache_dir_from_output, stale_age_secs, sum_scan_results, Category, ScanReport,
    DEFAULT_STALE_DAYS, LARGE_FILE_THRESHOLD,
};
use fleet_warden::state::State;

fn make_scan_report(
    target_size: u64, pip_size: u64, npm_size: u64,
    toolchains_size: u64, sessions_size: u64, hf_size: u64, large_size: u64,
) -> ScanReport {
    ScanReport {
        target_dirs_count: 5, target_dirs_size: target_size,
        pip_cache_size: pip_size, pip_cache_count: 100,
        npm_cache_size: npm_size, npm_cache_count: 50,
        old_toolchains_count: 2, old_toolchains_size: toolchains_size,
        stale_sessions_count: 10, stale_sessions_size: sessions_size,
        huggingface_count: 3, huggingface_size: hf_size,
        large_files_count: 1, large_files_size: large_size,
    }
}

#[test]
fn test_scan_report_total_cleanable() {
    let report = make_scan_report(100, 200, 300, 400, 50, 60, 10);
    assert_eq!(report.total_cleanable(), 1120);
}

#[test]
fn test_scan_report_zero() {
    let report = make_scan_report(0, 0, 0, 0, 0, 0, 0);
    assert_eq!(report.total_cleanable(), 0);
}

#[test]
fn test_no_clean_targets_default() {
    let flags = CleanTargets {
        target_dirs: false, pip_cache: false, npm_cache: false,
        stale_sessions: None, old_toolchains: false, huggingface: false, all: false,
    };
    assert!(!flags.any_selected());
}

#[test]
fn test_all_flag_selects_everything() {
    let flags = CleanTargets {
        target_dirs: false, pip_cache: false, npm_cache: false,
        stale_sessions: None, old_toolchains: false, huggingface: false, all: true,
    };
    assert!(flags.any_selected());
}

#[test]
fn test_large_file_threshold_100mb() {
    let threshold: u64 = LARGE_FILE_THRESHOLD;
    assert_eq!(threshold, 104_857_600);
    assert!((99 * 1024 * 1024) < threshold);
    assert!((101 * 1024 * 1024) > threshold);
    assert!(!is_large_file(99 * 1024 * 1024));
    assert!(!is_large_file(threshold));
    assert!(is_large_file(101 * 1024 * 1024));
}

#[test]
fn test_stale_session_threshold_30_days() {
    let threshold_secs = stale_age_secs(DEFAULT_STALE_DAYS);
    assert_eq!(threshold_secs, 2_592_000);
}

#[test]
fn shown_categories_skip_empty_ones() {
    let mut report = make_scan_report(0, 0, 0, 0, 0, 0, 0);
    report.target_dirs_count = 0;
    report.npm_cache_count = 0;
    report.huggingface_size = 9;
    assert_eq!(
        report.shown_categories(),
        vec![Category::PipCache, Category::OldToolchains, Category::StaleSessions, Category::HuggingFace, Category::LargeFiles]
    );
    assert_eq!(report.category_figures(Category::HuggingFace), (9, 3));
}

#[test]
fn scan_results_are_summed() {
    assert_eq!(sum_scan_results(&vec![]), (0, 0));
    assert_eq!(sum_scan_results(&vec![(10, 1), (20, 2), (0, 0)]), (3, 30));
}

#[test]
fn skipped_directory_names() {
    for name in ["target", "node_modules", ".git", "__pycache__", ".venv", "venv"] {
        assert!(is_skipped_dir_name(name));
    }
    for name in ["src", "targets", "", "Target", "venv2"] {
        assert!(!is_skipped_dir_name(name));
    }
}

#[test]
fn active_toolchain_is_first_word() {
    assert_eq!(
        parse_active_toolchain("stable-x86_64-unknown-linux-gnu (default)\n").as_deref(),
        Some("stable-x86_64-unknown-linux-gnu")
    );
    assert_eq!(parse_active_toolchain("  \n"), None);
    let active = Some("stable-x86_64-unknown-linux-gnu".to_string());
    assert!(is_active_toolchain("stable-x86_64-unknown-linux-gnu", &active));
    assert!(!is_active_toolchain("nightly-x86_64-unknown-linux-gnu", &active));
    assert!(!is_active_toolchain("stable", &None));
    assert!(is_active_toolchain("1.80-stable", &Some("stable".to_string())));
}

#[test]
fn active_or_unknown_toolchain_is_kept() {
    let active = Some("stable-x86_64-unknown-linux-gnu".to_string());
    assert!(!is_removable_toolchain("stable-x86_64-unknown-linux-gnu", &active));
    assert!(is_removable_toolchain("nightly-x86_64-unknown-linux-gnu", &active));
    assert!(!is_removable_toolchain("nightly-x86_64-unknown-linux-gnu", &None));
}

#[test]
fn pip_cache_dir_is_trimmed() {
    assert_eq!(pip_cache_dir_from_output("  /home/dev/.cache/pip\n"), "/home/dev/.cache/pip");
    assert_eq!(pip_cache_dir_from_output("\n"), "");
}

#[test]
fn flags_resolve_all_and_plan_order() {
    let t = CleanTargets::from_flags(false, false, false, None, false, false, true);
    assert_eq!(t.stale_sessions, Some(30));
    assert_eq!(
        t.plan(),
        vec![
            CleanStep::TargetDirs,
            CleanStep::PipCache,
            CleanStep::NpmCache,
            CleanStep::StaleSessions(30),
            CleanStep::OldToolchains,
            CleanStep::HuggingFace,
        ]
    );
    let u = CleanTargets::from_flags(false, true, false, Some(7), false, false, false);
    assert_eq!(u.plan(), vec![CleanStep::PipCache, CleanStep::StaleSessions(7)]);
    assert!(u.any_selected());
    let none = CleanTargets::from_flags(false, false, false, None, false, false, false);
    assert!(none.plan().is_empty());
    assert!(!none.any_selected());
}

#[test]
fn cleanup_accounting() {
    assert_eq!(recovered_bytes(500, 200), 300);
    assert_eq!(recovered_bytes(200, 500), 0);
    let mut state = State::default();
    let (total, entry) = account_step(&mut state, 100, CleanStep::NpmCache, 1000, 400).unwrap();
    assert_eq!(total, 700);
    assert_eq!(entry.recovered, 600);
    assert_eq!(entry.category, "npm_cache");
    assert_eq!(state.total_recovered, 600);
    assert_eq!(state.last_cleanup("npm_cache"), Some(entry.date.clone()));
    assert_eq!(CleanStep::StaleSessions(3).category(), "stale_sessions");
}

#[test]
fn report_from_scans_places_each_figure() {
    let r = ScanReport::from_scans((1, 10), (2, 20), (3, 30), (4, 40), (5, 50), (6, 60), (7, 70));
    assert_eq!(r.category_figures(Category::TargetDirs), (10, 1));
    assert_eq!(r.category_figures(Category::PipCache), (20, 2));
    assert_eq!(r.category_figures(Category::NpmCache), (30, 3));
    assert_eq!(r.category_figures(Category::OldToolchains), (40, 4));
    assert_eq!(r.category_figures(Category::StaleSessions), (50, 5));
    assert_eq!(r.category_figures(Category::HuggingFace), (60, 6));
    assert_eq!(r.category_figures(Category::LargeFiles), (70, 7));
    assert_eq!(r.total_cleanable(), 280);
}
