//! The watch daemon's decisions. Each cycle checks the disk budget; above
//! the threshold it cleans the target directories, checks again, and cleans
//! the package caches too if usage is still above it; every cycle ends by
//! saving a budget sample. The caller performs each action and reports back.

use crate::cleaner::recovered_bytes;
use crate::state::{is_utc_rfc3339_text, no_duplicate_categories, CleanupEntry, State};
use vstd::prelude::*;

verus! {

/// Disk usage, in percent, above which a cycle cleans up.
pub const AUTO_CLEAN_THRESHOLD_PCT: u64 = 80;

/// What the caller does next in a watch cycle.
#[derive(Debug, Clone, Copy, PartialEq, Eq, Structural)]
pub enum WatchAction {
    /// Read the disk budget and log the check.
    CheckBudget,
    /// Clean the target directories and record what they gave back.
    CleanTargetDirs,
    /// Read the disk budget again.
    RecheckBudget,
    /// Clean the pip and npm caches.
    CleanCaches,
    /// Save a sample of the usage read at the start of the cycle.
    SaveBudgetSample,
    /// The cycle is over.
    Finished,
}

/// What the caller reports after performing an action.
#[derive(Debug, Clone, Copy, PartialEq, Eq, Structural)]
pub enum WatchEvent {
    BudgetChecked { over_threshold: bool },
    TargetDirsCleaned,
    BudgetRechecked { over_threshold: bool },
    CachesCleaned,
    SampleSaved,
}

/// The action that follows `action` once `event` has been reported; an
/// event that does not answer the action leaves it pending.
pub open spec fn next_action_spec(action: WatchAction, event: WatchEvent) -> WatchAction {
    match (action, event) {
        (WatchAction::CheckBudget, WatchEvent::BudgetChecked { over_threshold }) => {
            if over_threshold {
                WatchAction::CleanTargetDirs
            } else {
                WatchAction::SaveBudgetSample
            }
        },
        (WatchAction::CleanTargetDirs, WatchEvent::TargetDirsCleaned) => WatchAction::RecheckBudget,
        (WatchAction::RecheckBudget, WatchEvent::BudgetRechecked { over_threshold }) => {
            if over_threshold {
                WatchAction::CleanCaches
            } else {
                WatchAction::SaveBudgetSample
            }
        },
        (WatchAction::CleanCaches, WatchEvent::CachesCleaned) => WatchAction::SaveBudgetSample,
        (WatchAction::SaveBudgetSample, WatchEvent::SampleSaved) => WatchAction::Finished,
        _ => action,
    }
}

/// How many actions at most remain before a cycle is over.
pub open spec fn remaining_steps(action: WatchAction) -> nat {
    match action {
        WatchAction::CheckBudget => 5,
        WatchAction::CleanTargetDirs => 4,
        WatchAction::RecheckBudget => 3,
        WatchAction::CleanCaches => 2,
        WatchAction::SaveBudgetSample => 1,
        WatchAction::Finished => 0,
    }
}

/// The first action of every cycle.
pub fn first_action() -> (a: WatchAction)
    ensures
        a == WatchAction::CheckBudget,
{
    WatchAction::CheckBudget
}

/// The action that follows `action` once `event` has been reported.
pub fn next_action(action: WatchAction, event: WatchEvent) -> (next: WatchAction)
    ensures
        next == next_action_spec(action, event),
{
    match (action, event) {
        (WatchAction::CheckBudget, WatchEvent::BudgetChecked { over_threshold }) => {
            if over_threshold {
                WatchAction::CleanTargetDirs
            } else {
                WatchAction::SaveBudgetSample
            }
        },
        (WatchAction::CleanTargetDirs, WatchEvent::TargetDirsCleaned) => WatchAction::RecheckBudget,
        (WatchAction::RecheckBudget, WatchEvent::BudgetRechecked { over_threshold }) => {
            if over_threshold {
                WatchAction::CleanCaches
            } else {
                WatchAction::SaveBudgetSample
            }
        },
        (WatchAction::CleanCaches, WatchEvent::CachesCleaned) => WatchAction::SaveBudgetSample,
        (WatchAction::SaveBudgetSample, WatchEvent::SampleSaved) => WatchAction::Finished,
        _ => action,
    }
}

/// The category an automatic cleanup of target directories is recorded under.
pub open spec fn auto_clean_category() -> Seq<char> {
    "target_dirs_auto"@
}

/// Accounts for the automatic cleanup of the target directories: the bytes
/// recovered are recorded in the state. Gives back the entry for the log;
/// when the clock gives no time (it reads before 1970), records nothing and
/// gives back nothing.
pub fn account_auto_clean(state: &mut State, before: u64, after: u64) -> (entry: Option<
    CleanupEntry,
>)
    requires
        old(state).total_recovered + (if before > after {
            before - after
        } else {
            0
        }) <= u64::MAX,
    ensures
        entry is None ==> *final(state) == *old(state),
        entry matches Some(e) ==> {
            &&& e.recovered == (if before > after {
                (before - after) as u64
            } else {
                0
            })
            &&& e.category@ == auto_clean_category()
            &&& is_utc_rfc3339_text(e.date@)
            &&& final(state).total_recovered == old(state).total_recovered + e.recovered
            &&& final(state).dates() == old(state).dates().insert(auto_clean_category(), e.date@)
            &&& final(state).budget_samples@ == old(state).budget_samples@
        },
        no_duplicate_categories(old(state).last_cleanups@) ==> no_duplicate_categories(
            final(state).last_cleanups@,
        ),
{
    let recovered = recovered_bytes(before, after);
    state.record_cleanup("target_dirs_auto", recovered)
}

/// The settings of the `watch` command: how long to wait between cycles.
#[derive(Debug, Clone, Copy, PartialEq, Eq, Structural)]
pub struct Watcher {
    pub interval_secs: u64,
}

/// The settings of the `watch` command, whose caller runs a watch cycle
/// every `interval` seconds.
pub fn cmd_watch(interval: u64) -> (w: Watcher)
    ensures
        w.interval_secs == interval,
{
    Watcher { interval_secs: interval }
}

/// A cycle cleans the caches only after it cleaned the target directories
/// and found usage still above the threshold.
pub proof fn lemma_caches_cleaned_only_when_still_over(action: WatchAction, event: WatchEvent)
    ensures
        next_action_spec(action, event) == WatchAction::CleanCaches ==> {
            ||| action == WatchAction::CleanCaches
            ||| action == WatchAction::RecheckBudget && event == (WatchEvent::BudgetRechecked {
                over_threshold: true,
            })
        },
        next_action_spec(action, event) == WatchAction::CleanTargetDirs ==> {
            ||| action == WatchAction::CleanTargetDirs
            ||| action == WatchAction::CheckBudget && event == (WatchEvent::BudgetChecked {
                over_threshold: true,
            })
        },
{
}

/// Every answered action moves the cycle forward, so a cycle is over after
/// at most five answered actions, never returns to its first action, and
/// always ends by saving a sample.
pub proof fn lemma_cycle_progresses(action: WatchAction, event: WatchEvent)
    ensures
        next_action_spec(action, event) != action ==> remaining_steps(next_action_spec(action, event))
            < remaining_steps(action),
        next_action_spec(action, event) == WatchAction::Finished ==> action
            == WatchAction::SaveBudgetSample || action == WatchAction::Finished,
        action != WatchAction::CheckBudget ==> next_action_spec(action, event)
            != WatchAction::CheckBudget,
{
}

/// A check below the threshold goes straight to saving the sample.
pub proof fn lemma_quiet_cycle(over: bool)
    ensures
        !over ==> next_action_spec(
            WatchAction::CheckBudget,
            WatchEvent::BudgetChecked { over_threshold: over },
        ) == WatchAction::SaveBudgetSample,
        over ==> next_action_spec(
            WatchAction::CheckBudget,
            WatchEvent::BudgetChecked { over_threshold: over },
        ) == WatchAction::CleanTargetDirs,
{
}

} // verus!
