//! What a cleanup run touches: the categories a command selects, the order
//! they are cleaned in, and how each cleaned category is accounted for.
//! Deleting files and running package managers is left to the caller.

use crate::scanner::DEFAULT_STALE_DAYS;
use crate::state::{is_utc_rfc3339_text, no_duplicate_categories, CleanupEntry, State};
use vstd::prelude::*;

verus! {

/// The categories a cleanup run is asked to clean.
#[derive(Debug, Clone, Copy, PartialEq, Eq, Structural)]
pub struct CleanTargets {
    pub target_dirs: bool,
    pub pip_cache: bool,
    pub npm_cache: bool,
    /// Clean sessions older than this many days.
    pub stale_sessions: Option<u64>,
    pub old_toolchains: bool,
    pub huggingface: bool,
    pub all: bool,
}

/// One category of a cleanup run.
#[derive(Debug, Clone, Copy, PartialEq, Eq, Structural)]
pub enum CleanStep {
    TargetDirs,
    PipCache,
    NpmCache,
    StaleSessions(u64),
    OldToolchains,
    HuggingFace,
}

impl CleanStep {
    /// The name a cleaned category is recorded under.
    pub open spec fn category_spec(self) -> Seq<char> {
        match self {
            CleanStep::TargetDirs => "target_dirs"@,
            CleanStep::PipCache => "pip_cache"@,
            CleanStep::NpmCache => "npm_cache"@,
            CleanStep::StaleSessions(_) => "stale_sessions"@,
            CleanStep::OldToolchains => "old_toolchains"@,
            CleanStep::HuggingFace => "huggingface"@,
        }
    }

    /// The name a cleaned category is recorded under.
    pub fn category(&self) -> (name: &'static str)
        ensures
            name@ == self.category_spec(),
    {
        match self {
            CleanStep::TargetDirs => "target_dirs",
            CleanStep::PipCache => "pip_cache",
            CleanStep::NpmCache => "npm_cache",
            CleanStep::StaleSessions(_) => "stale_sessions",
            CleanStep::OldToolchains => "old_toolchains",
            CleanStep::HuggingFace => "huggingface",
        }
    }
}

/// A step's place in the run order: target directories first, Hugging Face
/// models last.
pub open spec fn step_rank(step: CleanStep) -> int {
    match step {
        CleanStep::TargetDirs => 0,
        CleanStep::PipCache => 1,
        CleanStep::NpmCache => 2,
        CleanStep::StaleSessions(_) => 3,
        CleanStep::OldToolchains => 4,
        CleanStep::HuggingFace => 5,
    }
}

/// The steps a selection asks for, in the order they run.
pub open spec fn plan_spec(t: CleanTargets) -> Seq<CleanStep> {
    let s0 = Seq::<CleanStep>::empty();
    let s1 = if t.target_dirs {
        s0.push(CleanStep::TargetDirs)
    } else {
        s0
    };
    let s2 = if t.pip_cache {
        s1.push(CleanStep::PipCache)
    } else {
        s1
    };
    let s3 = if t.npm_cache {
        s2.push(CleanStep::NpmCache)
    } else {
        s2
    };
    let s4 = match t.stale_sessions {
        Some(days) => s3.push(CleanStep::StaleSessions(days)),
        None => s3,
    };
    let s5 = if t.old_toolchains {
        s4.push(CleanStep::OldToolchains)
    } else {
        s4
    };
    if t.huggingface {
        s5.push(CleanStep::HuggingFace)
    } else {
        s5
    }
}

impl CleanTargets {
    /// Whether the selection asks for a step: each step by its own flag,
    /// stale sessions with exactly the age asked for.
    pub open spec fn selects(self, step: CleanStep) -> bool {
        match step {
            CleanStep::TargetDirs => self.target_dirs,
            CleanStep::PipCache => self.pip_cache,
            CleanStep::NpmCache => self.npm_cache,
            CleanStep::StaleSessions(days) => self.stale_sessions == Some(days),
            CleanStep::OldToolchains => self.old_toolchains,
            CleanStep::HuggingFace => self.huggingface,
        }
    }

    /// The selection made by command-line flags: `all` selects every
    /// category, stale sessions older than the default age included unless
    /// an age was given.
    pub fn from_flags(
        target_dirs: bool,
        pip_cache: bool,
        npm_cache: bool,
        stale_sessions: Option<u64>,
        old_toolchains: bool,
        huggingface: bool,
        all: bool,
    ) -> (t: Self)
        ensures
            t.target_dirs == (target_dirs || all),
            t.pip_cache == (pip_cache || all),
            t.npm_cache == (npm_cache || all),
            t.stale_sessions == match stale_sessions {
                Some(d) => Some(d),
                None => if all {
                    Some(DEFAULT_STALE_DAYS)
                } else {
                    None
                },
            },
            t.old_toolchains == (old_toolchains || all),
            t.huggingface == (huggingface || all),
            t.all == all,
    {
        let stale = match stale_sessions {
            Some(d) => Some(d),
            None => if all {
                Some(DEFAULT_STALE_DAYS)
            } else {
                None
            },
        };
        CleanTargets {
            target_dirs: target_dirs || all,
            pip_cache: pip_cache || all,
            npm_cache: npm_cache || all,
            stale_sessions: stale,
            old_toolchains: old_toolchains || all,
            huggingface: huggingface || all,
            all,
        }
    }

    /// Whether anything at all is selected.
    pub fn any_selected(&self) -> (r: bool)
        ensures
            r == (self.target_dirs || self.pip_cache || self.npm_cache || self.stale_sessions is Some
                || self.old_toolchains || self.huggingface || self.all),
    {
        self.target_dirs || self.pip_cache || self.npm_cache || self.stale_sessions.is_some()
            || self.old_toolchains || self.huggingface || self.all
    }

    /// The categories to clean, in the order they run.
    pub fn plan(&self) -> (steps: Vec<CleanStep>)
        ensures
            steps@ == plan_spec(*self),
            forall|step: CleanStep| #[trigger] steps@.contains(step) <==> self.selects(step),
            forall|i: int, j: int|
                0 <= i < j < steps@.len() ==> step_rank(steps@[i]) < step_rank(steps@[j]),
    {
        proof {
            lemma_plan_cleans_what_is_selected(*self);
        }
        let mut steps: Vec<CleanStep> = Vec::new();
        if self.target_dirs {
            steps.push(CleanStep::TargetDirs);
        }
        if self.pip_cache {
            steps.push(CleanStep::PipCache);
        }
        if self.npm_cache {
            steps.push(CleanStep::NpmCache);
        }
        match self.stale_sessions {
            Some(days) => steps.push(CleanStep::StaleSessions(days)),
            None => {},
        }
        if self.old_toolchains {
            steps.push(CleanStep::OldToolchains);
        }
        if self.huggingface {
            steps.push(CleanStep::HuggingFace);
        }
        steps
    }
}

/// The bytes a cleanup recovered: what the category held before less what
/// it holds after, or nothing if it grew.
pub fn recovered_bytes(before: u64, after: u64) -> (r: u64)
    ensures
        r == if before > after {
            (before - after) as u64
        } else {
            0
        },
{
    before.saturating_sub(after)
}

/// Accounts for one cleaned category: the recovered bytes are added to the
/// run's total and recorded in the state. Gives back the run's new total
/// and the entry for the cleanup log; when the clock gives no time (it reads
/// before 1970), records nothing and gives back nothing.
pub fn account_step(
    state: &mut State,
    run_total: u64,
    step: CleanStep,
    before: u64,
    after: u64,
) -> (r: Option<(u64, CleanupEntry)>)
    requires
        run_total + (if before > after {
            before - after
        } else {
            0
        }) <= u64::MAX,
        old(state).total_recovered + (if before > after {
            before - after
        } else {
            0
        }) <= u64::MAX,
    ensures
        r is None ==> *final(state) == *old(state),
        r matches Some((total, e)) ==> {
            &&& e.recovered == (if before > after {
                (before - after) as u64
            } else {
                0
            })
            &&& total == run_total + e.recovered
            &&& e.category@ == step.category_spec()
            &&& is_utc_rfc3339_text(e.date@)
            &&& final(state).total_recovered == old(state).total_recovered + e.recovered
            &&& final(state).dates() == old(state).dates().insert(step.category_spec(), e.date@)
            &&& final(state).budget_samples@ == old(state).budget_samples@
        },
        no_duplicate_categories(old(state).last_cleanups@) ==> no_duplicate_categories(
            final(state).last_cleanups@,
        ),
{
    let recovered = recovered_bytes(before, after);
    match state.record_cleanup(step.category(), recovered) {
        Some(entry) => Some((run_total + recovered, entry)),
        None => None,
    }
}

/// `all` selects every category: the run cleans all six, in order, with
/// sessions older than the default age unless another age was given, and
/// nothing is selected when no flag is set.
pub proof fn lemma_all_selects_everything(t: CleanTargets)
    ensures
        t.target_dirs && t.pip_cache && t.npm_cache && t.stale_sessions == Some(DEFAULT_STALE_DAYS)
            && t.old_toolchains && t.huggingface ==> plan_spec(t) == seq![
            CleanStep::TargetDirs,
            CleanStep::PipCache,
            CleanStep::NpmCache,
            CleanStep::StaleSessions(DEFAULT_STALE_DAYS),
            CleanStep::OldToolchains,
            CleanStep::HuggingFace,
        ],
        !t.target_dirs && !t.pip_cache && !t.npm_cache && t.stale_sessions is None
            && !t.old_toolchains && !t.huggingface ==> plan_spec(t).len() == 0,
{
    if t.target_dirs && t.pip_cache && t.npm_cache && t.stale_sessions == Some(DEFAULT_STALE_DAYS)
        && t.old_toolchains && t.huggingface {
        assert(plan_spec(t) =~= seq![
            CleanStep::TargetDirs,
            CleanStep::PipCache,
            CleanStep::NpmCache,
            CleanStep::StaleSessions(DEFAULT_STALE_DAYS),
            CleanStep::OldToolchains,
            CleanStep::HuggingFace,
        ]);
    }
}

/// Pushing a step that comes later in the run order than every step
/// already planned keeps the plan in run order.
proof fn lemma_push_keeps_run_order(s: Seq<CleanStep>, x: CleanStep)
    requires
        forall|i: int, j: int| 0 <= i < j < s.len() ==> step_rank(s[i]) < step_rank(s[j]),
        forall|i: int| 0 <= i < s.len() ==> step_rank(s[i]) < step_rank(x),
    ensures
        forall|i: int, j: int|
            0 <= i < j < s.push(x).len() ==> step_rank(s.push(x)[i]) < step_rank(s.push(x)[j]),
        forall|i: int| 0 <= i < s.push(x).len() ==> step_rank(s.push(x)[i]) <= step_rank(x),
{
    assert forall|i: int, j: int| 0 <= i < j < s.push(x).len() implies step_rank(s.push(x)[i])
        < step_rank(s.push(x)[j]) by {
        if j < s.len() {
            assert(s.push(x)[i] == s[i] && s.push(x)[j] == s[j]);
        } else {
            assert(s.push(x)[i] == s[i] && s.push(x)[j] == x);
        }
    }
    assert forall|i: int| 0 <= i < s.push(x).len() implies step_rank(s.push(x)[i]) <= step_rank(
        x,
    ) by {
        if i < s.len() {
            assert(s.push(x)[i] == s[i]);
        }
    }
}

/// A run cleans exactly what its selection asks for: each category is in the
/// plan if and only if its own flag is set (stale sessions with the age that
/// was asked for), the steps come in the fixed run order, and none twice.
pub proof fn lemma_plan_cleans_what_is_selected(t: CleanTargets)
    ensures
        plan_spec(t).contains(CleanStep::TargetDirs) <==> t.target_dirs,
        plan_spec(t).contains(CleanStep::PipCache) <==> t.pip_cache,
        plan_spec(t).contains(CleanStep::NpmCache) <==> t.npm_cache,
        forall|days: u64|
            #[trigger] plan_spec(t).contains(CleanStep::StaleSessions(days)) <==> t.stale_sessions
                == Some(days),
        plan_spec(t).contains(CleanStep::OldToolchains) <==> t.old_toolchains,
        plan_spec(t).contains(CleanStep::HuggingFace) <==> t.huggingface,
        forall|step: CleanStep| #[trigger] plan_spec(t).contains(step) <==> t.selects(step),
        forall|i: int, j: int|
            0 <= i < j < plan_spec(t).len() ==> step_rank(plan_spec(t)[i]) < step_rank(
                plan_spec(t)[j],
            ),
{
    broadcast use vstd::seq_lib::lemma_seq_contains_after_push;

    let s0 = Seq::<CleanStep>::empty();
    let s1 = if t.target_dirs {
        s0.push(CleanStep::TargetDirs)
    } else {
        s0
    };
    let s2 = if t.pip_cache {
        s1.push(CleanStep::PipCache)
    } else {
        s1
    };
    let s3 = if t.npm_cache {
        s2.push(CleanStep::NpmCache)
    } else {
        s2
    };
    let s4 = match t.stale_sessions {
        Some(days) => s3.push(CleanStep::StaleSessions(days)),
        None => s3,
    };
    let s5 = if t.old_toolchains {
        s4.push(CleanStep::OldToolchains)
    } else {
        s4
    };
    let s6 = if t.huggingface {
        s5.push(CleanStep::HuggingFace)
    } else {
        s5
    };
    assert(plan_spec(t) == s6);
    assert forall|step: CleanStep| #[trigger] s6.contains(step) <==> t.selects(step) by {
        assert(!s0.contains(step));
    }
    if t.target_dirs {
        lemma_push_keeps_run_order(s0, CleanStep::TargetDirs);
    }
    assert(forall|i: int| 0 <= i < s1.len() ==> step_rank(s1[i]) < 1);
    if t.pip_cache {
        lemma_push_keeps_run_order(s1, CleanStep::PipCache);
    }
    assert(forall|i: int| 0 <= i < s2.len() ==> step_rank(s2[i]) < 2);
    if t.npm_cache {
        lemma_push_keeps_run_order(s2, CleanStep::NpmCache);
    }
    assert(forall|i: int| 0 <= i < s3.len() ==> step_rank(s3[i]) < 3);
    match t.stale_sessions {
        Some(days) => lemma_push_keeps_run_order(s3, CleanStep::StaleSessions(days)),
        None => {},
    }
    assert(forall|i: int| 0 <= i < s4.len() ==> step_rank(s4[i]) < 4);
    if t.old_toolchains {
        lemma_push_keeps_run_order(s4, CleanStep::OldToolchains);
    }
    assert(forall|i: int| 0 <= i < s5.len() ==> step_rank(s5[i]) < 5);
    if t.huggingface {
        lemma_push_keeps_run_order(s5, CleanStep::HuggingFace);
    }
    assert(t.selects(CleanStep::TargetDirs) == t.target_dirs);
    assert(t.selects(CleanStep::PipCache) == t.pip_cache);
    assert(t.selects(CleanStep::NpmCache) == t.npm_cache);
    assert(t.selects(CleanStep::OldToolchains) == t.old_toolchains);
    assert(t.selects(CleanStep::HuggingFace) == t.huggingface);
    assert forall|days: u64| #[trigger]
        plan_spec(t).contains(CleanStep::StaleSessions(days)) <==> t.stale_sessions == Some(
            days,
        ) by {
        assert(t.selects(CleanStep::StaleSessions(days)) == (t.stale_sessions == Some(days)));
    }
}

/// Each cleaned category is recorded under its own fixed name, and no two
/// categories share a name.
pub proof fn lemma_category_names(days: u64)
    ensures
        CleanStep::TargetDirs.category_spec() == "target_dirs"@,
        CleanStep::PipCache.category_spec() == "pip_cache"@,
        CleanStep::NpmCache.category_spec() == "npm_cache"@,
        CleanStep::StaleSessions(days).category_spec() == "stale_sessions"@,
        CleanStep::OldToolchains.category_spec() == "old_toolchains"@,
        CleanStep::HuggingFace.category_spec() == "huggingface"@,
        forall|a: CleanStep, b: CleanStep|
            #[trigger] a.category_spec() == #[trigger] b.category_spec() ==> step_rank(a)
                == step_rank(b),
{
    reveal_strlit("target_dirs");
    reveal_strlit("pip_cache");
    reveal_strlit("npm_cache");
    reveal_strlit("stale_sessions");
    reveal_strlit("old_toolchains");
    reveal_strlit("huggingface");
    assert forall|a: CleanStep, b: CleanStep|
        #[trigger] a.category_spec() == #[trigger] b.category_spec() implies step_rank(a)
        == step_rank(b) by {
        assert(a.category_spec()[0] == b.category_spec()[0]);
    }
}

/// A cleanup never reports more bytes recovered than the category held before.
pub proof fn lemma_recovered_at_most_before(before: u64, after: u64)
    ensures
        (if before > after {
            before - after
        } else {
            0
        }) <= before,
{
}

} // verus!
