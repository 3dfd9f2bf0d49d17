//! The daemon's persistent state: when each category was last cleaned, how
//! many bytes all cleanups recovered, and the recent disk-usage samples that
//! the growth rate is estimated from. Reading and writing the state file is
//! left to the caller.

use crate::text::{is_digit, joined_path, join_path};
use vstd::string::StringSliceAdditionalSpecFns;
use vstd::prelude::*;

verus! {

/// The home directory from `dirs::home_dir`, as the bytes of the path
/// (`OsString::into_encoded_bytes`, which on Unix are the path's own bytes).
/// Which directory it is depends on the environment and is not stated. On
/// the Unix targets this daemon serves, `dirs-sys` returns `$HOME` only when
/// it is non-empty, and otherwise the passwd entry's directory only when that
/// is non-empty, so a returned directory is never empty.
#[verifier::external_body]
fn home_dir_from_env() -> (r: Option<Vec<u8>>)
    ensures
        r matches Some(h) ==> h@.len() > 0,
{
    match dirs::home_dir() {
        Some(p) => Some(p.into_os_string().into_encoded_bytes()),
        None => None,
    }
}

/// Whether `s[from..to]` are all ASCII digits.
pub open spec fn digits_between(s: Seq<char>, from: int, to: int) -> bool {
    forall|k: int| from <= k < to ==> is_digit(#[trigger] s[k])
}

/// The shape of `DateTime::<Utc>::to_rfc3339` output whose fraction of a
/// second (with its `'.'`) takes `f` characters: `YYYY-MM-DDTHH:MM:SS`, the
/// fraction, and `+00:00`. The year is four digits, or `'+'` and more digits
/// beyond the year 9999.
pub open spec fn utc_rfc3339_shape(s: Seq<char>, f: int) -> bool {
    let n = s.len() as int;
    let e = n - 6 - f;
    &&& e >= 19
    &&& s.subrange(n - 6, n) == "+00:00"@
    &&& f > 0 ==> s[e] == '.' && digits_between(s, e + 1, n - 6)
    &&& s[e - 9] == 'T' && s[e - 6] == ':' && s[e - 3] == ':'
    &&& digits_between(s, e - 8, e - 6) && digits_between(s, e - 5, e - 3) && digits_between(
        s,
        e - 2,
        e,
    )
    &&& s[e - 15] == '-' && s[e - 12] == '-'
    &&& digits_between(s, e - 14, e - 12) && digits_between(s, e - 11, e - 9)
    &&& (digits_between(s, 0, e - 15) || (s[0] == '+' && digits_between(s, 1, e - 15)))
}

/// What `DateTime::<Utc>::to_rfc3339` writes: the date, `T`, the time with
/// no fraction or a fraction of 3, 6 or 9 digits, and the offset `+00:00`.
pub open spec fn is_utc_rfc3339_text(s: Seq<char>) -> bool {
    ||| utc_rfc3339_shape(s, 0)
    ||| utc_rfc3339_shape(s, 4)
    ||| utc_rfc3339_shape(s, 7)
    ||| utc_rfc3339_shape(s, 10)
}

/// The current time from `SystemTime::now`, as seconds and nanoseconds
/// since 1970 (`duration_since(UNIX_EPOCH)`), made into a UTC date and time
/// by `chrono::DateTime::from_timestamp` and rendered by
/// `DateTime::to_rfc3339`: what `chrono::Utc::now().to_rfc3339()` gives,
/// without its panic. `None` when the clock reads a time before 1970 or past
/// what chrono represents. Which time it is depends on when the call is made
/// and is not stated; chrono writes the year as four digits (or `'+'` and
/// more digits), the fraction of a second as 0, 3, 6 or 9 digits, and for
/// UTC the offset `+00:00` (`write_rfc3339` with `use_z` false).
#[verifier::external_body]
pub(crate) fn utc_now_rfc3339() -> (r: Option<String>)
    ensures
        r matches Some(s) ==> is_utc_rfc3339_text(s@),
{
    let since = std::time::SystemTime::now().duration_since(std::time::UNIX_EPOCH).ok()?;
    let secs = i64::try_from(since.as_secs()).ok()?;
    let now = chrono::DateTime::from_timestamp(secs, since.subsec_nanos())?;
    Some(now.to_rfc3339())
}

/// The directory used when no home directory is known: `/root`.
pub open spec fn fallback_home() -> Seq<u8> {
    seq![47u8, 114u8, 111u8, 111u8, 116u8]
}

/// The home directory, or `/root` when none is known.
pub fn home_or_fallback(home: Option<Vec<u8>>) -> (r: Vec<u8>)
    ensures
        r@ == match home {
            Some(h) => h@,
            None => fallback_home(),
        },
{
    match home {
        Some(h) => h,
        None => {
            let root: Vec<u8> = vec![47u8, 114u8, 111u8, 111u8, 116u8];
            proof {
                assert(root@ =~= fallback_home());
            }
            root
        },
    }
}

/// The user's home directory (the bytes of its path), or `/root` when none
/// is known; never empty.
pub fn home_dir() -> (r: Vec<u8>)
    ensures
        r@.len() > 0,
{
    home_or_fallback(home_dir_from_env())
}

/// Where the state file lives under a home directory.
pub open spec fn state_rel() -> Seq<u8> {
    ".fleet-warden/state.json".spec_bytes()
}

/// Where the cleanup log lives under a home directory.
pub open spec fn log_rel() -> Seq<u8> {
    ".fleet-warden/log.jsonl".spec_bytes()
}

/// The state file under the home directory `home`.
pub fn state_path_in(home: &[u8]) -> (p: Vec<u8>)
    ensures
        p@ == joined_path(home@, state_rel()),
{
    join_path(home, ".fleet-warden/state.json".as_bytes())
}

/// The cleanup log under the home directory `home`.
pub fn log_path_in(home: &[u8]) -> (p: Vec<u8>)
    ensures
        p@ == joined_path(home@, log_rel()),
{
    join_path(home, ".fleet-warden/log.jsonl".as_bytes())
}

/// The state file, `~/.fleet-warden/state.json`, as the bytes of its path.
pub fn state_path() -> (p: Vec<u8>)
    ensures
        exists|home: Seq<u8>| home.len() > 0 && p@ == joined_path(home, state_rel()),
{
    let home = home_dir();
    state_path_in(home.as_slice())
}

/// The cleanup log, `~/.fleet-warden/log.jsonl`, as the bytes of its path.
pub fn log_path() -> (p: Vec<u8>)
    ensures
        exists|home: Seq<u8>| home.len() > 0 && p@ == joined_path(home, log_rel()),
{
    let home = home_dir();
    log_path_in(home.as_slice())
}

/// One observation of disk usage.
#[derive(Debug, Clone)]
pub struct BudgetSample {
    pub timestamp: String,
    pub used_bytes: u64,
    pub total_bytes: u64,
}

/// One cleanup, as written to the cleanup log.
#[derive(Debug, Clone)]
pub struct CleanupEntry {
    pub date: String,
    pub category: String,
    pub recovered: u64,
}

/// How many budget samples the state keeps.
pub const MAX_BUDGET_SAMPLES: usize = 30;

/// The persistent state.
#[derive(Debug, Clone)]
pub struct State {
    /// `(category, date)` pairs; a later pair for a category overrides an earlier one.
    pub last_cleanups: Vec<(String, String)>,
    pub total_recovered: u64,
    pub budget_samples: Vec<BudgetSample>,
}

/// The date each category was last cleaned: later pairs override earlier ones.
pub open spec fn cleanup_dates(entries: Seq<(String, String)>) -> Map<Seq<char>, Seq<char>>
    decreases entries.len(),
{
    if entries.len() == 0 {
        Map::empty()
    } else {
        cleanup_dates(entries.drop_last()).insert(entries.last().0@, entries.last().1@)
    }
}

/// The pairs of `entries` whose category is not `key`, in order.
pub open spec fn without_category(entries: Seq<(String, String)>, key: Seq<char>) -> Seq<
    (String, String),
>
    decreases entries.len(),
{
    if entries.len() == 0 {
        Seq::empty()
    } else if entries.last().0@ == key {
        without_category(entries.drop_last(), key)
    } else {
        without_category(entries.drop_last(), key).push(entries.last())
    }
}

proof fn lemma_without_category_dates(entries: Seq<(String, String)>, key: Seq<char>)
    ensures
        cleanup_dates(without_category(entries, key)) == cleanup_dates(entries).remove(key),
    decreases entries.len(),
{
    if entries.len() == 0 {
        assert(cleanup_dates(entries).remove(key) =~= Map::empty());
    } else {
        let p = entries.drop_last();
        let e = entries.last();
        lemma_without_category_dates(p, key);
        if e.0@ == key {
            assert(cleanup_dates(entries).remove(key) =~= cleanup_dates(p).remove(key));
        } else {
            let w = without_category(p, key);
            assert(w.push(e).drop_last() =~= w);
            assert(cleanup_dates(entries).remove(key) =~= cleanup_dates(p).remove(key).insert(
                e.0@,
                e.1@,
            ));
        }
    }
}

/// No category occurs twice among the pairs.
pub open spec fn no_duplicate_categories(entries: Seq<(String, String)>) -> bool {
    forall|i: int, j: int|
        0 <= i < j < entries.len() ==> (#[trigger] entries[i]).0@ != (#[trigger] entries[j]).0@
}

/// The pairs kept by `without_category` come from `entries`, in order, and
/// none of them has the category `key`; when no category occurred twice in
/// `entries`, none does among them.
pub proof fn lemma_without_category_keeps_unique(entries: Seq<(String, String)>, key: Seq<char>)
    ensures
        forall|i: int|
            0 <= i < without_category(entries, key).len() ==> (#[trigger] without_category(
                entries,
                key,
            )[i]).0@ != key && entries.contains(without_category(entries, key)[i]),
        no_duplicate_categories(entries) ==> no_duplicate_categories(
            without_category(entries, key),
        ),
    decreases entries.len(),
{
    if entries.len() > 0 {
        let p = entries.drop_last();
        let e = entries.last();
        lemma_without_category_keeps_unique(p, key);
        let w = without_category(p, key);
        assert forall|i: int| 0 <= i < w.len() implies entries.contains(#[trigger] w[i]) by {
            let k = choose|k: int| 0 <= k < p.len() && p[k] == w[i];
            assert(entries[k] == w[i]);
        }
        if no_duplicate_categories(entries) {
            assert(no_duplicate_categories(p)) by {
                assert forall|i: int, j: int| 0 <= i < j < p.len() implies (#[trigger] p[i]).0@
                    != (#[trigger] p[j]).0@ by {
                    assert(p[i] == entries[i] && p[j] == entries[j]);
                }
            }
        }
        if e.0@ != key {
            let w2 = w.push(e);
            assert forall|i: int| 0 <= i < w2.len() implies (#[trigger] w2[i]).0@ != key
                && entries.contains(w2[i]) by {
                if i == w.len() {
                    assert(entries[entries.len() - 1] == e);
                }
            }
            if no_duplicate_categories(entries) {
                assert forall|i: int, j: int| 0 <= i < j < w2.len() implies (#[trigger] w2[i]).0@
                    != (#[trigger] w2[j]).0@ by {
                    if j == w.len() {
                        let k = choose|k: int| 0 <= k < p.len() && p[k] == w[i];
                        assert(entries[k] == w[i]);
                        assert(entries[entries.len() - 1] == e);
                    } else {
                        assert(w2[i] == w[i] && w2[j] == w[j]);
                    }
                }
            }
        }
    }
}

/// The samples that remain when only the newest `n` of `s` are kept.
pub open spec fn keep_newest<T>(s: Seq<T>, n: nat) -> Seq<T> {
    if s.len() > n {
        s.subrange(s.len() - n, s.len() as int)
    } else {
        s
    }
}

impl Default for State {
    fn default() -> (s: Self)
        ensures
            s.last_cleanups@.len() == 0,
            no_duplicate_categories(s.last_cleanups@),
            s.total_recovered == 0,
            s.budget_samples@.len() == 0,
    {
        State { last_cleanups: Vec::new(), total_recovered: 0, budget_samples: Vec::new() }
    }
}

impl State {
    /// The date each category was last cleaned.
    pub open spec fn dates(&self) -> Map<Seq<char>, Seq<char>> {
        cleanup_dates(self.last_cleanups@)
    }

    /// Records that `category` was cleaned at `date`, recovering `recovered`
    /// bytes, and gives back the entry for the cleanup log.
    pub fn record_cleanup_at(&mut self, category: &str, recovered: u64, date: String) -> (entry:
        CleanupEntry)
        requires
            old(self).total_recovered + recovered <= u64::MAX,
        ensures
            final(self).dates() == old(self).dates().insert(category@, date@),
            final(self).last_cleanups@.len() > 0,
            final(self).last_cleanups@.drop_last() == without_category(
                old(self).last_cleanups@,
                category@,
            ),
            final(self).last_cleanups@.last().0@ == category@,
            final(self).last_cleanups@.last().1 == date,
            final(self).total_recovered == old(self).total_recovered + recovered,
            final(self).budget_samples@ == old(self).budget_samples@,
            entry.date == date,
            entry.category@ == category@,
            entry.recovered == recovered,
            no_duplicate_categories(old(self).last_cleanups@) ==> no_duplicate_categories(
                final(self).last_cleanups@,
            ),
    {
        let key = category.to_owned();
        let mut kept: Vec<(String, String)> = Vec::new();
        let n = self.last_cleanups.len();
        let mut i: usize = 0;
        while i < n
            invariant
                n == self.last_cleanups@.len(),
                i <= n,
                key@ == category@,
                kept@ == without_category(self.last_cleanups@.take(i as int), key@),
            decreases n - i,
        {
            let e = &self.last_cleanups[i];
            proof {
                assert(self.last_cleanups@.take(i + 1).drop_last() =~= self.last_cleanups@.take(
                    i as int,
                ));
                assert(self.last_cleanups@.take(i + 1).last() == *e);
            }
            if !(e.0 == key) {
                kept.push((e.0.clone(), e.1.clone()));
            }
            i = i + 1;
        }
        proof {
            assert(self.last_cleanups@.take(n as int) =~= self.last_cleanups@);
            lemma_without_category_dates(self.last_cleanups@, key@);
        }
        let ghost old_kept = kept@;
        kept.push((key, date.clone()));
        proof {
            lemma_without_category_keeps_unique(self.last_cleanups@, key@);
            if no_duplicate_categories(self.last_cleanups@) {
                assert forall|i: int, j: int| 0 <= i < j < kept@.len() implies (
                #[trigger] kept@[i]).0@ != (#[trigger] kept@[j]).0@ by {
                    if j == kept@.len() - 1 {
                        assert(kept@[i] == old_kept[i]);
                    } else {
                        assert(kept@[i] == old_kept[i] && kept@[j] == old_kept[j]);
                    }
                }
            }
            assert(kept@.drop_last() =~= old_kept);
            assert(cleanup_dates(kept@) =~= cleanup_dates(self.last_cleanups@).insert(
                category@,
                date@,
            ));
        }
        self.last_cleanups = kept;
        self.total_recovered = self.total_recovered + recovered;
        CleanupEntry { date, category: category.to_owned(), recovered }
    }

    /// Records that `category` was just cleaned, recovering `recovered`
    /// bytes, and gives back the entry for the cleanup log; when the clock
    /// gives no time (it reads before 1970), records nothing and gives back
    /// nothing.
    pub fn record_cleanup(&mut self, category: &str, recovered: u64) -> (entry: Option<
        CleanupEntry,
    >)
        requires
            old(self).total_recovered + recovered <= u64::MAX,
        ensures
            entry is None ==> *final(self) == *old(self),
            entry matches Some(e) ==> {
                &&& final(self).dates() == old(self).dates().insert(category@, e.date@)
                &&& final(self).last_cleanups@.len() > 0
                &&& final(self).last_cleanups@.drop_last() == without_category(
                    old(self).last_cleanups@,
                    category@,
                )
                &&& final(self).last_cleanups@.last().0@ == category@
                &&& final(self).last_cleanups@.last().1 == e.date
                &&& final(self).total_recovered == old(self).total_recovered + recovered
                &&& final(self).budget_samples@ == old(self).budget_samples@
                &&& is_utc_rfc3339_text(e.date@)
                &&& e.category@ == category@
                &&& e.recovered == recovered
            },
            no_duplicate_categories(old(self).last_cleanups@) ==> no_duplicate_categories(
                final(self).last_cleanups@,
            ),
    {
        match utc_now_rfc3339() {
            Some(now) => Some(self.record_cleanup_at(category, recovered, now)),
            None => None,
        }
    }

    /// When `category` was last cleaned, if it ever was.
    pub fn last_cleanup(&self, category: &str) -> (date: Option<String>)
        ensures
            date is Some <==> self.dates().contains_key(category@),
            date matches Some(d) ==> d@ == self.dates()[category@],
    {
        let key = category.to_owned();
        let mut i = self.last_cleanups.len();
        proof {
            assert(self.last_cleanups@.take(i as int) =~= self.last_cleanups@);
        }
        while i > 0
            invariant
                i <= self.last_cleanups@.len(),
                key@ == category@,
                cleanup_dates(self.last_cleanups@.take(i as int)).contains_key(key@)
                    == self.dates().contains_key(key@),
                cleanup_dates(self.last_cleanups@.take(i as int)).contains_key(key@) ==> cleanup_dates(
                    self.last_cleanups@.take(i as int),
                )[key@] == self.dates()[key@],
            decreases i,
        {
            let e = &self.last_cleanups[i - 1];
            proof {
                assert(self.last_cleanups@.take(i as int).drop_last() =~= self.last_cleanups@.take(
                    i - 1,
                ));
                assert(self.last_cleanups@.take(i as int).last() == *e);
            }
            if e.0 == key {
                return Some(e.1.clone());
            }
            i = i - 1;
        }
        proof {
            assert(cleanup_dates(self.last_cleanups@.take(0)) =~= Map::empty());
        }
        None
    }

    /// Drops the oldest budget samples so that only the newest
    /// `MAX_BUDGET_SAMPLES` remain.
    pub fn trim_budget_samples(&mut self)
        ensures
            final(self).budget_samples@ == keep_newest(
                old(self).budget_samples@,
                MAX_BUDGET_SAMPLES as nat,
            ),
            final(self).last_cleanups@ == old(self).last_cleanups@,
            final(self).total_recovered == old(self).total_recovered,
    {
        let len = self.budget_samples.len();
        if len > MAX_BUDGET_SAMPLES {
            let excess = len - MAX_BUDGET_SAMPLES;
            let newest = self.budget_samples.split_off(excess);
            self.budget_samples = newest;
        }
    }

    /// Adds a disk-usage sample, keeping only the newest
    /// `MAX_BUDGET_SAMPLES`.
    pub fn push_budget_sample(&mut self, sample: BudgetSample)
        ensures
            final(self).budget_samples@ == keep_newest(
                old(self).budget_samples@.push(sample),
                MAX_BUDGET_SAMPLES as nat,
            ),
            final(self).last_cleanups@ == old(self).last_cleanups@,
            final(self).total_recovered == old(self).total_recovered,
    {
        self.budget_samples.push(sample);
        self.trim_budget_samples();
    }

    /// Adds a sample of the current disk usage, stamped with the current
    /// time, and gives back that time; when the clock gives no time (it reads
    /// before 1970), adds nothing and gives back nothing.
    pub fn record_budget_sample(&mut self, used: u64, total: u64) -> (sample_time: Option<String>)
        ensures
            sample_time is None ==> *final(self) == *old(self),
            sample_time matches Some(t) ==> {
                &&& final(self).budget_samples@.len() == if old(self).budget_samples@.len()
                    >= MAX_BUDGET_SAMPLES {
                    MAX_BUDGET_SAMPLES as int
                } else {
                    old(self).budget_samples@.len() + 1int
                }
                &&& final(self).budget_samples@.last().timestamp@ == t@
                &&& is_utc_rfc3339_text(t@)
                &&& final(self).budget_samples@.last().used_bytes == used
                &&& final(self).budget_samples@.last().total_bytes == total
                &&& final(self).budget_samples@ == keep_newest(
                    old(self).budget_samples@.push(final(self).budget_samples@.last()),
                    MAX_BUDGET_SAMPLES as nat,
                )
                &&& final(self).last_cleanups@ == old(self).last_cleanups@
                &&& final(self).total_recovered == old(self).total_recovered
            },
    {
        match utc_now_rfc3339() {
            Some(now) => {
                let sample = BudgetSample {
                    timestamp: now.clone(),
                    used_bytes: used,
                    total_bytes: total,
                };
                self.push_budget_sample(sample);
                Some(now)
            },
            None => None,
        }
    }
}

/// Reading back a category's date after a cleanup was recorded gives the
/// date that was recorded, and the other categories keep theirs.
pub proof fn lemma_recorded_date_reads_back(
    before: Map<Seq<char>, Seq<char>>,
    category: Seq<char>,
    date: Seq<char>,
    other: Seq<char>,
)
    ensures
        before.insert(category, date).contains_key(category),
        before.insert(category, date)[category] == date,
        other != category ==> (before.insert(category, date).contains_key(other)
            == before.contains_key(other)),
        other != category && before.contains_key(other) ==> before.insert(category, date)[other]
            == before[other],
{
}

/// After a sample is added, at most `MAX_BUDGET_SAMPLES` samples remain,
/// the new sample is the newest, and the others are the newest of the old
/// samples, in their order.
pub proof fn lemma_budget_samples_trimmed(samples: Seq<BudgetSample>, sample: BudgetSample)
    ensures
        keep_newest(samples.push(sample), MAX_BUDGET_SAMPLES as nat).len() <= MAX_BUDGET_SAMPLES,
        keep_newest(samples.push(sample), MAX_BUDGET_SAMPLES as nat).last() == sample,
        samples.len() < MAX_BUDGET_SAMPLES ==> keep_newest(
            samples.push(sample),
            MAX_BUDGET_SAMPLES as nat,
        ) == samples.push(sample),
        forall|k: int|
            0 <= k < keep_newest(samples.push(sample), MAX_BUDGET_SAMPLES as nat).len() - 1 ==> #[trigger] keep_newest(
                samples.push(sample),
                MAX_BUDGET_SAMPLES as nat,
            )[k] == samples[samples.len() + 1 - keep_newest(
                samples.push(sample),
                MAX_BUDGET_SAMPLES as nat,
            ).len() + k],
{
}

} // verus!
