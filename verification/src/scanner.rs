//! What a disk scan reports and the rules it applies: which categories are
//! reported, what counts as a large file, which directories the large-file
//! search skips, which toolchain is active and which sessions are stale.
//! Walking the file system is left to the caller.

use crate::text::{
    char_is_space, chars_of, contains_chars, contains_seq, is_space, str_equal, string_from_range,
    word_spans, words,
};
use vstd::prelude::*;

verus! {

/// Sizes (bytes) and item counts of every cleanable category.
#[derive(Debug, Clone, Copy)]
pub struct ScanReport {
    pub target_dirs_count: usize,
    pub target_dirs_size: u64,
    pub pip_cache_size: u64,
    pub pip_cache_count: usize,
    pub npm_cache_size: u64,
    pub npm_cache_count: usize,
    pub old_toolchains_count: usize,
    pub old_toolchains_size: u64,
    pub stale_sessions_count: usize,
    pub stale_sessions_size: u64,
    pub huggingface_count: usize,
    pub huggingface_size: u64,
    pub large_files_count: usize,
    pub large_files_size: u64,
}

/// The categories a scan reports on, in report order.
#[derive(Debug, Clone, Copy, PartialEq, Eq, Structural)]
pub enum Category {
    TargetDirs,
    PipCache,
    NpmCache,
    OldToolchains,
    StaleSessions,
    HuggingFace,
    LargeFiles,
}

/// The categories in report order.
pub open spec fn report_order() -> Seq<Category> {
    seq![
        Category::TargetDirs,
        Category::PipCache,
        Category::NpmCache,
        Category::OldToolchains,
        Category::StaleSessions,
        Category::HuggingFace,
        Category::LargeFiles,
    ]
}

impl ScanReport {
    /// The sum of the category sizes.
    pub open spec fn total_spec(&self) -> int {
        self.target_dirs_size + self.pip_cache_size + self.npm_cache_size + self.old_toolchains_size
            + self.stale_sessions_size + self.huggingface_size + self.large_files_size
    }

    /// The size and item count of one category.
    pub open spec fn figures(&self, c: Category) -> (u64, usize) {
        match c {
            Category::TargetDirs => (self.target_dirs_size, self.target_dirs_count),
            Category::PipCache => (self.pip_cache_size, self.pip_cache_count),
            Category::NpmCache => (self.npm_cache_size, self.npm_cache_count),
            Category::OldToolchains => (self.old_toolchains_size, self.old_toolchains_count),
            Category::StaleSessions => (self.stale_sessions_size, self.stale_sessions_count),
            Category::HuggingFace => (self.huggingface_size, self.huggingface_count),
            Category::LargeFiles => (self.large_files_size, self.large_files_count),
        }
    }

    /// Whether a category has anything to report.
    pub open spec fn is_shown(&self, c: Category) -> bool {
        self.figures(c).0 > 0 || self.figures(c).1 > 0
    }

    /// The categories the report shows, in report order.
    pub open spec fn shown_spec(&self) -> Seq<Category> {
        report_order().filter(|c: Category| self.is_shown(c))
    }

    /// The report made of the seven scans, each given as `(count, size)` as
    /// the scanners return it.
    pub fn from_scans(
        target_dirs: (usize, u64),
        pip_cache: (usize, u64),
        npm_cache: (usize, u64),
        old_toolchains: (usize, u64),
        stale_sessions: (usize, u64),
        huggingface: (usize, u64),
        large_files: (usize, u64),
    ) -> (r: Self)
        ensures
            r.figures(Category::TargetDirs) == (target_dirs.1, target_dirs.0),
            r.figures(Category::PipCache) == (pip_cache.1, pip_cache.0),
            r.figures(Category::NpmCache) == (npm_cache.1, npm_cache.0),
            r.figures(Category::OldToolchains) == (old_toolchains.1, old_toolchains.0),
            r.figures(Category::StaleSessions) == (stale_sessions.1, stale_sessions.0),
            r.figures(Category::HuggingFace) == (huggingface.1, huggingface.0),
            r.figures(Category::LargeFiles) == (large_files.1, large_files.0),
    {
        ScanReport {
            target_dirs_count: target_dirs.0,
            target_dirs_size: target_dirs.1,
            pip_cache_size: pip_cache.1,
            pip_cache_count: pip_cache.0,
            npm_cache_size: npm_cache.1,
            npm_cache_count: npm_cache.0,
            old_toolchains_count: old_toolchains.0,
            old_toolchains_size: old_toolchains.1,
            stale_sessions_count: stale_sessions.0,
            stale_sessions_size: stale_sessions.1,
            huggingface_count: huggingface.0,
            huggingface_size: huggingface.1,
            large_files_count: large_files.0,
            large_files_size: large_files.1,
        }
    }

    /// The bytes that a cleanup of every category could recover.
    pub fn total_cleanable(&self) -> (total: u64)
        requires
            self.total_spec() <= u64::MAX,
        ensures
            total == self.total_spec(),
    {
        self.target_dirs_size + self.pip_cache_size + self.npm_cache_size + self.old_toolchains_size
            + self.stale_sessions_size + self.huggingface_size + self.large_files_size
    }

    /// The size and item count of one category.
    pub fn category_figures(&self, c: Category) -> (r: (u64, usize))
        ensures
            r == self.figures(c),
    {
        match c {
            Category::TargetDirs => (self.target_dirs_size, self.target_dirs_count),
            Category::PipCache => (self.pip_cache_size, self.pip_cache_count),
            Category::NpmCache => (self.npm_cache_size, self.npm_cache_count),
            Category::OldToolchains => (self.old_toolchains_size, self.old_toolchains_count),
            Category::StaleSessions => (self.stale_sessions_size, self.stale_sessions_count),
            Category::HuggingFace => (self.huggingface_size, self.huggingface_count),
            Category::LargeFiles => (self.large_files_size, self.large_files_count),
        }
    }

    /// The categories with a nonzero size or count, in report order.
    pub fn shown_categories(&self) -> (shown: Vec<Category>)
        ensures
            shown@ == self.shown_spec(),
            forall|c: Category| #[trigger]
                shown@.contains(c) <==> (self.figures(c).0 > 0 || self.figures(c).1 > 0),
            shown@.no_duplicates(),
    {
        let order = vec![
            Category::TargetDirs,
            Category::PipCache,
            Category::NpmCache,
            Category::OldToolchains,
            Category::StaleSessions,
            Category::HuggingFace,
            Category::LargeFiles,
        ];
        proof {
            assert(order@ =~= report_order());
        }
        let ghost pred = |c: Category| self.is_shown(c);
        let mut shown: Vec<Category> = Vec::new();
        let mut i: usize = 0;
        while i < order.len()
            invariant
                i <= order@.len(),
                order@ == report_order(),
                pred == (|c: Category| self.is_shown(c)),
                shown@ == order@.take(i as int).filter(pred),
            decreases order.len() - i,
        {
            let c = order[i];
            let (size, count) = self.category_figures(c);
            proof {
                reveal_with_fuel(Seq::<_>::filter, 1);
                assert(order@.take(i + 1).drop_last() =~= order@.take(i as int));
            }
            if size > 0 || count > 0 {
                shown.push(c);
            }
            i = i + 1;
        }
        proof {
            assert(order@.take(order@.len() as int) =~= order@);
            lemma_report_lists_every_category();
            lemma_shown_are_the_nonempty_categories(*self);
        }
        shown
    }
}

/// The report lists every category exactly once: all seven are in the
/// report order, and none twice.
pub proof fn lemma_report_lists_every_category()
    ensures
        forall|c: Category| #[trigger] report_order().contains(c),
        report_order().len() == 7,
        report_order().no_duplicates(),
{
    let o = report_order();
    assert forall|c: Category| #[trigger] o.contains(c) by {
        match c {
            Category::TargetDirs => assert(o[0] == c),
            Category::PipCache => assert(o[1] == c),
            Category::NpmCache => assert(o[2] == c),
            Category::OldToolchains => assert(o[3] == c),
            Category::StaleSessions => assert(o[4] == c),
            Category::HuggingFace => assert(o[5] == c),
            Category::LargeFiles => assert(o[6] == c),
        }
    }
}

/// A category is shown exactly when it has a nonzero size or a nonzero
/// count, and no category is shown twice.
pub proof fn lemma_shown_are_the_nonempty_categories(r: ScanReport)
    ensures
        forall|c: Category| #[trigger]
            r.shown_spec().contains(c) <==> (r.figures(c).0 > 0 || r.figures(c).1 > 0),
        r.shown_spec().no_duplicates(),
{
    broadcast use vstd::seq_lib::group_filter_ensures;

    lemma_report_lists_every_category();
    let pred = |c: Category| r.is_shown(c);
    let o = report_order();
    assert forall|c: Category| #[trigger] o.filter(pred).contains(c) <==> (r.figures(c).0 > 0
        || r.figures(c).1 > 0) by {
        if o.filter(pred).contains(c) {
            o.lemma_filter_contains_rev(pred, c);
            let k = choose|k: int| 0 <= k < o.filter(pred).len() && o.filter(pred)[k] == c;
            assert(pred(o.filter(pred)[k]));
        }
        if r.figures(c).0 > 0 || r.figures(c).1 > 0 {
            assert(o.contains(c));
            let k = choose|k: int| 0 <= k < o.len() && o[k] == c;
            assert(pred(o[k]));
        }
    }
    lemma_filter_keeps_unique(o, pred);
}

/// Filtering a sequence in which nothing occurs twice gives one in which
/// nothing occurs twice.
proof fn lemma_filter_keeps_unique<A>(s: Seq<A>, pred: spec_fn(A) -> bool)
    requires
        s.no_duplicates(),
    ensures
        s.filter(pred).no_duplicates(),
    decreases s.len(),
{
    reveal(Seq::filter);
    if s.len() > 0 {
        let rest = s.drop_last();
        let x = s.last();
        assert forall|i: int, j: int| 0 <= i < rest.len() && 0 <= j < rest.len() && i != j implies rest[i]
            != rest[j] by {
            assert(rest[i] == s[i] && rest[j] == s[j]);
        }
        lemma_filter_keeps_unique(rest, pred);
        if pred(x) {
            let f = rest.filter(pred);
            if f.contains(x) {
                rest.lemma_filter_contains_rev(pred, x);
                let k = choose|k: int| 0 <= k < rest.len() && rest[k] == x;
                assert(s[k] == s[s.len() - 1]);
            }
            assert forall|i: int, j: int|
                0 <= i < f.push(x).len() && 0 <= j < f.push(x).len() && i != j implies f.push(x)[i]
                != f.push(x)[j] by {
                if i == f.len() {
                    assert(f.contains(f[j]));
                } else if j == f.len() {
                    assert(f.contains(f[i]));
                }
            }
        }
    }
}

/// The total size and the total count of a list of `(size, count)` results.
pub open spec fn sum_sizes(results: Seq<(u64, usize)>) -> int
    decreases results.len(),
{
    if results.len() == 0 {
        0
    } else {
        sum_sizes(results.drop_last()) + results.last().0
    }
}

pub open spec fn sum_counts(results: Seq<(u64, usize)>) -> int
    decreases results.len(),
{
    if results.len() == 0 {
        0
    } else {
        sum_counts(results.drop_last()) + results.last().1
    }
}

proof fn lemma_sums_monotone(results: Seq<(u64, usize)>, i: int)
    requires
        0 <= i <= results.len(),
    ensures
        sum_sizes(results.take(i)) <= sum_sizes(results),
        sum_counts(results.take(i)) <= sum_counts(results),
    decreases results.len(),
{
    if i < results.len() {
        lemma_sums_monotone(results.drop_last(), i);
        assert(results.drop_last().take(i) =~= results.take(i));
    } else {
        assert(results.take(i) =~= results);
    }
}

/// Adds up per-directory `(size, count)` results into `(count, size)`.
pub fn sum_scan_results(results: &Vec<(u64, usize)>) -> (r: (usize, u64))
    requires
        sum_sizes(results@) <= u64::MAX,
        sum_counts(results@) <= usize::MAX,
    ensures
        r.0 == sum_counts(results@),
        r.1 == sum_sizes(results@),
{
    let mut size: u64 = 0;
    let mut count: usize = 0;
    let mut i: usize = 0;
    while i < results.len()
        invariant
            i <= results@.len(),
            sum_sizes(results@) <= u64::MAX,
            sum_counts(results@) <= usize::MAX,
            size == sum_sizes(results@.take(i as int)),
            count == sum_counts(results@.take(i as int)),
        decreases results.len() - i,
    {
        proof {
            assert(results@.take(i + 1).drop_last() =~= results@.take(i as int));
            lemma_sums_monotone(results@, i + 1);
        }
        size = size + results[i].0;
        count = count + results[i].1;
        i = i + 1;
    }
    proof {
        assert(results@.take(i as int) =~= results@);
    }
    (count, size)
}

/// Files larger than this (100 MiB) count as large.
pub const LARGE_FILE_THRESHOLD: u64 = 104_857_600;

/// Whether a file of `len` bytes counts as large.
pub fn is_large_file(len: u64) -> (r: bool)
    ensures
        r == (len > LARGE_FILE_THRESHOLD),
{
    len > LARGE_FILE_THRESHOLD
}

/// The directory names the large-file search does not enter.
pub open spec fn skipped_dir_names() -> Seq<Seq<char>> {
    seq!["target"@, "node_modules"@, ".git"@, "__pycache__"@, ".venv"@, "venv"@]
}

/// Whether the large-file search skips a directory entry of this name.
pub fn is_skipped_dir_name(name: &str) -> (r: bool)
    ensures
        r == skipped_dir_names().contains(name@),
{
    let names = ["target", "node_modules", ".git", "__pycache__", ".venv", "venv"];
    let mut i: usize = 0;
    while i < 6
        invariant
            i <= 6,
            names@ == seq!["target", "node_modules", ".git", "__pycache__", ".venv", "venv"],
            forall|k: int| 0 <= k < i ==> skipped_dir_names()[k] != name@,
        decreases 6 - i,
    {
        if str_equal(name, names[i]) {
            proof {
                assert(skipped_dir_names()[i as int] == name@);
            }
            return true;
        }
        i = i + 1;
    }
    false
}

/// Sessions older than this many days are stale by default.
pub const DEFAULT_STALE_DAYS: u64 = 30;

/// The age, in seconds, beyond which a session is stale.
pub fn stale_age_secs(days: u64) -> (secs: u64)
    requires
        days * 86_400 <= u64::MAX,
    ensures
        secs == days * 86_400,
{
    days * 24 * 60 * 60
}

/// The active toolchain that `rustup show active-toolchain` names: the
/// first word of its output.
pub open spec fn active_toolchain_spec(out: Seq<char>) -> Option<Seq<char>> {
    if words(out).len() > 0 {
        Some(words(out)[0])
    } else {
        None
    }
}

/// Reads the output of `rustup show active-toolchain`, such as
/// `stable-x86_64-unknown-linux-gnu (default)`.
pub fn parse_active_toolchain(out: &str) -> (r: Option<String>)
    ensures
        r matches Some(s) ==> active_toolchain_spec(out@) == Some(s@),
        r is None ==> active_toolchain_spec(out@) is None,
{
    let chars = chars_of(out);
    let spans = word_spans(&chars);
    if spans.len() == 0 {
        return None;
    }
    let (s, e) = spans[0];
    Some(string_from_range(out, s, e))
}

/// Whether an installed toolchain is the active one: its directory name
/// contains the active toolchain's name.
pub open spec fn is_active_spec(name: Seq<char>, active: Option<Seq<char>>) -> bool {
    match active {
        Some(a) => contains_seq(name, a),
        None => false,
    }
}

/// Whether the toolchain directory `name` belongs to the active toolchain.
pub fn is_active_toolchain(name: &str, active: &Option<String>) -> (r: bool)
    ensures
        r == is_active_spec(
            name@,
            match active {
                Some(a) => Some(a@),
                None => None,
            },
        ),
{
    match active {
        Some(a) => {
            let hay = chars_of(name);
            let needle = chars_of(a.as_str());
            contains_chars(&hay, &needle)
        },
        None => false,
    }
}

/// Whether a cleanup removes the toolchain directory `name`: only when the
/// active toolchain is known and the directory is not the active one, so
/// that the active toolchain is always kept.
pub open spec fn is_removable_spec(name: Seq<char>, active: Option<Seq<char>>) -> bool {
    active is Some && !is_active_spec(name, active)
}

/// Whether the toolchain directory `name` may be removed (and counts as
/// cleanable): the active toolchain is known and it is not that one.
pub fn is_removable_toolchain(name: &str, active: &Option<String>) -> (r: bool)
    ensures
        r == is_removable_spec(
            name@,
            match active {
                Some(a) => Some(a@),
                None => None,
            },
        ),
{
    match active {
        Some(_) => !is_active_toolchain(name, active),
        None => false,
    }
}

/// `s` without leading and trailing whitespace (`str::trim`).
pub open spec fn trim_spec(s: Seq<char>, from: int, to: int) -> bool {
    &&& 0 <= from <= to <= s.len()
    &&& forall|k: int| 0 <= k < from ==> is_space(#[trigger] s[k])
    &&& forall|k: int| to <= k < s.len() ==> is_space(#[trigger] s[k])
    &&& from < to ==> !is_space(s[from]) && !is_space(s[to - 1])
}

/// The directory `pip cache dir` printed: its output without surrounding
/// whitespace.
pub fn pip_cache_dir_from_output(out: &str) -> (dir: String)
    ensures
        exists|from: int, to: int|
            trim_spec(out@, from, to) && dir@ == out@.subrange(from, to),
{
    let chars = chars_of(out);
    let mut from: usize = 0;
    while from < chars.len() && char_is_space(chars[from])
        invariant
            from <= chars@.len(),
            chars@ == out@,
            forall|k: int| 0 <= k < from ==> is_space(#[trigger] chars@[k]),
        decreases chars.len() - from,
    {
        from = from + 1;
    }
    let mut to: usize = chars.len();
    while to > from && char_is_space(chars[to - 1])
        invariant
            from <= to <= chars@.len(),
            chars@ == out@,
            forall|k: int| to <= k < chars@.len() ==> is_space(#[trigger] chars@[k]),
        decreases to,
    {
        to = to - 1;
    }
    proof {
        assert(trim_spec(out@, from as int, to as int));
    }
    string_from_range(out, from, to)
}

} // verus!
