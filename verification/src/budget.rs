//! Disk budget arithmetic: reading the output of `df`, what the growth rate
//! of disk usage is estimated from, and how long the free space lasts at a
//! given rate.

use crate::state::BudgetSample;
use crate::text::{
    chars_of, copy_range, find_line_end, line_end, parse_u64, parse_u64_spec, string_from_range,
    trim_end_char, trimmed_end, word_spans, words,
};
use vstd::prelude::*;

verus! {

/// What `df` reports about the file system holding a path.
#[derive(Debug, Clone)]
pub struct MountInfo {
    pub mount_point: String,
    pub total: u64,
    pub used: u64,
    pub free: u64,
    /// The use percentage as `df` printed it, without its `%` sign.
    pub used_pct_text: String,
}

/// The first data line of `df` output: the line after the header, or
/// nothing when there is none.
pub open spec fn df_data_line(out: Seq<char>) -> Seq<char> {
    let first_end = line_end(out, 0);
    if first_end >= out.len() {
        Seq::empty()
    } else {
        out.subrange(first_end + 1, line_end(out, first_end + 1))
    }
}

/// A number field of `df`, or 0 when it is not one.
pub open spec fn df_number(field: Seq<char>) -> u64 {
    match parse_u64_spec(field) {
        Some(v) => v,
        None => 0,
    }
}

/// The mount point, sizes and use percentage that `df -B1
/// --output=source,size,used,avail,pcent` output describes, or `/` and
/// zeros when its data line has fewer than five fields.
pub open spec fn df_fields(out: Seq<char>) -> (Seq<char>, u64, u64, u64, Seq<char>) {
    let ws = words(df_data_line(out));
    if ws.len() >= 5 {
        (ws[0], df_number(ws[1]), df_number(ws[2]), df_number(ws[3]), trim_end_char(ws[4], '%'))
    } else {
        (seq!['/'], 0, 0, 0, seq!['0'])
    }
}

/// Reads the output of `df -B1 --output=source,size,used,avail,pcent`.
pub fn parse_df_output(out: &str) -> (info: MountInfo)
    ensures
        (info.mount_point@, info.total, info.used, info.free, info.used_pct_text@) == df_fields(
            out@,
        ),
{
    let chars = chars_of(out);
    let first_end = find_line_end(&chars, 0);
    if first_end < chars.len() {
        let start = first_end + 1;
        let end = find_line_end(&chars, start);
        let line = copy_range(&chars, start, end);
        let spans = word_spans(&line);
        proof {
            assert(line@ == df_data_line(out@));
        }
        if spans.len() >= 5 {
            proof {
                assert forall|k: int| 0 <= k < 5 implies line@.subrange(
                    spans@[k].0 as int,
                    spans@[k].1 as int,
                ) == out@.subrange(start + spans@[k].0, start + spans@[k].1) by {
                    assert(line@.subrange(spans@[k].0 as int, spans@[k].1 as int) =~= out@.subrange(
                        start + spans@[k].0,
                        start + spans@[k].1,
                    ));
                }
            }
            let (s0, e0) = spans[0];
            let (s1, e1) = spans[1];
            let (s2, e2) = spans[2];
            let (s3, e3) = spans[3];
            let (s4, e4) = spans[4];
            let mount_point = string_from_range(out, start + s0, start + e0);
            let total = match parse_u64(&line, s1, e1) {
                Some(v) => v,
                None => 0,
            };
            let used = match parse_u64(&line, s2, e2) {
                Some(v) => v,
                None => 0,
            };
            let free = match parse_u64(&line, s3, e3) {
                Some(v) => v,
                None => 0,
            };
            let pct_end = trimmed_end(&line, s4, e4, '%');
            let used_pct_text = string_from_range(out, start + s4, start + pct_end);
            proof {
                assert(line@.subrange(s4 as int, pct_end as int) =~= out@.subrange(
                    start + s4,
                    start + pct_end,
                ));
            }
            return MountInfo { mount_point, total, used, free, used_pct_text };
        }
    } else {
        proof {
            assert(df_data_line(out@) =~= Seq::<char>::empty());
            assert(words(df_data_line(out@)) =~= Seq::<Seq<char>>::empty());
        }
    }
    let root = "/";
    let zero = "0";
    proof {
        reveal_strlit("/");
        reveal_strlit("0");
    }
    MountInfo {
        mount_point: root.to_owned(),
        total: 0,
        used: 0,
        free: 0,
        used_pct_text: zero.to_owned(),
    }
}

/// What `chrono` makes of two RFC 3339 timestamps: the whole seconds from
/// `start` to `end`, or nothing when either does not parse.
pub uninterp spec fn spec_rfc3339_elapsed_secs(start: Seq<char>, end: Seq<char>) -> Option<i64>;

/// Parses both timestamps with `chrono::DateTime::parse_from_rfc3339` and
/// returns `(end - start).num_seconds()`, or `None` when either fails to
/// parse. The contract names the result and says nothing more of it.
#[verifier::external_body]
fn rfc3339_elapsed_secs(start: &str, end: &str) -> (r: Option<i64>)
    ensures
        r == spec_rfc3339_elapsed_secs(start@, end@),
{
    let t1 = chrono::DateTime::parse_from_rfc3339(start).ok()?;
    let t2 = chrono::DateTime::parse_from_rfc3339(end).ok()?;
    Some((t2 - t1).num_seconds())
}

/// How much disk usage grew between two samples: a shrinking usage counts
/// as no growth.
pub open spec fn usage_growth_bytes(first_used: u64, last_used: u64) -> u64 {
    if last_used > first_used {
        (last_used - first_used) as u64
    } else {
        0
    }
}

/// The growth of disk usage between a first and a last sample taken
/// `elapsed_secs` apart, with that time: none unless time moved forward.
pub open spec fn usage_growth_spec(first_used: u64, last_used: u64, elapsed_secs: i64) -> Option<
    (u64, i64),
> {
    if elapsed_secs <= 0 {
        None
    } else {
        Some((usage_growth_bytes(first_used, last_used), elapsed_secs))
    }
}

/// The growth of disk usage, in bytes, between two samples taken
/// `elapsed_secs` apart, together with that time; none unless time moved
/// forward. The rate per day is the growth divided by the elapsed days.
pub fn usage_growth_between(first_used: u64, last_used: u64, elapsed_secs: i64) -> (r: Option<
    (u64, i64),
>)
    ensures
        r == usage_growth_spec(first_used, last_used, elapsed_secs),
{
    if elapsed_secs <= 0 {
        return None;
    }
    let growth: u64 = if last_used > first_used {
        last_used - first_used
    } else {
        0
    };
    Some((growth, elapsed_secs))
}

/// The growth of disk usage from the oldest to the newest sample, with the
/// seconds between them.
pub open spec fn samples_usage_growth(samples: Seq<BudgetSample>) -> Option<(u64, i64)> {
    if samples.len() < 2 {
        None
    } else {
        let first = samples[0];
        let last = samples.last();
        match spec_rfc3339_elapsed_secs(first.timestamp@, last.timestamp@) {
            None => None,
            Some(secs) => usage_growth_spec(first.used_bytes, last.used_bytes, secs),
        }
    }
}

/// What the growth rate of disk usage is estimated from: the bytes the
/// usage grew from the oldest to the newest sample (zero if it shrank) and
/// the seconds between them. None with fewer than two samples, when a
/// timestamp does not parse, or when the newest is not later than the oldest.
pub fn usage_growth(samples: &Vec<BudgetSample>) -> (r: Option<(u64, i64)>)
    ensures
        r == samples_usage_growth(samples@),
{
    if samples.len() < 2 {
        return None;
    }
    let first = &samples[0];
    let last = &samples[samples.len() - 1];
    match rfc3339_elapsed_secs(first.timestamp.as_str(), last.timestamp.as_str()) {
        None => None,
        Some(secs) => usage_growth_between(first.used_bytes, last.used_bytes, secs),
    }
}

/// How long the free space lasts.
#[derive(Debug, Clone, Copy, PartialEq, Eq, Structural)]
pub enum DaysUntilFull {
    Days(u64),
    /// More than a year, or never.
    MoreThanAYear,
}

/// The days until `free` bytes are used up at `rate` bytes a day: more than
/// a year when that exceeds 365 days or the rate is zero.
pub fn days_until_full(free: u64, rate: u64) -> (r: DaysUntilFull)
    ensures
        rate == 0 ==> r == DaysUntilFull::MoreThanAYear,
        rate > 0 && free / rate > 365 ==> r == DaysUntilFull::MoreThanAYear,
        rate > 0 && free / rate <= 365 ==> r == DaysUntilFull::Days(free / rate),
{
    let days = if rate > 0 {
        free / rate
    } else {
        u64::MAX
    };
    if days > 365 {
        DaysUntilFull::MoreThanAYear
    } else {
        DaysUntilFull::Days(days)
    }
}

/// What `humansize::format_size` with the `DECIMAL` options makes of a byte count.
pub uninterp spec fn spec_format_size_decimal(bytes: u64) -> Seq<char>;

/// Renders a byte count with `humansize::format_size(bytes, humansize::DECIMAL)`.
/// The contract names the result and says nothing more of it.
#[verifier::external_body]
fn format_size_decimal(bytes: u64) -> (r: String)
    ensures
        r@ == spec_format_size_decimal(bytes),
{
    humansize::format_size(bytes, humansize::DECIMAL)
}

/// The figures of the disk budget, rendered for display.
pub struct BudgetReport {
    pub total: String,
    pub used: String,
    pub free: String,
    /// The growth per day and how long the free space lasts, when a growth
    /// rate is known.
    pub growth: Option<(String, DaysUntilFull)>,
    pub total_recovered: String,
}

/// Renders the disk budget: sizes in decimal units, and, when the growth
/// rate is known, the growth per day and the days until the disk is full.
pub fn budget_report(total: u64, used: u64, free: u64, growth_rate: Option<u64>, total_recovered: u64)
    -> (r: BudgetReport)
    ensures
        r.total@ == spec_format_size_decimal(total),
        r.used@ == spec_format_size_decimal(used),
        r.free@ == spec_format_size_decimal(free),
        r.total_recovered@ == spec_format_size_decimal(total_recovered),
        r.growth is Some <==> growth_rate is Some,
        growth_rate matches Some(rate) ==> {
            &&& r.growth.unwrap().0@ == spec_format_size_decimal(rate)
            &&& (rate == 0 || free / rate > 365) ==> r.growth.unwrap().1
                == DaysUntilFull::MoreThanAYear
            &&& (rate > 0 && free / rate <= 365) ==> r.growth.unwrap().1 == DaysUntilFull::Days(
                free / rate,
            )
        },
{
    let growth = match growth_rate {
        Some(rate) => Some((format_size_decimal(rate), days_until_full(free, rate))),
        None => None,
    };
    BudgetReport {
        total: format_size_decimal(total),
        used: format_size_decimal(used),
        free: format_size_decimal(free),
        growth,
        total_recovered: format_size_decimal(total_recovered),
    }
}

/// Usage that did not grow counts as zero growth, whatever the time
/// between the samples; without time moving forward there is no estimate;
/// only the oldest and the newest sample matter.
pub proof fn lemma_usage_growth_cases(
    samples: Seq<BudgetSample>,
    first_used: u64,
    last_used: u64,
    elapsed_secs: i64,
)
    ensures
        elapsed_secs <= 0 ==> usage_growth_spec(first_used, last_used, elapsed_secs) is None,
        elapsed_secs > 0 && last_used <= first_used ==> usage_growth_spec(
            first_used,
            last_used,
            elapsed_secs,
        ) == Some((0u64, elapsed_secs)),
        elapsed_secs > 0 && last_used > first_used ==> usage_growth_spec(
            first_used,
            last_used,
            elapsed_secs,
        ) == Some(((last_used - first_used) as u64, elapsed_secs)),
        samples.len() >= 2 ==> samples_usage_growth(samples) == samples_usage_growth(
            seq![samples[0], samples.last()],
        ),
{
    if samples.len() >= 2 {
        let two = seq![samples[0], samples.last()];
        assert(two[0] == samples[0]);
        assert(two.last() == samples.last());
    }
}

/// The days until the disk is full, when reported, are the whole days the
/// free space lasts: the growth of that many days fits, one more day does not.
pub proof fn lemma_days_until_full_bracket(free: u64, rate: u64)
    requires
        rate > 0,
        free / rate <= 365,
    ensures
        (free / rate) * rate <= free,
        free < (free / rate + 1) * rate,
{
    assert((free / rate) * rate <= free) by (nonlinear_arith)
        requires
            rate > 0,
    ;
    assert(free < (free / rate + 1) * rate) by (nonlinear_arith)
        requires
            rate > 0,
    ;
}

} // verus!
