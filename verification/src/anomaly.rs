//! The integer side of anomaly detection: the sliding window that holds the
//! latest measurements, and the combination of the outlier indices that the
//! individual detection methods report. The statistics themselves work on
//! floating-point values and are left to the caller.

use vstd::prelude::*;

verus! {

/// The window after `value` was added: when it already holds `max` values
/// or more, the oldest is dropped first.
pub open spec fn pushed_window<T>(window: Seq<T>, max: nat, value: T) -> Seq<T> {
    if window.len() >= max {
        window.drop_first().push(value)
    } else {
        window.push(value)
    }
}

/// Adds `value` to a sliding window of at most `max` values, dropping the
/// oldest value when the window is full.
pub fn push_bounded<T>(window: &mut Vec<T>, max: usize, value: T)
    requires
        old(window)@.len() > 0 || max > 0,
    ensures
        final(window)@ == pushed_window(old(window)@, max as nat, value),
{
    if window.len() >= max {
        window.remove(0);
    }
    window.push(value);
}

/// A window that held at most `max` values still does after a push, and the
/// newest value is the last one.
pub proof fn lemma_window_stays_bounded<T>(window: Seq<T>, max: nat, value: T)
    requires
        max > 0,
        window.len() <= max,
    ensures
        pushed_window(window, max, value).len() <= max,
        pushed_window(window, max, value).last() == value,
        window.len() == max ==> pushed_window(window, max, value).len() == max
            && pushed_window(window, max, value) == window.subrange(1, window.len() as int).push(
            value,
        ),
{
    if window.len() >= max {
        assert(window.drop_first() =~= window.subrange(1, window.len() as int));
    }
}

/// Whether `s` is in strictly increasing order.
pub open spec fn strictly_increasing(s: Seq<usize>) -> bool {
    forall|i: int, j: int| 0 <= i < j < s.len() ==> s[i] < s[j]
}

/// Adds `x` to a strictly increasing list, unless it is already there.
fn insert_sorted(v: &mut Vec<usize>, x: usize)
    requires
        strictly_increasing(old(v)@),
    ensures
        strictly_increasing(final(v)@),
        forall|y: usize| #[trigger] final(v)@.contains(y) ==> (old(v)@.contains(y) || y == x),
        forall|y: usize| #[trigger] old(v)@.contains(y) ==> final(v)@.contains(y),
        final(v)@.contains(x),
{
    let mut i: usize = 0;
    while i < v.len() && v[i] < x
        invariant
            i <= v@.len(),
            forall|k: int| 0 <= k < i ==> v@[k] < x,
        decreases v.len() - i,
    {
        i = i + 1;
    }
    if i < v.len() && v[i] == x {
        proof {
            assert(v@[i as int] == x);
            assert(v@.contains(x));
            assert forall|y: usize| #[trigger] v@.contains(y) <==> (v@.contains(y) || y == x) by {}
        }
    } else {
        let ghost before = v@;
        v.insert(i, x);
        proof {
            assert(v@[i as int] == x);
            assert(v@.contains(x));
            assert forall|a: int, b: int| 0 <= a < b < v@.len() implies v@[a] < v@[b] by {
                if b < i {
                } else if b == i {
                } else if a < i {
                    assert(v@[b] == before[b - 1]);
                } else if a == i {
                    assert(v@[b] == before[b - 1]);
                    assert(before[i as int] >= x);
                    if b - 1 > i {
                        assert(before[i as int] < before[b - 1]);
                    }
                } else {
                    assert(v@[a] == before[a - 1]);
                    assert(v@[b] == before[b - 1]);
                }
            }
            assert forall|y: usize| v@.contains(y) <==> (before.contains(y) || y == x) by {
                if before.contains(y) {
                    let k = choose|k: int| 0 <= k < before.len() && before[k] == y;
                    if k < i {
                        assert(v@[k] == y);
                    } else {
                        assert(v@[k + 1] == y);
                    }
                }
                if y == x {
                    assert(v@[i as int] == x);
                }
                if v@.contains(y) {
                    let k = choose|k: int| 0 <= k < v@.len() && v@[k] == y;
                    if k < i {
                        assert(before[k] == y);
                    } else if k > i {
                        assert(before[k - 1] == y);
                    }
                }
            }
        }
    }
}

/// Adds every index of `from` to the strictly increasing list `into`.
fn insert_all_sorted(into: &mut Vec<usize>, from: &Vec<usize>)
    requires
        strictly_increasing(old(into)@),
    ensures
        strictly_increasing(final(into)@),
        forall|y: usize|
            #[trigger] final(into)@.contains(y) <==> (old(into)@.contains(y) || from@.contains(y)),
{
    let ghost start = into@;
    let mut i: usize = 0;
    while i < from.len()
        invariant
            i <= from@.len(),
            strictly_increasing(into@),
            forall|y: usize|
                #[trigger] into@.contains(y) <==> (start.contains(y) || from@.take(i as int).contains(
                    y,
                )),
        decreases from.len() - i,
    {
        let ghost prev = into@;
        insert_sorted(into, from[i]);
        proof {
            assert(from@.take(i + 1) =~= from@.take(i as int).push(from@[i as int]));
            assert forall|y: usize|
                #[trigger] into@.contains(y) <==> (start.contains(y) || from@.take(i + 1).contains(
                    y,
                )) by {
                vstd::seq_lib::lemma_seq_contains_after_push(
                    from@.take(i as int),
                    from@[i as int],
                    y,
                );
                assert(prev.contains(y) <==> (start.contains(y) || from@.take(i as int).contains(
                    y,
                )));
            }
        }
        i = i + 1;
    }
    proof {
        assert(from@.take(i as int) =~= from@);
    }
}

/// The indices reported by any of three detection methods, each once, in
/// increasing order.
pub fn merge_anomaly_indices(z: &Vec<usize>, mad: &Vec<usize>, iqr: &Vec<usize>) -> (all: Vec<
    usize,
>)
    ensures
        strictly_increasing(all@),
        forall|i: usize|
            #[trigger] all@.contains(i) <==> (z@.contains(i) || mad@.contains(i) || iqr@.contains(i)),
{
    let mut all: Vec<usize> = Vec::new();
    let ghost empty = all@;
    insert_all_sorted(&mut all, z);
    let ghost after_z = all@;
    insert_all_sorted(&mut all, mad);
    let ghost after_mad = all@;
    insert_all_sorted(&mut all, iqr);
    proof {
        assert forall|i: usize|
            #[trigger] all@.contains(i) <==> (z@.contains(i) || mad@.contains(i) || iqr@.contains(
                i,
            )) by {
            assert(!empty.contains(i));
            assert(after_z.contains(i) <==> (empty.contains(i) || z@.contains(i)));
            assert(after_mad.contains(i) <==> (after_z.contains(i) || mad@.contains(i)));
            assert(all@.contains(i) <==> (after_mad.contains(i) || iqr@.contains(i)));
        }
    }
    all
}

/// Whether `list` holds `i`.
fn listed(list: &Vec<usize>, i: usize) -> (r: bool)
    ensures
        r == list@.contains(i),
{
    let mut k: usize = 0;
    while k < list.len()
        invariant
            k <= list@.len(),
            forall|j: int| 0 <= j < k ==> list@[j] != i,
        decreases list.len() - k,
    {
        if list[k] == i {
            proof {
                assert(list@[k as int] == i);
            }
            return true;
        }
        k = k + 1;
    }
    false
}

/// Windows shorter than this are never judged anomalous.
pub const MIN_WINDOW_FOR_ANOMALY: usize = 4;

/// Whether the newest value of a window of `window_len` values is an
/// anomaly, given the outlier indices of the three detection methods: the
/// window must hold at least `MIN_WINDOW_FOR_ANOMALY` values, and some
/// method must report its last index.
pub fn latest_is_flagged(window_len: usize, z: &Vec<usize>, mad: &Vec<usize>, iqr: &Vec<usize>) -> (r:
    bool)
    ensures
        r == (window_len >= MIN_WINDOW_FOR_ANOMALY && ({
            let last = (window_len - 1) as usize;
            z@.contains(last) || mad@.contains(last) || iqr@.contains(last)
        })),
{
    if window_len < MIN_WINDOW_FOR_ANOMALY {
        return false;
    }
    let last = window_len - 1;
    listed(z, last) || listed(mad, last) || listed(iqr, last)
}

} // verus!
