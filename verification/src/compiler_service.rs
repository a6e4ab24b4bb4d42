//! The decisions of the compiler service: which archived nodes are stray,
//! and when to stop going back in time.
use vstd::prelude::*;

verus! {

/// The options of the compiler service.
pub struct Args {
    /// Path to osimperf home dir. If not, current directory will be used as home.
    pub home: Option<String>,
    /// Path to cmake config. Defaults to compiler-flags/osimperf-cmake.conf
    pub cmake: Option<String>,
    /// Write a default cmake config file to a specified path.
    pub write_default_cmake_config: Option<String>,
    pub start_date: String,
    pub daily: bool,
    /// Sleep time between loops in seconds.
    pub sleep: u64,
    /// Max consecutive compilation failures.
    pub max_fail: usize,
}

/// `sub` is `sup` with some elements left out, the others in their order:
/// element `j` of `sub` is element `idx[j]` of `sup`, and `idx` increases.
pub open spec fn kept_in_order<T>(sub: Seq<T>, sup: Seq<T>, idx: Seq<int>) -> bool {
    &&& idx.len() == sub.len()
    &&& forall|j: int| 0 <= j < sub.len() ==> 0 <= #[trigger] idx[j] < sup.len() && sub[j] == sup[idx[j]]
    &&& forall|a: int, b: int| 0 <= a < b < idx.len() ==> #[trigger] idx[a] < #[trigger] idx[b]
}

/// Removes from `vec` every element that `pred` relates to `x`, keeping the
/// others in order.
pub fn remove_duplicates_from_vec<T, P: Fn(&T, &T) -> bool>(x: &T, vec: &mut Vec<T>, pred: &P)
    requires
        forall|a: &T, b: &T| call_requires(*pred, (a, b)),
    ensures
        forall|j: int| 0 <= j < final(vec)@.len() ==> call_ensures(*pred, (x, &#[trigger] final(vec)@[j]), false),
        final(vec)@.to_multiset().subset_of(old(vec)@.to_multiset()),
        forall|y: T|
            old(vec)@.to_multiset().count(y) > #[trigger] final(vec)@.to_multiset().count(y)
                ==> call_ensures(*pred, (x, &y), true),
        exists|idx: Seq<int>| #[trigger] kept_in_order(final(vec)@, old(vec)@, idx),
{
    broadcast use vstd::multiset::group_multiset_axioms;
    let ghost orig = vec@;
    let ghost mut idx: Seq<int> = Seq::new(orig.len(), |j: int| j);
    let mut i: usize = 0;
    while i < vec.len()
        invariant
            i <= vec.len(),
            kept_in_order(vec@, orig, idx),
            forall|a: &T, b: &T| call_requires(*pred, (a, b)),
            forall|j: int| 0 <= j < i ==> call_ensures(*pred, (x, &#[trigger] vec@[j]), false),
            vec@.to_multiset().subset_of(orig.to_multiset()),
            forall|y: T|
                orig.to_multiset().count(y) > #[trigger] vec@.to_multiset().count(y) ==> call_ensures(
                    *pred,
                    (x, &y),
                    true,
                ),
        decreases vec.len() - i,
    {
        if pred(x, &vec[i]) {
            let ghost before = vec@;
            proof {
                before.to_multiset_ensures();
            }
            let y = vec.remove(i);
            proof {
                let old_idx = idx;
                idx = old_idx.remove(i as int);
                assert forall|j: int| 0 <= j < vec@.len() implies 0 <= #[trigger] idx[j] < orig.len() && vec@[j]
                    == orig[idx[j]] by {
                    if j < i {
                        assert(idx[j] == old_idx[j] && vec@[j] == before[j]);
                    } else {
                        assert(idx[j] == old_idx[j + 1] && vec@[j] == before[j + 1]);
                    }
                }
                assert forall|a: int, b: int| 0 <= a < b < idx.len() implies #[trigger] idx[a] < #[trigger] idx[b] by {
                    let a0 = if a < i { a } else { a + 1 };
                    let b0 = if b < i { b } else { b + 1 };
                    assert(idx[a] == old_idx[a0] && idx[b] == old_idx[b0]);
                }
            }
            assert(vec@.to_multiset() == before.to_multiset().remove(y));
            assert forall|z: T|
                orig.to_multiset().count(z) > #[trigger] vec@.to_multiset().count(z) implies call_ensures(
                *pred,
                (x, &z),
                true,
            ) by {
                if z != y {
                    assert(vec@.to_multiset().count(z) == before.to_multiset().count(z));
                }
            }
            assert forall|j: int| 0 <= j < i implies call_ensures(*pred, (x, &#[trigger] vec@[j]), false) by {
                assert(vec@[j] == before[j]);
            }
        } else {
            i = i + 1;
        }
    }
    assert(kept_in_order(vec@, orig, idx));
}

/// Going back in time over monthly commits: how many compilations failed in
/// a row, the date of the last that succeeded, and how many failures in a
/// row end the scan.
pub struct MonthlyScan {
    pub failed_count: usize,
    pub ok_start_date: Option<String>,
    pub max_fail: usize,
}

impl MonthlyScan {
    /// A scan that stops after more than `max_fail` failures in a row.
    pub fn new(max_fail: usize) -> (s: Self)
        ensures
            s.failed_count == 0,
            s.ok_start_date is None,
            s.max_fail == max_fail,
    {
        Self { failed_count: 0, ok_start_date: None, max_fail }
    }

    /// Records whether the commit of `date` compiled; gives whether the scan
    /// goes on.
    pub fn record(&mut self, compiled: bool, date: &str) -> (go_on: bool)
        requires
            old(self).failed_count < usize::MAX,
        ensures
            final(self).max_fail == old(self).max_fail,
            compiled ==> final(self).failed_count == 0 && (final(self).ok_start_date matches Some(d) && d@ == date@),
            !compiled ==> final(self).failed_count == old(self).failed_count + 1
                && final(self).ok_start_date == old(self).ok_start_date,
            go_on == (final(self).failed_count <= final(self).max_fail),
    {
        if !compiled {
            self.failed_count = self.failed_count + 1;
        } else {
            self.failed_count = 0;
            self.ok_start_date = Some(date.to_owned());
        }
        !(self.failed_count > self.max_fail)
    }

    /// Where the daily scan starts: at the last commit that compiled, when
    /// a daily scan is asked for.
    pub fn daily_start(&self, daily: bool) -> (d: Option<String>)
        ensures
            !daily ==> d is None,
            daily ==> match self.ok_start_date {
                Some(s) => d matches Some(x) && x@ == s@,
                None => d is None,
            },
    {
        if !daily {
            return None;
        }
        match &self.ok_start_date {
            Some(s) => Some(s.clone()),
            None => None,
        }
    }
}

/// A scan that starts afresh stops at the first failure after which more
/// than `max_fail` compilations failed in a row, and a success in between
/// starts the count over.
pub proof fn law_scan_counts_failures_in_a_row(failed: nat, compiled: bool, max_fail: nat)
    ensures
        ({
            let next = if compiled {
                0
            } else {
                failed + 1
            };
            &&& compiled ==> next <= max_fail
            &&& !compiled ==> (next > max_fail <==> failed >= max_fail)
        }),
{
}

} // verus!
