//! The saved-captures listing: classifying files by extension, ordering
//! them newest first, and applying the caller's limit. Reading the
//! directory and rendering thumbnails is the caller's part.

use vstd::prelude::*;
use vstd::string::*;
use vstd::multiset::Multiset;
use vstd::seq_lib::group_to_multiset_ensures;
use crate::strtools::{lower_seq, eq_lower};

verus! {

/// One saved capture, as the history view lists it.
#[derive(Clone, Debug)]
pub struct HistoryItem {
    pub path: String,
    pub filename: String,
    pub file_type: String,
    pub modified: u64,
    pub thumbnail: String,
}

/// The listing type of a file extension: still images count as
/// screenshots, `gif` as an animation, anything else is not listed.
pub open spec fn spec_classify(ext: Seq<char>) -> Option<Seq<char>> {
    let l = lower_seq(ext);
    if l == "png"@ || l == "jpg"@ || l == "jpeg"@ {
        Some("screenshot"@)
    } else if l == "gif"@ {
        Some("gif"@)
    } else {
        None
    }
}

/// Classifies a file extension for the history listing.
pub fn classify_extension(ext: &str) -> (r: Option<String>)
    ensures
        match r {
            Some(t) => spec_classify(ext@) == Some(t@),
            None => spec_classify(ext@) is None,
        },
{
    if eq_lower(ext, "png") || eq_lower(ext, "jpg") || eq_lower(ext, "jpeg") {
        Some(String::from_str("screenshot"))
    } else if eq_lower(ext, "gif") {
        Some(String::from_str("gif"))
    } else {
        None
    }
}

/// Sorts the listing by modification time, newest first. The items are
/// permuted, nothing more.
#[verifier::loop_isolation(false)]
pub fn sort_history_desc(items: &mut Vec<HistoryItem>)
    ensures
        final(items)@.len() == old(items)@.len(),
        forall|i: int, j: int|
            0 <= i < j < final(items)@.len() ==> (#[trigger] final(items)@[i]).modified >= (
            #[trigger] final(items)@[j]).modified,
        final(items)@.to_multiset() == old(items)@.to_multiset(),
{
    broadcast use group_to_multiset_ensures;

    let ghost orig = items@;
    let mut out: Vec<HistoryItem> = Vec::new();
    proof {
        assert(out@.to_multiset().add(items@.to_multiset()) =~= orig.to_multiset());
    }
    while items.len() > 0
        invariant
            out@.to_multiset().add(items@.to_multiset()) == orig.to_multiset(),
            out@.len() + items@.len() == orig.len(),
            forall|i: int, j: int|
                0 <= i < j < out@.len() ==> (#[trigger] out@[i]).modified >= (
                #[trigger] out@[j]).modified,
            forall|a: int, b: int|
                0 <= a < out@.len() && 0 <= b < items@.len() ==> (#[trigger] out@[a]).modified
                    >= (#[trigger] items@[b]).modified,
        decreases items@.len(),
    {
        let mut m: usize = 0;
        let mut k: usize = 1;
        while k < items.len()
            invariant
                items@.len() > 0,
                m < items@.len(),
                k <= items@.len(),
                forall|t: int| 0 <= t < k ==> (#[trigger] items@[t]).modified <= items@[
                    m as int
                ].modified,
            decreases items@.len() - k,
        {
            if items[k].modified > items[m].modified {
                m = k;
            }
            k = k + 1;
        }
        let ghost items_before = items@;
        let x = items.remove(m);
        out.push(x);
        proof {
            assert(items@ == items_before.remove(m as int));
            assert(items@.to_multiset() =~= items_before.to_multiset().remove(
                items_before[m as int],
            ));
            assert(out@.to_multiset().add(items@.to_multiset()) =~= orig.to_multiset());
            assert(forall|b: int|
                0 <= b < items@.len() ==> (#[trigger] items@[b]) == items_before[b]
                    || items@[b] == items_before[b + 1]);
        }
    }
    proof {
        assert(items@.to_multiset() =~= Multiset::<HistoryItem>::empty());
        assert(out@.to_multiset().add(Multiset::<HistoryItem>::empty()) =~= out@.to_multiset());
    }
    *items = out;
}

/// Keeps only the first `limit` items, when a limit is given.
pub fn apply_history_limit(items: &mut Vec<HistoryItem>, limit: Option<usize>)
    ensures
        match limit {
            Some(l) => final(items)@ == if l < old(items)@.len() {
                old(items)@.take(l as int)
            } else {
                old(items)@
            },
            None => final(items)@ == old(items)@,
        },
{
    match limit {
        Some(l) => {
            items.truncate(l);
        },
        None => (),
    }
}

} // verus!
