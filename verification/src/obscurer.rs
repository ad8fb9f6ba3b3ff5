//! Privacy-preserving batched lookup of global output indexes.
//!
//! When the wallet needs the global indexes of outputs in one block it
//! never asks the daemon for that height alone: it asks for a window
//! of at least `GLOBAL_INDEXES_OBSCURITY` blocks containing it, and
//! keeps recently fetched windows so nearby heights in the same sync
//! pass cost no further round trip.
use vstd::prelude::*;

use crate::GLOBAL_INDEXES_OBSCURITY;

verus! {

/// One (height, global index) pair the daemon reported for a window.
#[derive(Clone, Copy, PartialEq, Eq, Debug)]
pub struct IndexEntry {
    pub height: u64,
    pub global_index: u64,
}

/// A fetched window of global indexes held in the cache.
#[derive(Clone, PartialEq, Eq, Debug)]
pub struct CachedWindow {
    pub start: u64,
    pub end: u64,
    pub entries: Vec<IndexEntry>,
}

/// Cache of recently fetched index windows.
#[derive(Clone, PartialEq, Eq, Debug)]
pub struct GlobalIndexObscurer {
    pub windows: Vec<CachedWindow>,
}

/// The properties every request window must have: it covers the
/// height of interest and is never narrower than the obscurity span,
/// so in particular it is never a single-height request.
pub open spec fn spec_window_ok(height: u64, start: u64, end: u64) -> bool {
    &&& start <= height <= end
    &&& end - start >= GLOBAL_INDEXES_OBSCURITY
}

/// The inclusive block window to request for `height`. A height in,
/// say, block 17 yields the window from block 10 to block 20.
pub fn window_for(height: u64) -> (r: (u64, u64))
    ensures
        spec_window_ok(height, r.0, r.1),
        r.0 == (if height <= u64::MAX - GLOBAL_INDEXES_OBSCURITY {
            height - (height % GLOBAL_INDEXES_OBSCURITY)
        } else {
            u64::MAX - GLOBAL_INDEXES_OBSCURITY
        }),
        r.1 == r.0 + GLOBAL_INDEXES_OBSCURITY,
{
    if height <= u64::MAX - GLOBAL_INDEXES_OBSCURITY {
        let start = height - (height % GLOBAL_INDEXES_OBSCURITY);
        (start, start + GLOBAL_INDEXES_OBSCURITY)
    } else {
        (u64::MAX - GLOBAL_INDEXES_OBSCURITY, u64::MAX)
    }
}

impl GlobalIndexObscurer {
    /// Whether some cached window already covers `height`.
    pub open spec fn spec_covered(&self, height: u64) -> bool {
        exists|i: int|
            0 <= i < self.windows@.len() && (#[trigger] self.windows@[i]).start <= height
                <= self.windows@[i].end
    }

    pub fn new() -> (r: Self)
        ensures
            r.windows@.len() == 0,
    {
        GlobalIndexObscurer { windows: Vec::new() }
    }

    /// The request to issue for `height`, or `None` when a cached
    /// window already covers it. A returned window is always at
    /// least the obscurity span wide and contains `height`.
    pub fn plan_request(&self, height: u64) -> (r: Option<(u64, u64)>)
        ensures
            match r {
                Some(w) => !self.spec_covered(height) && spec_window_ok(height, w.0, w.1),
                None => self.spec_covered(height),
            },
    {
        let mut i: usize = 0;
        while i < self.windows.len()
            invariant
                0 <= i <= self.windows@.len(),
                forall|j: int|
                    0 <= j < i ==> !((#[trigger] self.windows@[j]).start <= height
                        <= self.windows@[j].end),
            decreases self.windows@.len() - i,
        {
            if self.windows[i].start <= height && height <= self.windows[i].end {
                return None;
            }
            i += 1;
        }
        Some(window_for(height))
    }

    /// Record the daemon's answer for a window.
    pub fn store_window(&mut self, start: u64, end: u64, entries: Vec<IndexEntry>)
        ensures
            final(self).windows@ == old(self).windows@.push(
                CachedWindow { start, end, entries },
            ),
    {
        self.windows.push(CachedWindow { start, end, entries });
    }

    /// The cached global indexes recorded for exactly `height`, in
    /// the order the daemon reported them, searching the most
    /// recently stored covering window. The first component is false
    /// when no cached window covers `height`; the caller must fetch
    /// the window `plan_request` gives before asking again.
    pub fn indexes_for(&self, height: u64) -> (r: (bool, Vec<u64>))
        ensures
            r.0 == self.spec_covered(height),
            r.0 ==> (exists|i: int|
                0 <= i < self.windows@.len() && (#[trigger] self.windows@[i]).start <= height
                    <= self.windows@[i].end && r.1@ == spec_entries_at(
                    self.windows@[i].entries@,
                    height,
                )),
            !r.0 ==> r.1@.len() == 0,
    {
        let mut i: usize = self.windows.len();
        while i > 0
            invariant
                0 <= i <= self.windows@.len(),
                forall|j: int|
                    i <= j < self.windows@.len() ==> !((#[trigger] self.windows@[j]).start
                        <= height <= self.windows@[j].end),
            decreases i,
        {
            i -= 1;
            if self.windows[i].start <= height && height <= self.windows[i].end {
                let picked = collect_entries_at(&self.windows[i].entries, height);
                assert(self.windows@[i as int].start <= height <= self.windows@[i as int].end);
                return (true, picked);
            }
        }
        (false, Vec::new())
    }
}

/// The global indexes among `entries` recorded for exactly `height`.
pub open spec fn spec_entries_at(entries: Seq<IndexEntry>, height: u64) -> Seq<u64>
    decreases entries.len(),
{
    if entries.len() == 0 {
        Seq::empty()
    } else {
        let head = if entries[0].height == height {
            seq![entries[0].global_index]
        } else {
            Seq::<u64>::empty()
        };
        head + spec_entries_at(entries.skip(1), height)
    }
}

fn collect_entries_at(entries: &Vec<IndexEntry>, height: u64) -> (r: Vec<u64>)
    ensures
        r@ == spec_entries_at(entries@, height),
{
    let mut r: Vec<u64> = Vec::new();
    let mut i: usize = 0;
    proof {
        assert(entries@.skip(0) =~= entries@);
        assert(r@ + spec_entries_at(entries@, height) =~= spec_entries_at(entries@, height));
    }
    while i < entries.len()
        invariant
            0 <= i <= entries@.len(),
            spec_entries_at(entries@, height) == r@ + spec_entries_at(
                entries@.skip(i as int),
                height,
            ),
        decreases entries@.len() - i,
    {
        proof {
            assert(entries@.skip(i as int)[0] == entries@[i as int]);
            assert(entries@.skip(i as int).skip(1) =~= entries@.skip(i as int + 1));
        }
        if entries[i].height == height {
            r.push(entries[i].global_index);
        }
        i += 1;
        proof {
            assert(spec_entries_at(entries@, height) == r@ + spec_entries_at(
                entries@.skip(i as int),
                height,
            ));
        }
    }
    proof {
        assert(entries@.skip(entries@.len() as int) =~= Seq::<IndexEntry>::empty());
        assert(r@ + Seq::<u64>::empty() =~= r@);
    }
    r
}

} // verus!
