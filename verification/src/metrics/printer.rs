//! The periodic metrics panel: how far the counters moved since the last
//! panel.

use vstd::prelude::*;
use crate::cache::stats::StatsSnapshot;

verus! {

/// `a - b`, or 0 where `b` is the larger.
pub open spec fn sat_sub(a: u64, b: u64) -> u64 {
    if a >= b {
        (a - b) as u64
    } else {
        0
    }
}

/// How far the counters moved during one interval.
#[derive(Debug, Clone, Copy, PartialEq, Eq, Structural)]
pub struct WindowDelta {
    pub hits: u64,
    pub misses: u64,
    pub sets: u64,
    pub deletes: u64,
}

/// The counters as shown on the last panel.
#[derive(Debug, Clone, Copy, PartialEq, Eq, Structural)]
pub struct MetricsWindow {
    pub prev_hits: u64,
    pub prev_misses: u64,
    pub prev_sets: u64,
    pub prev_deletes: u64,
}

/// The window that remembers the counters of `snap`.
pub open spec fn window_of(snap: StatsSnapshot) -> MetricsWindow {
    MetricsWindow { prev_hits: snap.hits, prev_misses: snap.misses, prev_sets: snap.sets, prev_deletes: snap.deletes }
}

/// How far the counters of `snap` moved past those that `w` remembers.
pub open spec fn advance_delta(w: MetricsWindow, snap: StatsSnapshot) -> WindowDelta {
    WindowDelta {
        hits: sat_sub(snap.hits, w.prev_hits),
        misses: sat_sub(snap.misses, w.prev_misses),
        sets: sat_sub(snap.sets, w.prev_sets),
        deletes: sat_sub(snap.deletes, w.prev_deletes),
    }
}

/// The window before the first panel.
pub open spec fn initial_window() -> MetricsWindow {
    MetricsWindow { prev_hits: 0, prev_misses: 0, prev_sets: 0, prev_deletes: 0 }
}

impl MetricsWindow {
    /// Before the first panel every counter is taken as 0.
    pub fn new() -> (w: MetricsWindow)
        ensures
            w == initial_window(),
    {
        MetricsWindow { prev_hits: 0, prev_misses: 0, prev_sets: 0, prev_deletes: 0 }
    }

    /// Takes the counters of a new panel: returns how far each moved since
    /// the last one (0 where a counter went back) and remembers them.
    pub fn advance(&mut self, snap: &StatsSnapshot) -> (d: WindowDelta)
        ensures
            d == advance_delta(*old(self), *snap),
            *final(self) == window_of(*snap),
    {
        let d = WindowDelta {
            hits: snap.hits.saturating_sub(self.prev_hits),
            misses: snap.misses.saturating_sub(self.prev_misses),
            sets: snap.sets.saturating_sub(self.prev_sets),
            deletes: snap.deletes.saturating_sub(self.prev_deletes),
        };
        self.prev_hits = snap.hits;
        self.prev_misses = snap.misses;
        self.prev_sets = snap.sets;
        self.prev_deletes = snap.deletes;
        d
    }
}

/// Where no counter went back, the last panel's counters plus the moves
/// give the new counters.
pub proof fn law_window_adds_up(w: MetricsWindow, snap: StatsSnapshot)
    requires
        w.prev_hits <= snap.hits,
        w.prev_misses <= snap.misses,
        w.prev_sets <= snap.sets,
        w.prev_deletes <= snap.deletes,
    ensures
        w.prev_hits + sat_sub(snap.hits, w.prev_hits) == snap.hits,
        w.prev_misses + sat_sub(snap.misses, w.prev_misses) == snap.misses,
        w.prev_sets + sat_sub(snap.sets, w.prev_sets) == snap.sets,
        w.prev_deletes + sat_sub(snap.deletes, w.prev_deletes) == snap.deletes,
{
}

/// Over every panel: where `windows[0]` is the first window and panel `i`
/// takes the counters `snaps[i]`, turning `windows[i]` into `windows[i + 1]`
/// with moves `deltas[i]` (as `advance` does), panel 0 shows the counters
/// themselves and each later panel shows how far each counter moved since
/// the panel before it (0 where it went back).
pub proof fn law_panels_show_moves(snaps: Seq<StatsSnapshot>, windows: Seq<MetricsWindow>, deltas: Seq<WindowDelta>)
    requires
        windows.len() == snaps.len() + 1,
        deltas.len() == snaps.len(),
        windows[0] == initial_window(),
        forall|i: int| 0 <= i < snaps.len() ==> windows[i + 1] == window_of(#[trigger] snaps[i]),
        forall|i: int| 0 <= i < snaps.len() ==> #[trigger] deltas[i] == advance_delta(windows[i], snaps[i]),
    ensures
        snaps.len() > 0 ==> deltas[0] == (WindowDelta {
            hits: snaps[0].hits,
            misses: snaps[0].misses,
            sets: snaps[0].sets,
            deletes: snaps[0].deletes,
        }),
        forall|i: int| 0 < i < snaps.len() ==> #[trigger] deltas[i] == (WindowDelta {
            hits: sat_sub(snaps[i].hits, snaps[i - 1].hits),
            misses: sat_sub(snaps[i].misses, snaps[i - 1].misses),
            sets: sat_sub(snaps[i].sets, snaps[i - 1].sets),
            deletes: sat_sub(snaps[i].deletes, snaps[i - 1].deletes),
        }),
{
    assert forall|i: int| 0 < i < snaps.len() implies #[trigger] deltas[i] == (WindowDelta {
        hits: sat_sub(snaps[i].hits, snaps[i - 1].hits),
        misses: sat_sub(snaps[i].misses, snaps[i - 1].misses),
        sets: sat_sub(snaps[i].sets, snaps[i - 1].sets),
        deletes: sat_sub(snaps[i].deletes, snaps[i - 1].deletes),
    }) by {
        assert(windows[(i - 1) + 1] == window_of(snaps[i - 1]));
    }
}

} // verus!
