//! Operation counters of the cache.

use vstd::prelude::*;
use crate::text::{decimal, push_decimal};

verus! {

/// `n + 1`, wrapping to 0 past `u64::MAX`, as an atomic `fetch_add` does.
pub open spec fn bump(n: u64) -> u64 {
    if n == u64::MAX {
        0
    } else {
        (n + 1) as u64
    }
}

/// `h` after `n` increments that wrap past `u64::MAX`.
pub open spec fn bumped(h: u64, n: nat) -> u64
    decreases n,
{
    if n == 0 {
        h
    } else {
        bump(bumped(h, (n - 1) as nat))
    }
}

/// The counters after `n` hits.
pub open spec fn after_hits(s: CacheStats, n: nat) -> CacheStats
    decreases n,
{
    if n == 0 {
        s
    } else {
        after_hits(s, (n - 1) as nat).after_hit()
    }
}

/// `n` increments of a counter lose none and wrap past `u64::MAX`: the
/// counter ends at `(h + n) mod 2^64`.
pub proof fn law_increments_wrap(h: u64, n: nat)
    ensures
        bumped(h, n) as int == (h as int + n) % 0x1_0000_0000_0000_0000,
    decreases n,
{
    if n > 0 {
        law_increments_wrap(h, (n - 1) as nat);
        let a = h as int + (n - 1);
        assert((a % 0x1_0000_0000_0000_0000 + 1) % 0x1_0000_0000_0000_0000 == (a + 1) % 0x1_0000_0000_0000_0000) by {
            vstd::arithmetic::div_mod::lemma_add_mod_noop(a, 1, 0x1_0000_0000_0000_0000);
        }
    }
}

/// `n` hits move the hit counter by `n`, wrapping past `u64::MAX`, and
/// leave every other counter as it was.
pub proof fn law_hits_count(s: CacheStats, n: nat)
    ensures
        after_hits(s, n).hits == bumped(s.hits, n),
        after_hits(s, n).hits as int == (s.hits as int + n) % 0x1_0000_0000_0000_0000,
        after_hits(s, n).misses == s.misses,
        after_hits(s, n).sets == s.sets,
        after_hits(s, n).deletes == s.deletes,
        after_hits(s, n).flushes == s.flushes,
    decreases n,
{
    if n > 0 {
        law_hits_count(s, (n - 1) as nat);
    }
    law_increments_wrap(s.hits, n);
}

/// Counts of the cache operations served so far.
#[derive(Debug, Clone, Copy, PartialEq, Eq, Structural)]
pub struct CacheStats {
    pub hits: u64,
    pub misses: u64,
    pub sets: u64,
    pub deletes: u64,
    pub flushes: u64,
}

/// The counters as read at one moment.
#[derive(Debug, Clone, Copy, PartialEq, Eq, Structural)]
pub struct StatsSnapshot {
    pub hits: u64,
    pub misses: u64,
    pub sets: u64,
    pub deletes: u64,
    pub flushes: u64,
}

impl CacheStats {
    /// All counters at zero.
    pub open spec fn zero() -> CacheStats {
        CacheStats { hits: 0, misses: 0, sets: 0, deletes: 0, flushes: 0 }
    }

    pub open spec fn after_hit(self) -> CacheStats {
        CacheStats { hits: bump(self.hits), ..self }
    }

    pub open spec fn after_miss(self) -> CacheStats {
        CacheStats { misses: bump(self.misses), ..self }
    }

    pub open spec fn after_set(self) -> CacheStats {
        CacheStats { sets: bump(self.sets), ..self }
    }

    pub open spec fn after_delete(self) -> CacheStats {
        CacheStats { deletes: bump(self.deletes), ..self }
    }

    pub open spec fn after_flush(self) -> CacheStats {
        CacheStats { flushes: bump(self.flushes), ..self }
    }

    /// The snapshot that holds these counts.
    pub open spec fn spec_snapshot(self) -> StatsSnapshot {
        StatsSnapshot {
            hits: self.hits,
            misses: self.misses,
            sets: self.sets,
            deletes: self.deletes,
            flushes: self.flushes,
        }
    }

    pub fn new() -> (s: CacheStats)
        ensures
            s == CacheStats::zero(),
    {
        CacheStats { hits: 0, misses: 0, sets: 0, deletes: 0, flushes: 0 }
    }

    pub fn hit(&mut self)
        ensures
            *final(self) == old(self).after_hit(),
    {
        self.hits = self.hits.wrapping_add(1);
    }

    pub fn miss(&mut self)
        ensures
            *final(self) == old(self).after_miss(),
    {
        self.misses = self.misses.wrapping_add(1);
    }

    pub fn set(&mut self)
        ensures
            *final(self) == old(self).after_set(),
    {
        self.sets = self.sets.wrapping_add(1);
    }

    pub fn delete(&mut self)
        ensures
            *final(self) == old(self).after_delete(),
    {
        self.deletes = self.deletes.wrapping_add(1);
    }

    pub fn flush(&mut self)
        ensures
            *final(self) == old(self).after_flush(),
    {
        self.flushes = self.flushes.wrapping_add(1);
    }

    pub fn snapshot(&self) -> (s: StatsSnapshot)
        ensures
            s == self.spec_snapshot(),
    {
        StatsSnapshot {
            hits: self.hits,
            misses: self.misses,
            sets: self.sets,
            deletes: self.deletes,
            flushes: self.flushes,
        }
    }
}

/// The JSON object of the five counters followed by `hit_rate_pct`, whose
/// text is given.
pub open spec fn counters_json(s: StatsSnapshot, hit_rate_pct: Seq<char>) -> Seq<char> {
    "\"hits\":"@ + decimal(s.hits as nat)
        + ",\"misses\":"@ + decimal(s.misses as nat)
        + ",\"sets\":"@ + decimal(s.sets as nat)
        + ",\"deletes\":"@ + decimal(s.deletes as nat)
        + ",\"flushes\":"@ + decimal(s.flushes as nat)
        + ",\"hit_rate_pct\":"@ + hit_rate_pct + "}"@
}

/// `{"hits":..,"misses":..,"sets":..,"deletes":..,"flushes":..,"hit_rate_pct":..}`
pub open spec fn snapshot_json(s: StatsSnapshot, hit_rate_pct: Seq<char>) -> Seq<char> {
    "{"@ + counters_json(s, hit_rate_pct)
}

/// `{"entries":..,"hits":..,"misses":..,"sets":..,"deletes":..,"flushes":..,"hit_rate_pct":..}`
pub open spec fn stats_report_json(s: StatsSnapshot, entries: u64, hit_rate_pct: Seq<char>) -> Seq<char> {
    "{\"entries\":"@ + decimal(entries as nat) + ","@ + counters_json(s, hit_rate_pct)
}

fn push_counters(out: &mut String, s: &StatsSnapshot, hit_rate_pct: &str)
    ensures
        final(out)@ == old(out)@ + counters_json(*s, hit_rate_pct@),
{
    out.append("\"hits\":");
    push_decimal(out, s.hits);
    out.append(",\"misses\":");
    push_decimal(out, s.misses);
    out.append(",\"sets\":");
    push_decimal(out, s.sets);
    out.append(",\"deletes\":");
    push_decimal(out, s.deletes);
    out.append(",\"flushes\":");
    push_decimal(out, s.flushes);
    out.append(",\"hit_rate_pct\":");
    out.append(hit_rate_pct);
    out.append("}");
    assert(final(out)@ =~= old(out)@ + counters_json(*s, hit_rate_pct@));
}

impl StatsSnapshot {
    /// The snapshot as a JSON object. The hit rate, a percentage, comes
    /// already written as text (two decimals).
    pub fn to_json(&self, hit_rate_pct: &str) -> (r: String)
        ensures
            r@ == snapshot_json(*self, hit_rate_pct@),
    {
        let mut out = String::from_str("{");
        push_counters(&mut out, self, hit_rate_pct);
        assert(out@ =~= snapshot_json(*self, hit_rate_pct@));
        out
    }

    /// The JSON object that answers a STATS request: the number of entries,
    /// then the counters and the hit rate, which comes already written as text.
    pub fn report_json(&self, entries: u64, hit_rate_pct: &str) -> (r: String)
        ensures
            r@ == stats_report_json(*self, entries, hit_rate_pct@),
    {
        let mut out = String::from_str("{\"entries\":");
        push_decimal(&mut out, entries);
        out.append(",");
        push_counters(&mut out, self, hit_rate_pct);
        assert(out@ =~= stats_report_json(*self, entries, hit_rate_pct@));
        out
    }
}

} // verus!
