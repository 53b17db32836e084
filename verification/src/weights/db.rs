//! The cost of storage reads and writes.
use vstd::prelude::*;

verus! {

/// An amount of computation time.
pub type Weight = u64;

/// `a + b`, or `u64::MAX` where that does not fit.
pub open spec fn sat_add(a: int, b: int) -> Weight {
    if a + b > u64::MAX {
        u64::MAX
    } else {
        (a + b) as Weight
    }
}

/// `a * b`, or `u64::MAX` where that does not fit.
pub open spec fn sat_mul(a: int, b: int) -> Weight {
    if a * b > u64::MAX {
        u64::MAX
    } else {
        (a * b) as Weight
    }
}

/// `u64::saturating_mul`.
pub fn saturating_mul(a: u64, b: u64) -> (r: u64)
    ensures
        r == sat_mul(a as int, b as int),
{
    match a.checked_mul(b) {
        Some(v) => v,
        None => u64::MAX,
    }
}

/// The cost of one storage read and of one storage write.
#[derive(Clone, Copy, Debug, PartialEq, Eq)]
pub struct RuntimeDbWeight {
    pub read: Weight,
    pub write: Weight,
}

impl RuntimeDbWeight {
    /// The cost of `r` reads.
    pub fn reads(&self, r: Weight) -> (w: Weight)
        ensures
            w == sat_mul(self.read as int, r as int),
    {
        saturating_mul(self.read, r)
    }

    /// The cost of `w` writes.
    pub fn writes(&self, w: Weight) -> (c: Weight)
        ensures
            c == sat_mul(self.write as int, w as int),
    {
        saturating_mul(self.write, w)
    }
}

/// The cost of storage access on RocksDB: 25 µs a read, 100 µs a write.
pub fn rocks_db_weight() -> (w: RuntimeDbWeight)
    ensures
        w.read == 25_000_000,
        w.write == 100_000_000,
{
    RuntimeDbWeight { read: 25_000_000, write: 100_000_000 }
}

/// A base cost plus `reads` reads and `writes` writes, saturating.
pub open spec fn call_weight(db: RuntimeDbWeight, base: Weight, reads: Weight, writes: Weight) -> Weight {
    sat_add(
        sat_add(base as int, sat_mul(db.read as int, reads as int) as int) as int,
        sat_mul(db.write as int, writes as int) as int,
    )
}

/// A base cost plus `reads` reads and `writes` writes, saturating.
pub fn weight_of(db: &RuntimeDbWeight, base: Weight, reads: Weight, writes: Weight) -> (w: Weight)
    ensures
        w == call_weight(*db, base, reads, writes),
{
    base.saturating_add(db.reads(reads)).saturating_add(db.writes(writes))
}

/// A base cost plus `reads` reads, saturating.
pub fn read_weight_of(db: &RuntimeDbWeight, base: Weight, reads: Weight) -> (w: Weight)
    ensures
        w == sat_add(base as int, sat_mul(db.read as int, reads as int) as int),
{
    base.saturating_add(db.reads(reads))
}

} // verus!
