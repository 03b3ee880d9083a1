//! Weights of the multi-block election verifier: execution time and proof size as
//! benchmarked linear formulas in the voters `v` and targets `t`, with saturating
//! arithmetic.

use vstd::prelude::*;

verus! {

/// A weight: execution time (picoseconds) and proof size (bytes).
#[derive(Clone, Copy, Debug, PartialEq, Eq, Structural)]
pub struct Weight {
    pub ref_time: u64,
    pub proof_size: u64,
}

/// `a + b`, saturated at `u64::MAX`.
pub open spec fn sat_add(a: u64, b: u64) -> u64 {
    if a + b > u64::MAX { u64::MAX } else { (a + b) as u64 }
}

/// `a * b`, saturated at `u64::MAX`.
pub open spec fn sat_mul(a: u64, b: u64) -> u64 {
    if a * b > u64::MAX { u64::MAX } else { (a * b) as u64 }
}

fn u64_sat_add(a: u64, b: u64) -> (r: u64)
    ensures
        r == sat_add(a, b),
{
    match a.checked_add(b) {
        Some(v) => v,
        None => u64::MAX,
    }
}

fn u64_sat_mul(a: u64, b: u64) -> (r: u64)
    ensures
        r == sat_mul(a, b),
{
    match a.checked_mul(b) {
        Some(v) => v,
        None => u64::MAX,
    }
}

impl Weight {
    /// The weight of the given parts.
    pub fn from_parts(ref_time: u64, proof_size: u64) -> (r: Self)
        ensures
            r == (Weight { ref_time, proof_size }),
    {
        Weight { ref_time, proof_size }
    }

    /// No weight.
    pub fn zero() -> (r: Self)
        ensures
            r == (Weight { ref_time: 0, proof_size: 0 }),
    {
        Weight { ref_time: 0, proof_size: 0 }
    }

    /// Both parts added, each saturated.
    pub fn saturating_add(self, other: Self) -> (r: Self)
        ensures
            r == (Weight { ref_time: sat_add(self.ref_time, other.ref_time), proof_size: sat_add(self.proof_size, other.proof_size) }),
    {
        Weight { ref_time: u64_sat_add(self.ref_time, other.ref_time), proof_size: u64_sat_add(self.proof_size, other.proof_size) }
    }

    /// Both parts multiplied by `n`, each saturated.
    pub fn saturating_mul(self, n: u64) -> (r: Self)
        ensures
            r == (Weight { ref_time: sat_mul(self.ref_time, n), proof_size: sat_mul(self.proof_size, n) }),
    {
        Weight { ref_time: u64_sat_mul(self.ref_time, n), proof_size: u64_sat_mul(self.proof_size, n) }
    }
}

/// The spec of `Weight::saturating_add`.
pub open spec fn w_add(a: Weight, b: Weight) -> Weight {
    Weight { ref_time: sat_add(a.ref_time, b.ref_time), proof_size: sat_add(a.proof_size, b.proof_size) }
}

/// The spec of `Weight::saturating_mul`.
pub open spec fn w_mul(a: Weight, n: u64) -> Weight {
    Weight { ref_time: sat_mul(a.ref_time, n), proof_size: sat_mul(a.proof_size, n) }
}

/// The execution time of a database read and of a write.
#[derive(Clone, Copy, Debug, PartialEq, Eq, Structural)]
pub struct RuntimeDbWeight {
    pub read: u64,
    pub write: u64,
}

impl RuntimeDbWeight {
    /// The weight of `r` reads.
    pub fn reads(self, r: u64) -> (w: Weight)
        ensures
            w == (Weight { ref_time: sat_mul(self.read, r), proof_size: 0 }),
    {
        Weight { ref_time: u64_sat_mul(self.read, r), proof_size: 0 }
    }

    /// The weight of `w` writes.
    pub fn writes(self, w: u64) -> (r: Weight)
        ensures
            r == (Weight { ref_time: sat_mul(self.write, w), proof_size: 0 }),
    {
        Weight { ref_time: u64_sat_mul(self.write, w), proof_size: 0 }
    }
}

/// The spec of `RuntimeDbWeight::reads`.
pub open spec fn db_reads(db: RuntimeDbWeight, r: u64) -> Weight {
    Weight { ref_time: sat_mul(db.read, r), proof_size: 0 }
}

/// The spec of `RuntimeDbWeight::writes`.
pub open spec fn db_writes(db: RuntimeDbWeight, w: u64) -> Weight {
    Weight { ref_time: sat_mul(db.write, w), proof_size: 0 }
}

/// `base + time_per_v * v + time_per_t * t + reads + writes + size_per_t * t + size_per_v * v`,
/// added in that order with saturation: the shape of every benchmarked weight.
pub open spec fn spec_linear(
    base: Weight,
    time_per_v: u64,
    time_per_t: u64,
    db: RuntimeDbWeight,
    reads: u64,
    writes: u64,
    size_per_t: u64,
    size_per_v: u64,
    v: u32,
    t: u32,
) -> Weight {
    let a = w_add(base, w_mul(Weight { ref_time: time_per_v, proof_size: 0 }, v as u64));
    let b = w_add(a, w_mul(Weight { ref_time: time_per_t, proof_size: 0 }, t as u64));
    let c = w_add(w_add(b, db_reads(db, reads)), db_writes(db, writes));
    w_add(w_add(c, w_mul(Weight { ref_time: 0, proof_size: size_per_t }, t as u64)),
        w_mul(Weight { ref_time: 0, proof_size: size_per_v }, v as u64))
}

fn linear(
    base: Weight,
    time_per_v: u64,
    time_per_t: u64,
    db: RuntimeDbWeight,
    reads: u64,
    writes: u64,
    size_per_t: u64,
    size_per_v: u64,
    v: u32,
    t: u32,
) -> (r: Weight)
    ensures
        r == spec_linear(base, time_per_v, time_per_t, db, reads, writes, size_per_t, size_per_v, v, t),
{
    base.saturating_add(Weight::from_parts(time_per_v, 0).saturating_mul(v as u64))
        .saturating_add(Weight::from_parts(time_per_t, 0).saturating_mul(t as u64))
        .saturating_add(db.reads(reads))
        .saturating_add(db.writes(writes))
        .saturating_add(Weight::from_parts(0, size_per_t).saturating_mul(t as u64))
        .saturating_add(Weight::from_parts(0, size_per_v).saturating_mul(v as u64))
}

/// The weights of the verifier's operations.
pub trait WeightInfo {
    fn on_initialize_ongoing(&self, v: u32, t: u32) -> Weight;
    fn on_initialize_ongoing_failed(&self, v: u32, t: u32) -> Weight;
    fn on_initialize_ongoing_finalize(&self, v: u32, t: u32) -> Weight;
    fn on_initialize_ongoing_finalize_failed(&self, v: u32, t: u32) -> Weight;
    fn finalize_async_verification(&self, v: u32, t: u32) -> Weight;
    fn verify_sync_paged(&self, v: u32, t: u32) -> Weight;
}

/// The benchmarked weights, on a runtime with database weights `db`.
#[derive(Clone, Copy, Debug, PartialEq, Eq, Structural)]
pub struct SubstrateWeight {
    pub db: RuntimeDbWeight,
}

/// The base weight: its time, plus its proof size.
pub open spec fn base(time: u64, size: u64) -> Weight {
    w_add(Weight { ref_time: time, proof_size: 0 }, Weight { ref_time: 0, proof_size: size })
}

impl WeightInfo for SubstrateWeight {
    fn on_initialize_ongoing(&self, v: u32, t: u32) -> (r: Weight)
        ensures
            r == spec_linear(base(2_036_000_000, 15414), 20_614_626, 1_324_037, self.db, 8, 4, 27, 80, v, t),
    {
        let b = Weight::from_parts(2_036_000_000, 0).saturating_add(Weight::from_parts(0, 15414));
        linear(b, 20_614_626, 1_324_037, self.db, 8, 4, 27, 80, v, t)
    }

    fn on_initialize_ongoing_failed(&self, v: u32, t: u32) -> (r: Weight)
        ensures
            r == spec_linear(base(1_576_541_397, 7604), 3_076_310, 0, self.db, 9, 4, 0, 108, v, 0),
    {
        let b = Weight::from_parts(1_576_541_397, 0).saturating_add(Weight::from_parts(0, 7604));
        linear(b, 3_076_310, 0, self.db, 9, 4, 0, 108, v, 0)
    }

    fn on_initialize_ongoing_finalize(&self, v: u32, t: u32) -> (r: Weight)
        ensures
            r == spec_linear(base(1_466_010_752, 79043), 3_322_580, 128_906, self.db, 12, 6, 10, 85, v, t),
    {
        let b = Weight::from_parts(1_466_010_752, 0).saturating_add(Weight::from_parts(0, 79043));
        linear(b, 3_322_580, 128_906, self.db, 12, 6, 10, 85, v, t)
    }

    fn on_initialize_ongoing_finalize_failed(&self, v: u32, t: u32) -> (r: Weight)
        ensures
            r == base(4_659_677, 0),
    {
        Weight::from_parts(4_659_677, 0).saturating_add(Weight::from_parts(0, 0))
    }

    fn finalize_async_verification(&self, v: u32, t: u32) -> (r: Weight)
        ensures
            r == w_add(w_add(base(3_354_301, 0), w_mul(Weight { ref_time: 907, proof_size: 0 }, v as u64)),
                w_mul(Weight { ref_time: 65, proof_size: 0 }, t as u64)),
    {
        Weight::from_parts(3_354_301, 0)
            .saturating_add(Weight::from_parts(0, 0))
            .saturating_add(Weight::from_parts(907, 0).saturating_mul(v as u64))
            .saturating_add(Weight::from_parts(65, 0).saturating_mul(t as u64))
    }

    fn verify_sync_paged(&self, v: u32, t: u32) -> (r: Weight)
        ensures
            r == spec_linear(base(1_403_000_000, 18127), 24_084_766, 1_727_080, self.db, 6, 3, 25, 72, v, t),
    {
        let b = Weight::from_parts(1_403_000_000, 0).saturating_add(Weight::from_parts(0, 18127));
        linear(b, 24_084_766, 1_727_080, self.db, 6, 3, 25, 72, v, t)
    }
}

/// No weights at all.
#[derive(Clone, Copy, Debug, PartialEq, Eq, Structural)]
pub struct ZeroWeight;

impl WeightInfo for ZeroWeight {
    fn on_initialize_ongoing(&self, v: u32, t: u32) -> (r: Weight)
        ensures
            r == (Weight { ref_time: 0, proof_size: 0 }),
    {
        Weight::zero()
    }

    fn on_initialize_ongoing_failed(&self, v: u32, t: u32) -> (r: Weight)
        ensures
            r == (Weight { ref_time: 0, proof_size: 0 }),
    {
        Weight::zero()
    }

    fn on_initialize_ongoing_finalize(&self, v: u32, t: u32) -> (r: Weight)
        ensures
            r == (Weight { ref_time: 0, proof_size: 0 }),
    {
        Weight::zero()
    }

    fn on_initialize_ongoing_finalize_failed(&self, v: u32, t: u32) -> (r: Weight)
        ensures
            r == (Weight { ref_time: 0, proof_size: 0 }),
    {
        Weight::zero()
    }

    fn finalize_async_verification(&self, v: u32, t: u32) -> (r: Weight)
        ensures
            r == (Weight { ref_time: 0, proof_size: 0 }),
    {
        Weight::zero()
    }

    fn verify_sync_paged(&self, v: u32, t: u32) -> (r: Weight)
        ensures
            r == (Weight { ref_time: 0, proof_size: 0 }),
    {
        Weight::zero()
    }
}


/// Whether some part of `a` is below that of `b`.
pub open spec fn any_lt(a: Weight, b: Weight) -> bool {
    a.ref_time < b.ref_time || a.proof_size < b.proof_size
}

impl RuntimeDbWeight {
    /// The weight of `r` reads and `w` writes.
    pub fn reads_writes(self, r: u64, w: u64) -> (x: Weight)
        ensures
            x == (Weight { ref_time: sat_add(sat_mul(self.read, r), sat_mul(self.write, w)), proof_size: 0 }),
    {
        Weight { ref_time: u64_sat_add(u64_sat_mul(self.read, r), u64_sat_mul(self.write, w)), proof_size: 0 }
    }
}

/// A budget of weight and what has been consumed of it.
#[derive(Clone, Copy, Debug, PartialEq, Eq, Structural)]
pub struct WeightMeter {
    pub consumed: Weight,
    pub limit: Weight,
}

impl WeightMeter {
    /// Nothing consumed of `limit`.
    pub fn with_limit(limit: Weight) -> (r: Self)
        ensures
            r == (WeightMeter { consumed: Weight { ref_time: 0, proof_size: 0 }, limit }),
    {
        WeightMeter { consumed: Weight::zero(), limit }
    }

    /// What is left of the budget.
    pub open spec fn remaining_spec(&self) -> Weight {
        Weight {
            ref_time: if self.limit.ref_time < self.consumed.ref_time { 0 } else { (self.limit.ref_time - self.consumed.ref_time) as u64 },
            proof_size: if self.limit.proof_size < self.consumed.proof_size { 0 } else { (self.limit.proof_size - self.consumed.proof_size) as u64 },
        }
    }

    /// What is left of the budget.
    pub fn remaining(&self) -> (r: Weight)
        ensures
            r == (Weight {
                ref_time: if self.limit.ref_time < self.consumed.ref_time { 0 } else { (self.limit.ref_time - self.consumed.ref_time) as u64 },
                proof_size: if self.limit.proof_size < self.consumed.proof_size { 0 } else { (self.limit.proof_size - self.consumed.proof_size) as u64 },
            }),
    {
        Weight {
            ref_time: if self.limit.ref_time < self.consumed.ref_time { 0 } else { self.limit.ref_time - self.consumed.ref_time },
            proof_size: if self.limit.proof_size < self.consumed.proof_size { 0 } else { self.limit.proof_size - self.consumed.proof_size },
        }
    }

    /// Consume `w` when it fits in the budget.
    pub fn try_consume(&mut self, w: Weight) -> (r: Result<(), ()>)
        ensures
            ({
                let t = old(self).consumed.ref_time + w.ref_time;
                let p = old(self).consumed.proof_size + w.proof_size;
                let fits = t <= u64::MAX && p <= u64::MAX && t <= old(self).limit.ref_time && p <= old(self).limit.proof_size;
                &&& r is Ok <==> fits
                &&& fits ==> *final(self) == (WeightMeter { consumed: Weight { ref_time: t as u64, proof_size: p as u64 }, ..*old(self) })
                &&& !fits ==> *final(self) == *old(self)
            }),
            old(self).consumed.ref_time <= old(self).limit.ref_time && old(self).consumed.proof_size <= old(self).limit.proof_size
                ==> final(self).consumed.ref_time <= final(self).limit.ref_time
                    && final(self).consumed.proof_size <= final(self).limit.proof_size,
    {
        let t = match self.consumed.ref_time.checked_add(w.ref_time) {
            Some(t) => t,
            None => return Err(()),
        };
        let p = match self.consumed.proof_size.checked_add(w.proof_size) {
            Some(p) => p,
            None => return Err(()),
        };
        if t > self.limit.ref_time || p > self.limit.proof_size {
            return Err(());
        }
        self.consumed = Weight { ref_time: t, proof_size: p };
        Ok(())
    }
}

} // verus!
