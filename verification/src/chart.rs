//! The axis bounds of the chart that is drawn from a sequence of records.

use crate::record::Record;
use vstd::prelude::*;

verus! {

/// The bit pattern of the sign of a 32-bit float.
pub const SIGN_BIT: u32 = 0x8000_0000;

/// The place of a 32-bit float in the IEEE 754 total order, by its bit
/// pattern: a float comes before another exactly where its rank is below
/// the other's. Patterns without the sign bit rank by their value as an
/// integer, from 0; those with it rank below 0, the larger pattern lower.
pub open spec fn float_rank(bits: u32) -> int {
    if bits < SIGN_BIT {
        bits as int
    } else {
        SIGN_BIT - 1 - bits
    }
}

/// Computes the rank of a float's bit pattern in the total order.
pub fn rank_of(bits: u32) -> (rank: i64)
    ensures
        rank == float_rank(bits),
{
    if bits < SIGN_BIT {
        bits as i64
    } else {
        (SIGN_BIT as i64 - 1) - (bits as i64)
    }
}

/// The ranges of the two axes. The x axis spans the stride sizes; the y
/// axis starts at zero and ends at the highest rate.
#[derive(Clone, Copy, Debug, PartialEq, Eq, Structural)]
pub struct ChartBounds {
    pub min_x: u64,
    pub max_x: u64,
    /// The bit pattern of the lower end of the y axis: that of `0.0`.
    pub min_y_bits: u32,
    /// The bit pattern of the highest rate.
    pub max_y_bits: u32,
}

/// Why no bounds could be computed.
#[derive(Clone, Copy, Debug, PartialEq, Eq, Structural)]
pub enum ChartError {
    /// There is no record to draw.
    NoData,
}

impl ChartError {
    /// The message shown for the error.
    pub fn message(&self) -> (text: String)
        ensures
            text@ == "No data"@,
    {
        "No data".to_string()
    }
}

/// Whether `bounds` are the axis bounds of `records`: the least and the
/// greatest stride size among them, zero, and the rate among them that no
/// other exceeds in the total order of floats.
pub open spec fn bounds_of(records: Seq<Record>, bounds: ChartBounds) -> bool {
    &&& exists|i: int| 0 <= i < records.len() && records[i].step_size == bounds.min_x
    &&& exists|i: int| 0 <= i < records.len() && records[i].step_size == bounds.max_x
    &&& exists|i: int| 0 <= i < records.len() && records[i].steps_per_second_bits == bounds.max_y_bits
    &&& forall|i: int| 0 <= i < records.len() ==> bounds.min_x <= (#[trigger] records[i]).step_size
    &&& forall|i: int| 0 <= i < records.len() ==> (#[trigger] records[i]).step_size <= bounds.max_x
    &&& forall|i: int|
        0 <= i < records.len() ==> float_rank((#[trigger] records[i]).steps_per_second_bits)
            <= float_rank(bounds.max_y_bits)
    &&& bounds.min_y_bits == 0
}

/// Computes the axis bounds of the chart for `records`. With no record
/// there is nothing to draw, and that is the one error.
pub fn chart_bounds(records: &Vec<Record>) -> (result: Result<ChartBounds, ChartError>)
    ensures
        records@.len() == 0 <==> result == Err::<ChartBounds, ChartError>(ChartError::NoData),
        records@.len() > 0 <==> result is Ok,
        result matches Ok(bounds) ==> bounds_of(records@, bounds),
{
    if records.len() == 0 {
        return Err(ChartError::NoData);
    }
    let mut bounds = ChartBounds {
        min_x: records[0].step_size,
        max_x: records[0].step_size,
        min_y_bits: 0,
        max_y_bits: records[0].steps_per_second_bits,
    };
    let mut seen: usize = 1;
    proof {
        assert(records@.take(1)[0] == records@[0]);
    }
    while seen < records.len()
        invariant
            1 <= seen <= records@.len(),
            bounds_of(records@.take(seen as int), bounds),
        decreases records@.len() - seen,
    {
        let record = records[seen];
        let before = bounds;
        if record.step_size < bounds.min_x {
            bounds.min_x = record.step_size;
        }
        if record.step_size > bounds.max_x {
            bounds.max_x = record.step_size;
        }
        if rank_of(record.steps_per_second_bits) >= rank_of(bounds.max_y_bits) {
            bounds.max_y_bits = record.steps_per_second_bits;
        }
        proof {
            let old_seq = records@.take(seen as int);
            let new_seq = records@.take(seen as int + 1);
            assert(new_seq[seen as int] == record);
            assert(forall|i: int| 0 <= i < old_seq.len() ==> old_seq[i] == new_seq[i]);
            let a = choose|i: int| 0 <= i < old_seq.len() && old_seq[i].step_size == before.min_x;
            let b = choose|i: int| 0 <= i < old_seq.len() && old_seq[i].step_size == before.max_x;
            let c = choose|i: int|
                0 <= i < old_seq.len() && old_seq[i].steps_per_second_bits == before.max_y_bits;
            let a2 = if record.step_size < before.min_x { seen as int } else { a };
            let b2 = if record.step_size > before.max_x { seen as int } else { b };
            let c2 = if float_rank(record.steps_per_second_bits) >= float_rank(before.max_y_bits) {
                seen as int
            } else {
                c
            };
            assert(new_seq[a2].step_size == bounds.min_x);
            assert(new_seq[b2].step_size == bounds.max_x);
            assert(new_seq[c2].steps_per_second_bits == bounds.max_y_bits);
        }
        seen = seen + 1;
    }
    proof {
        assert(records@.take(seen as int) =~= records@);
    }
    Ok(bounds)
}

} // verus!
