use vstd::prelude::*;

verus! {

/// Multiplier of the polynomial row hash (the 64-bit FNV prime).
pub const HASH_FACTOR: u64 = 0x100000001b3;

/// Seed of the polynomial row hash (the 64-bit FNV offset basis).
pub const HASH_SEED: u64 = 0xcbf29ce484222325;

/// A column value shifted into `u64` so that hashing works on one unsigned
/// domain: `v` maps to `v + 2^63`.
pub open spec fn offset_encode(v: i64) -> u64 {
    (v + 0x8000_0000_0000_0000) as u64
}

/// One step of the polynomial hash.
pub open spec fn hash_combine(h: u64, v: u64) -> u64 {
    vstd::wrapping::u64_specs::wrapping_add(
        vstd::wrapping::u64_specs::wrapping_mul(h, HASH_FACTOR),
        v,
    )
}

/// The deterministic hash of a sequence of column values.  It depends on the
/// values alone, so two equal key tuples always hash alike, wherever the rows
/// carrying them came from.
pub open spec fn hash_vals(vals: Seq<i64>) -> u64
    decreases vals.len(),
{
    if vals.len() == 0 {
        HASH_SEED
    } else {
        hash_combine(hash_vals(vals.drop_last()), offset_encode(vals.last()))
    }
}

/// The output partition index that a row with key values `vals` is routed to
/// by a hash fan-out over `n` buckets.
pub open spec fn hash_bucket(vals: Seq<i64>, n: int) -> int {
    hash_vals(vals) as int % n
}

/// Hash a tuple of column values.
pub fn hash_row_values(vals: &Vec<i64>) -> (h: u64)
    ensures
        h == hash_vals(vals@),
{
    let mut h: u64 = HASH_SEED;
    let mut i: usize = 0;
    while i < vals.len()
        invariant
            i <= vals.len(),
            h == hash_vals(vals@.take(i as int)),
        decreases vals.len() - i,
    {
        let v: i64 = vals[i];
        let enc: u64 = ((v as i128) + 0x8000_0000_0000_0000i128) as u64;
        proof {
            assert(enc == offset_encode(v));
            assert(vals@.take(i + 1 as int).drop_last() =~= vals@.take(i as int));
            assert(vals@.take(i + 1 as int).last() == vals@[i as int]);
        }
        h = h.wrapping_mul(HASH_FACTOR).wrapping_add(enc);
        i = i + 1;
    }
    proof {
        assert(vals@.take(vals@.len() as int) =~= vals@);
    }
    h
}

} // verus!
