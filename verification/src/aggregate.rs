use vstd::prelude::*;

use crate::error::PlanError;
use crate::expr::{AggExpr, Expr};
use crate::fanout::{key_err, key_vals};
use crate::partition::{clone_row, Partition};

verus! {

/// 64-bit sum that wraps around on overflow, the arithmetic the columnar
/// kernels use for integer aggregation.
pub open spec fn wadd(a: i64, b: i64) -> i64 {
    vstd::wrapping::i64_specs::wrapping_add(a, b)
}

/// The error ruling an aggregation list out on a row, if any: only sums of
/// plain columns are computable by the reference engine, and the summed
/// column must exist.
pub open spec fn agg_err(aggs: Seq<AggExpr>, row: Seq<i64>) -> Option<PlanError>
    decreases aggs.len(),
{
    if aggs.len() == 0 {
        None
    } else {
        match aggs[0] {
            AggExpr::Sum(e) => match *e {
                Expr::Column(c) => {
                    if c < row.len() {
                        agg_err(aggs.drop_first(), row)
                    } else {
                        Some(PlanError::TypeError)
                    }
                },
                _ => Some(PlanError::Unsupported),
            },
        }
    }
}

/// The values a row contributes to each aggregation.
pub open spec fn agg_vals(aggs: Seq<AggExpr>, row: Seq<i64>) -> Seq<i64> {
    Seq::new(
        aggs.len(),
        |i: int|
            match aggs[i] {
                AggExpr::Sum(e) => match *e {
                    Expr::Column(c) => {
                        if c < row.len() {
                            row[c as int]
                        } else {
                            0
                        }
                    },
                    _ => 0,
                },
            },
    )
}

/// The first error among a partition's rows under a grouped aggregation:
/// per row, the group keys are checked before the aggregation operands.
pub open spec fn agg_part_err(rows: Seq<Seq<i64>>, gb: Seq<Expr>, aggs: Seq<AggExpr>) -> Option<
    PlanError,
>
    decreases rows.len(),
{
    if rows.len() == 0 {
        None
    } else {
        match key_err(gb, rows[0]) {
            Some(e) => Some(e),
            None => match agg_err(aggs, rows[0]) {
                Some(e) => Some(e),
                None => agg_part_err(rows.drop_first(), gb, aggs),
            },
        }
    }
}

/// The distinct group keys of a partition, in first-occurrence order.
pub open spec fn group_keys(rows: Seq<Seq<i64>>, gb: Seq<Expr>) -> Seq<Seq<i64>>
    decreases rows.len(),
{
    if rows.len() == 0 {
        Seq::empty()
    } else {
        let prev = group_keys(rows.drop_last(), gb);
        let k = key_vals(gb, rows.last());
        if prev.contains(k) {
            prev
        } else {
            prev.push(k)
        }
    }
}

/// The wrapped sum of aggregation `ai` over the rows whose group key is
/// `key`.
pub open spec fn group_wsum(
    rows: Seq<Seq<i64>>,
    gb: Seq<Expr>,
    key: Seq<i64>,
    aggs: Seq<AggExpr>,
    ai: int,
) -> i64
    decreases rows.len(),
{
    if rows.len() == 0 {
        0
    } else {
        let prev = group_wsum(rows.drop_last(), gb, key, aggs, ai);
        if key_vals(gb, rows.last()) == key {
            wadd(prev, agg_vals(aggs, rows.last())[ai])
        } else {
            prev
        }
    }
}

/// What a local grouped aggregation yields on one partition: one row per
/// distinct group key in first-occurrence order, holding the key values
/// followed by the aggregated sums.
pub open spec fn aggregate_spec(rows: Seq<Seq<i64>>, gb: Seq<Expr>, aggs: Seq<AggExpr>) -> Seq<
    Seq<i64>,
> {
    Seq::new(
        group_keys(rows, gb).len(),
        |g: int|
            group_keys(rows, gb)[g] + Seq::new(
                aggs.len(),
                |ai: int| group_wsum(rows, gb, group_keys(rows, gb)[g], aggs, ai),
            ),
    )
}


/// A key that has not occurred among `rows` contributes no sum.
pub proof fn lemma_wsum_absent(
    rows: Seq<Seq<i64>>,
    gb: Seq<Expr>,
    key: Seq<i64>,
    aggs: Seq<AggExpr>,
    ai: int,
)
    requires
        !group_keys(rows, gb).contains(key),
    ensures
        group_wsum(rows, gb, key, aggs, ai) == 0,
    decreases rows.len(),
{
    if rows.len() > 0 {
        let prev = group_keys(rows.drop_last(), gb);
        let k = key_vals(gb, rows.last());
        if k == key {
            if prev.contains(key) {
                assert(group_keys(rows, gb) == prev);
            } else {
                assert(group_keys(rows, gb) == prev.push(key));
                assert(group_keys(rows, gb).last() == key);
            }
            assert(false);
        } else {
            if prev.contains(key) {
                let j = choose|j: int| 0 <= j < prev.len() && prev[j] == key;
                if prev.contains(k) {
                    assert(group_keys(rows, gb)[j] == key);
                } else {
                    assert(group_keys(rows, gb)[j] == key);
                }
                assert(false);
            }
            lemma_wsum_absent(rows.drop_last(), gb, key, aggs, ai);
        }
    }
}

/// Whether two rows hold the same values.
pub fn rows_equal(a: &Vec<i64>, b: &Vec<i64>) -> (r: bool)
    ensures
        r == (a@ == b@),
{
    if a.len() != b.len() {
        return false;
    }
    let mut i: usize = 0;
    while i < a.len()
        invariant
            i <= a.len(),
            a@.len() == b@.len(),
            forall|j: int| 0 <= j < i ==> a@[j] == b@[j],
        decreases a.len() - i,
    {
        if a[i] != b[i] {
            return false;
        }
        i = i + 1;
    }
    proof {
        assert(a@ =~= b@);
    }
    true
}

/// The index of `key` among the group keys seen so far, if present.
fn find_key(keys: &Vec<Vec<i64>>, key: &Vec<i64>) -> (r: Option<usize>)
    ensures
        match r {
            Some(idx) => idx < keys@.len() && keys@[idx as int]@ == key@,
            None => forall|j: int| 0 <= j < keys@.len() ==> keys@[j]@ != key@,
        },
{
    let mut i: usize = 0;
    while i < keys.len()
        invariant
            i <= keys.len(),
            forall|j: int| 0 <= j < i ==> keys@[j]@ != key@,
        decreases keys.len() - i,
    {
        if rows_equal(&keys[i], key) {
            return Some(i);
        }
        i = i + 1;
    }
    None
}

/// The values `row` contributes to each aggregation, or the error ruling the
/// aggregation list out on this row.
pub fn eval_agg_vals(aggs: &Vec<AggExpr>, row: &Vec<i64>) -> (r: Result<Vec<i64>, PlanError>)
    ensures
        match r {
            Ok(vals) => agg_err(aggs@, row@) is None && vals@ == agg_vals(aggs@, row@),
            Err(e) => agg_err(aggs@, row@) == Some(e),
        },
{
    let mut vals: Vec<i64> = Vec::new();
    proof {
        assert(aggs@.skip(0) =~= aggs@);
    }
    let mut i: usize = 0;
    while i < aggs.len()
        invariant
            i <= aggs.len(),
            vals@.len() == i,
            agg_err(aggs@, row@) == agg_err(aggs@.skip(i as int), row@),
            forall|j: int| 0 <= j < i ==> vals@[j] == agg_vals(aggs@, row@)[j],
        decreases aggs.len() - i,
    {
        proof {
            assert(aggs@.skip(i as int)[0] == aggs@[i as int]);
            assert(aggs@.skip(i as int).drop_first() =~= aggs@.skip(i + 1 as int));
        }
        match &aggs[i] {
            AggExpr::Sum(e) => match &**e {
                Expr::Column(c) => {
                    if *c < row.len() {
                        vals.push(row[*c]);
                    } else {
                        return Err(PlanError::TypeError);
                    }
                },
                _ => {
                    return Err(PlanError::Unsupported);
                },
            },
        }
        i = i + 1;
    }
    proof {
        assert(aggs@.skip(aggs@.len() as int).len() == 0);
        assert(vals@ =~= agg_vals(aggs@, row@));
    }
    Ok(vals)
}

/// Run a local (partition-scoped) grouped aggregation: group the rows by the
/// key columns `gb` and compute, per group, the wrapped 64-bit sum of each
/// aggregation in `aggs`.  Groups come out in first-occurrence order; this
/// stage never coordinates across partitions.
#[verifier::rlimit(100)]
pub fn local_aggregate(p: &Partition, gb: &Vec<Expr>, aggs: &Vec<AggExpr>) -> (r: Result<
    Partition,
    PlanError,
>)
    ensures
        match r {
            Ok(out) => {
                &&& agg_part_err(p@, gb@, aggs@) is None
                &&& out@ == aggregate_spec(p@, gb@, aggs@)
            },
            Err(e) => agg_part_err(p@, gb@, aggs@) == Some(e),
        },
{
    let mut keys: Vec<Vec<i64>> = Vec::new();
    let mut sums: Vec<Vec<i64>> = Vec::new();
    proof {
        assert(p@.skip(0) =~= p@);
        assert(p@.take(0) =~= Seq::<Seq<i64>>::empty());
    }
    let mut i: usize = 0;
    while i < p.rows.len()
        invariant
            i <= p.rows.len(),
            keys@.len() == sums@.len(),
            agg_part_err(p@, gb@, aggs@) == agg_part_err(p@.skip(i as int), gb@, aggs@),
            keys@.map_values(|k: Vec<i64>| k@) =~= group_keys(p@.take(i as int), gb@),
            forall|g1: int, g2: int|
                0 <= g1 < g2 < keys@.len() ==> keys@[g1]@ != keys@[g2]@,
            forall|g: int| 0 <= g < sums@.len() ==> sums@[g]@.len() == aggs@.len(),
            forall|g: int, ai: int|
                0 <= g < sums@.len() && 0 <= ai < aggs@.len() ==> sums@[g]@[ai] == group_wsum(
                    p@.take(i as int),
                    gb@,
                    keys@[g]@,
                    aggs@,
                    ai,
                ),
        decreases p.rows.len() - i,
    {
        proof {
            assert(p@.skip(i as int)[0] == p@[i as int]);
            assert(p@.skip(i as int).drop_first() =~= p@.skip(i + 1 as int));
            assert(p@.take(i + 1 as int).drop_last() =~= p@.take(i as int));
            assert(p@.take(i + 1 as int).last() == p@[i as int]);
        }
        let row = &p.rows[i];
        let kv = match crate::fanout::eval_key(gb, row) {
            Ok(kv) => kv,
            Err(e) => {
                return Err(e);
            },
        };
        let av = match eval_agg_vals(aggs, row) {
            Ok(av) => av,
            Err(e) => {
                return Err(e);
            },
        };
        let ghost gk_prev: Seq<Seq<i64>> = group_keys(p@.take(i as int), gb@);
        let ghost gk_next: Seq<Seq<i64>> = group_keys(p@.take(i + 1 as int), gb@);
        let ghost keys_old: Seq<Vec<i64>> = keys@;
        let ghost sums_old: Seq<Vec<i64>> = sums@;
        match find_key(&keys, &kv) {
            Some(idx) => {
                proof {
                    assert(gk_prev.contains(kv@)) by {
                        assert(keys@.map_values(|k: Vec<i64>| k@)[idx as int] == kv@);
                    }
                    assert(gk_next =~= gk_prev);
                }
                let mut updated: Vec<i64> = Vec::new();
                let mut ai: usize = 0;
                while ai < aggs.len()
                    invariant
                        ai <= aggs.len(),
                        idx < sums@.len(),
                        sums@[idx as int]@.len() == aggs@.len(),
                        av@.len() == aggs@.len(),
                        updated@.len() == ai,
                        forall|j: int|
                            0 <= j < ai ==> updated@[j] == wadd(sums@[idx as int]@[j], av@[j]),
                    decreases aggs.len() - ai,
                {
                    updated.push(sums[idx][ai].wrapping_add(av[ai]));
                    ai = ai + 1;
                }
                sums.set(idx, updated);
                proof {
                    let last = p@[i as int];
                    assert forall|g: int, ai: int|
                        0 <= g < sums@.len() && 0 <= ai < aggs@.len() implies sums@[g]@[ai]
                        == group_wsum(p@.take(i + 1 as int), gb@, keys@[g]@, aggs@, ai) by {
                        assert(key_vals(gb@, last) == kv@);
                        assert(agg_vals(aggs@, last)[ai] == av@[ai]);
                        if g == idx {
                            assert(keys@[g]@ == kv@);
                            assert(sums@[g]@[ai] == wadd(sums_old[g]@[ai], av@[ai]));
                            assert(sums_old[g]@[ai] == group_wsum(
                                p@.take(i as int),
                                gb@,
                                keys@[g]@,
                                aggs@,
                                ai,
                            ));
                        } else {
                            if g < idx {
                                assert(keys@[g]@ != keys@[idx as int]@);
                            } else {
                                assert(keys@[idx as int]@ != keys@[g]@);
                            }
                            assert(sums@[g] == sums_old[g]);
                        }
                    }
                }
            },
            None => {
                proof {
                    assert(!gk_prev.contains(kv@)) by {
                        if gk_prev.contains(kv@) {
                            let j = choose|j: int|
                                0 <= j < gk_prev.len() && gk_prev[j] == kv@;
                            assert(keys@.map_values(|k: Vec<i64>| k@)[j] == kv@);
                        }
                    }
                    assert(gk_next =~= gk_prev.push(kv@));
                }
                keys.push(kv);
                sums.push(av);
                proof {
                    let last = p@[i as int];
                    assert(keys@.map_values(|k: Vec<i64>| k@) =~= gk_next);
                    assert forall|g: int, ai: int|
                        0 <= g < sums@.len() && 0 <= ai < aggs@.len() implies sums@[g]@[ai]
                        == group_wsum(p@.take(i + 1 as int), gb@, keys@[g]@, aggs@, ai) by {
                        assert(key_vals(gb@, last) == kv@);
                        assert(agg_vals(aggs@, last)[ai] == av@[ai]);
                        if g == keys_old.len() {
                            assert(keys@[g]@ == kv@);
                            lemma_wsum_absent(p@.take(i as int), gb@, kv@, aggs@, ai);
                            assert(wadd(0, av@[ai]) == av@[ai]);
                        } else {
                            assert(keys@[g] == keys_old[g]);
                            assert(sums@[g] == sums_old[g]);
                            assert(keys_old[g]@ != kv@);
                        }
                    }
                }
            },
        }
        i = i + 1;
    }
    proof {
        assert(p@.skip(p@.len() as int).len() == 0);
        assert(p@.take(p@.len() as int) =~= p@);
    }
    let mut rows: Vec<Vec<i64>> = Vec::new();
    let mut g: usize = 0;
    while g < keys.len()
        invariant
            g <= keys.len(),
            keys@.len() == sums@.len(),
            rows@.len() == g,
            forall|j: int| 0 <= j < g ==> rows@[j]@ == keys@[j]@ + sums@[j]@,
        decreases keys.len() - g,
    {
        let mut row = clone_row(&keys[g]);
        let s = &sums[g];
        let mut ai: usize = 0;
        while ai < s.len()
            invariant
                ai <= s.len(),
                row@ == keys@[g as int]@ + s@.take(ai as int),
                g < keys@.len(),
                g < sums@.len(),
                s@ == sums@[g as int]@,
            decreases s.len() - ai,
        {
            row.push(s[ai]);
            proof {
                assert(row@ =~= keys@[g as int]@ + s@.take(ai + 1 as int));
            }
            ai = ai + 1;
        }
        proof {
            assert(s@.take(s@.len() as int) =~= s@);
        }
        rows.push(row);
        g = g + 1;
    }
    let out = Partition { rows };
    proof {
        assert(out@ =~~= aggregate_spec(p@, gb@, aggs@));
    }
    Ok(out)
}


/// The first error among a partition list's rows under a grouped
/// aggregation, if any.
pub open spec fn agg_parts_err(pv: Seq<Seq<Seq<i64>>>, gb: Seq<Expr>, aggs: Seq<AggExpr>) -> Option<
    PlanError,
>
    decreases pv.len(),
{
    if pv.len() == 0 {
        None
    } else {
        match agg_part_err(pv[0], gb, aggs) {
            Some(e) => Some(e),
            None => agg_parts_err(pv.drop_first(), gb, aggs),
        }
    }
}

/// What a local grouped aggregation yields over a whole partition list: each
/// partition aggregated independently.
pub open spec fn aggregate_all(pv: Seq<Seq<Seq<i64>>>, gb: Seq<Expr>, aggs: Seq<AggExpr>) -> Seq<
    Seq<Seq<i64>>,
> {
    pv.map_values(|p: Seq<Seq<i64>>| aggregate_spec(p, gb, aggs))
}

} // verus!
