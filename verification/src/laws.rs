//! The laws of the plan layer, stated and proved once and for all inputs:
//! row conservation across the partition-movement operators, determinism of
//! hash routing, the row bound and early termination of the two-phase limit,
//! and the arity of a coalesce.

use vstd::prelude::*;

use crate::fanout::{
    empty_buckets, fanout_hash_all, fanout_rr_all, merge_bucket, merge_groups, merge_spec,
    row_bucket, scatter_hash, scatter_rr,
};
use crate::compile::plan_sem;
use crate::limit::{capped, global_pulled, global_take, local_limit_spec, take_count};
use crate::partition::{cache_lookup, total_rows, CacheEntry};
use crate::plan::{plan_wf, PhysicalPlan};
use crate::shuffle::{
    chunk_size, chunk_start, coalesce_spec, lemma_chunk_start_bounds, lemma_chunk_start_total,
    split_spec,
};

verus! {

/// Concatenating partition lists adds their row totals.
pub proof fn lemma_total_rows_concat(a: Seq<Seq<Seq<i64>>>, b: Seq<Seq<Seq<i64>>>)
    ensures
        total_rows(a + b) == total_rows(a) + total_rows(b),
{
    vstd::seq_lib::lemma_flatten_concat(a, b);
}

/// Extending one partition in place changes the row total by the length
/// difference.
pub proof fn lemma_total_rows_update(s: Seq<Seq<Seq<i64>>>, i: int, v: Seq<Seq<i64>>)
    requires
        0 <= i < s.len(),
    ensures
        total_rows(s.update(i, v)) == total_rows(s) - s[i].len() + v.len(),
{
    let pre = s.subrange(0, i);
    let post = s.subrange(i + 1, s.len() as int);
    assert(s =~= pre + (seq![s[i]] + post));
    assert(s.update(i, v) =~= pre + (seq![v] + post));
    lemma_total_rows_concat(pre, seq![s[i]] + post);
    lemma_total_rows_concat(seq![s[i]], post);
    lemma_total_rows_concat(pre, seq![v] + post);
    lemma_total_rows_concat(seq![v], post);
    lemma_total_rows_singleton(s[i]);
    lemma_total_rows_singleton(v);
}

/// A single partition's row total is its length.
pub proof fn lemma_total_rows_singleton(p: Seq<Seq<i64>>)
    ensures
        total_rows(seq![p]) == p.len(),
{
    assert(seq![p].drop_first() =~= Seq::<Seq<Seq<i64>>>::empty());
    assert(seq![p].flatten() =~= p + Seq::<Seq<Seq<i64>>>::empty().flatten());
    assert(Seq::<Seq<Seq<i64>>>::empty().flatten() =~= Seq::<Seq<i64>>::empty());
}

/// The first `j` output chunks of a split hold exactly the first
/// `chunk_start(j)` input rows, in order.
pub proof fn lemma_split_partial(pv: Seq<Seq<Seq<i64>>>, to: int, j: int)
    requires
        to >= 1,
        0 <= j <= to,
    ensures
        split_spec(pv, to).take(j).flatten() =~= pv.flatten().take(
            chunk_start(pv.flatten().len() as int, to, j),
        ),
    decreases j,
{
    let flat = pv.flatten();
    let n = flat.len() as int;
    lemma_chunk_start_bounds(n, to, j);
    if j == 0 {
        assert(split_spec(pv, to).take(0) =~= Seq::<Seq<Seq<i64>>>::empty());
        assert(Seq::<Seq<Seq<i64>>>::empty().flatten() =~= flat.take(0));
    } else {
        lemma_split_partial(pv, to, j - 1);
        lemma_chunk_start_bounds(n, to, j - 1);
        let prev = split_spec(pv, to).take(j - 1);
        let chunk = split_spec(pv, to)[j - 1];
        assert(split_spec(pv, to).take(j) =~= prev.push(chunk));
        prev.lemma_flatten_push(chunk);
        assert(flat.take(chunk_start(n, to, j - 1)) + flat.subrange(
            chunk_start(n, to, j - 1),
            chunk_start(n, to, j - 1) + chunk_size(n, to, j - 1),
        ) =~= flat.take(chunk_start(n, to, j)));
    }
}

/// Row conservation and order preservation of a split: the flattened output
/// rows are exactly the flattened input rows.
pub proof fn lemma_split_flatten(pv: Seq<Seq<Seq<i64>>>, to: int)
    requires
        to >= 1,
    ensures
        split_spec(pv, to).flatten() == pv.flatten(),
        total_rows(split_spec(pv, to)) == total_rows(pv),
{
    let flat = pv.flatten();
    let n = flat.len() as int;
    lemma_split_partial(pv, to, to);
    lemma_chunk_start_total(n, to);
    assert(split_spec(pv, to).take(to) =~= split_spec(pv, to));
    assert(flat.take(n) =~= flat);
}

/// The first `j` output partitions of a coalesce hold exactly the rows of
/// the first `chunk_start(j)` input partitions, in order.
pub proof fn lemma_coalesce_partial(pv: Seq<Seq<Seq<i64>>>, to: int, j: int)
    requires
        to >= 1,
        0 <= j <= to,
    ensures
        coalesce_spec(pv, to).take(j).flatten() =~= pv.take(
            chunk_start(pv.len() as int, to, j),
        ).flatten(),
    decreases j,
{
    let f = pv.len() as int;
    lemma_chunk_start_bounds(f, to, j);
    if j == 0 {
        assert(coalesce_spec(pv, to).take(0) =~= Seq::<Seq<Seq<i64>>>::empty());
        assert(pv.take(0) =~= Seq::<Seq<Seq<i64>>>::empty());
    } else {
        lemma_coalesce_partial(pv, to, j - 1);
        lemma_chunk_start_bounds(f, to, j - 1);
        let start = chunk_start(f, to, j - 1);
        let size = chunk_size(f, to, j - 1);
        let prev = coalesce_spec(pv, to).take(j - 1);
        let group = pv.subrange(start, start + size);
        assert(coalesce_spec(pv, to).take(j) =~= prev.push(group.flatten()));
        prev.lemma_flatten_push(group.flatten());
        vstd::seq_lib::lemma_flatten_concat(pv.take(start), group);
        assert(pv.take(start) + group =~= pv.take(chunk_start(f, to, j)));
    }
}

/// Row conservation and order preservation of a coalesce.
pub proof fn lemma_coalesce_flatten(pv: Seq<Seq<Seq<i64>>>, to: int)
    requires
        to >= 1,
    ensures
        coalesce_spec(pv, to).flatten() == pv.flatten(),
        total_rows(coalesce_spec(pv, to)) == total_rows(pv),
{
    let f = pv.len() as int;
    lemma_coalesce_partial(pv, to, to);
    lemma_chunk_start_total(f, to);
    assert(coalesce_spec(pv, to).take(to) =~= coalesce_spec(pv, to));
    assert(pv.take(f) =~= pv);
}


/// A list of empty partitions holds no rows.
pub proof fn lemma_total_rows_all_empty(s: Seq<Seq<Seq<i64>>>)
    requires
        forall|i: int| 0 <= i < s.len() ==> s[i].len() == 0,
    ensures
        total_rows(s) == 0,
    decreases s.len(),
{
    if s.len() > 0 {
        assert(s.first().len() == 0);
        assert(s.first() =~= Seq::<Seq<i64>>::empty());
        lemma_total_rows_all_empty(s.drop_first());
        assert(s.flatten() =~= s.first() + s.drop_first().flatten());
    }
}

/// Appending one partition at the end adds its rows to the total.
pub proof fn lemma_total_rows_push(s: Seq<Seq<Seq<i64>>>, p: Seq<Seq<i64>>)
    ensures
        total_rows(s.push(p)) == total_rows(s) + p.len(),
{
    s.lemma_flatten_push(p);
}

/// A round-robin scatter spreads exactly the input rows over its `n`
/// buckets.
pub proof fn lemma_scatter_rr_total(rows: Seq<Seq<i64>>, n: int)
    requires
        n >= 1,
    ensures
        scatter_rr(rows, n).len() == n,
        total_rows(scatter_rr(rows, n)) == rows.len(),
    decreases rows.len(),
{
    if rows.len() == 0 {
        lemma_total_rows_all_empty(empty_buckets(n));
    } else {
        lemma_scatter_rr_total(rows.drop_last(), n);
        let prev = scatter_rr(rows.drop_last(), n);
        let b = (rows.len() - 1) as int % n;
        vstd::arithmetic::div_mod::lemma_mod_bound((rows.len() - 1) as int, n);
        lemma_total_rows_update(prev, b, prev[b].push(rows.last()));
    }
}

/// A hash scatter spreads exactly the input rows over its `n` buckets.
pub proof fn lemma_scatter_hash_total(rows: Seq<Seq<i64>>, keys: Seq<crate::expr::Expr>, n: int)
    requires
        n >= 1,
    ensures
        scatter_hash(rows, keys, n).len() == n,
        total_rows(scatter_hash(rows, keys, n)) == rows.len(),
    decreases rows.len(),
{
    if rows.len() == 0 {
        lemma_total_rows_all_empty(empty_buckets(n));
    } else {
        lemma_scatter_hash_total(rows.drop_last(), keys, n);
        let prev = scatter_hash(rows.drop_last(), keys, n);
        let b = row_bucket(keys, rows.last(), n);
        vstd::arithmetic::div_mod::lemma_mod_bound(
            crate::hashing::hash_vals(crate::fanout::key_vals(keys, rows.last())) as int,
            n,
        );
        lemma_total_rows_update(prev, b, prev[b].push(rows.last()));
    }
}

/// Row conservation of a random fan-out over a whole partition list.
pub proof fn lemma_fanout_rr_total(pv: Seq<Seq<Seq<i64>>>, n: int)
    requires
        n >= 1,
    ensures
        fanout_rr_all(pv, n).len() == n * pv.len(),
        total_rows(fanout_rr_all(pv, n)) == total_rows(pv),
    decreases pv.len(),
{
    let f = |p: Seq<Seq<i64>>| scatter_rr(p, n);
    let mapped = pv.map_values(f);
    if pv.len() == 0 {
        assert(mapped =~= Seq::<Seq<Seq<Seq<i64>>>>::empty());
        assert(mapped.flatten() =~= Seq::<Seq<Seq<i64>>>::empty());
        assert(pv.flatten() =~= Seq::<Seq<i64>>::empty());
        assert(n * 0 == 0) by (nonlinear_arith);
    } else {
        lemma_fanout_rr_total(pv.drop_last(), n);
        lemma_scatter_rr_total(pv.last(), n);
        let prevmap = pv.drop_last().map_values(f);
        assert(mapped =~= prevmap.push(f(pv.last())));
        prevmap.lemma_flatten_push(f(pv.last()));
        lemma_total_rows_concat(fanout_rr_all(pv.drop_last(), n), f(pv.last()));
        assert(pv =~= pv.drop_last().push(pv.last()));
        lemma_total_rows_push(pv.drop_last(), pv.last());
        assert(n * (pv.len() - 1) + n == n * pv.len()) by (nonlinear_arith);
    }
}

/// Row conservation of a hash fan-out over a whole partition list.
pub proof fn lemma_fanout_hash_total(pv: Seq<Seq<Seq<i64>>>, keys: Seq<crate::expr::Expr>, n: int)
    requires
        n >= 1,
    ensures
        fanout_hash_all(pv, keys, n).len() == n * pv.len(),
        total_rows(fanout_hash_all(pv, keys, n)) == total_rows(pv),
    decreases pv.len(),
{
    let f = |p: Seq<Seq<i64>>| scatter_hash(p, keys, n);
    let mapped = pv.map_values(f);
    if pv.len() == 0 {
        assert(mapped =~= Seq::<Seq<Seq<Seq<i64>>>>::empty());
        assert(mapped.flatten() =~= Seq::<Seq<Seq<i64>>>::empty());
        assert(pv.flatten() =~= Seq::<Seq<i64>>::empty());
        assert(n * 0 == 0) by (nonlinear_arith);
    } else {
        lemma_fanout_hash_total(pv.drop_last(), keys, n);
        lemma_scatter_hash_total(pv.last(), keys, n);
        let prevmap = pv.drop_last().map_values(f);
        assert(mapped =~= prevmap.push(f(pv.last())));
        prevmap.lemma_flatten_push(f(pv.last()));
        lemma_total_rows_concat(fanout_hash_all(pv.drop_last(), keys, n), f(pv.last()));
        assert(pv =~= pv.drop_last().push(pv.last()));
        lemma_total_rows_push(pv.drop_last(), pv.last());
        assert(n * (pv.len() - 1) + n == n * pv.len()) by (nonlinear_arith);
    }
}

/// Splitting every partition of a list into a prefix part and an appended
/// part splits the row total accordingly.
pub proof fn lemma_total_rows_pointwise_add(
    a: Seq<Seq<Seq<i64>>>,
    b: Seq<Seq<Seq<i64>>>,
    u: Seq<Seq<Seq<i64>>>,
)
    requires
        a.len() == b.len(),
        a.len() == u.len(),
        forall|i: int| 0 <= i < a.len() ==> b[i] == a[i] + u[i],
    ensures
        total_rows(b) == total_rows(a) + total_rows(u),
    decreases a.len(),
{
    if a.len() > 0 {
        lemma_total_rows_pointwise_add(a.drop_last(), b.drop_last(), u.drop_last());
        assert(a =~= a.drop_last().push(a.last()));
        assert(b =~= b.drop_last().push(b.last()));
        assert(u =~= u.drop_last().push(u.last()));
        lemma_total_rows_push(a.drop_last(), a.last());
        lemma_total_rows_push(b.drop_last(), b.last());
        lemma_total_rows_push(u.drop_last(), u.last());
        assert(b.last() == a.last() + u.last());
    }
}

/// The first `k` groups of a merge hold exactly the rows of the first
/// `k * n` fanned-out partitions.
pub proof fn lemma_merge_partial(pv: Seq<Seq<Seq<i64>>>, n: int, k: int)
    requires
        n >= 1,
        0 <= k,
        k * n <= pv.len(),
    ensures
        total_rows(merge_groups(pv, n, k)) == total_rows(pv.take(k * n)),
    decreases k,
{
    if k == 0 {
        assert(k * n == 0) by (nonlinear_arith)
            requires
                k == 0,
        ;
        assert forall|i: int| 0 <= i < merge_groups(pv, n, 0).len() implies merge_groups(
            pv,
            n,
            0,
        )[i].len() == 0 by {
            assert(merge_groups(pv, n, 0)[i] == merge_bucket(pv, n, i, 0));
        }
        lemma_total_rows_all_empty(merge_groups(pv, n, 0));
        assert(pv.take(0) =~= Seq::<Seq<Seq<i64>>>::empty());
        assert(Seq::<Seq<Seq<i64>>>::empty().flatten() =~= Seq::<Seq<i64>>::empty());
        assert(total_rows(merge_groups(pv, n, k)) == total_rows(pv.take(k * n)));
    } else {
        assert((k - 1) * n <= k * n) by (nonlinear_arith)
            requires
                n >= 1,
                k >= 1,
        ;
        assert((k - 1) * n >= 0) by (nonlinear_arith)
            requires
                n >= 1,
                k >= 1,
        ;
        assert((k - 1) * n + n == k * n) by (nonlinear_arith);
        lemma_merge_partial(pv, n, k - 1);
        let a = merge_groups(pv, n, k - 1);
        let b = merge_groups(pv, n, k);
        let u = pv.subrange((k - 1) * n, k * n);
        assert forall|j: int| 0 <= j < n implies b[j] == a[j] + u[j] by {
            assert((k - 1) * n + j < k * n) by (nonlinear_arith)
                requires
                    n >= 1,
                    k >= 1,
                    0 <= j < n,
            ;
            assert(merge_bucket(pv, n, j, k) == merge_bucket(pv, n, j, k - 1) + pv[(k - 1) * n
                + j]);
        }
        lemma_total_rows_pointwise_add(a, b, u);
        lemma_total_rows_concat(pv.take((k - 1) * n), u);
        assert(pv.take((k - 1) * n) + u =~= pv.take(k * n));
        assert(total_rows(merge_groups(pv, n, k)) == total_rows(pv.take(k * n)));
    }
}

/// Row conservation of a reduce-merge over the output of a fan-out of width
/// `n`.
pub proof fn lemma_merge_total(pv: Seq<Seq<Seq<i64>>>, n: int)
    requires
        n >= 1,
        pv.len() as int % n == 0,
    ensures
        merge_spec(pv, n).len() == n,
        total_rows(merge_spec(pv, n)) == total_rows(pv),
{
    let k = pv.len() as int / n;
    vstd::arithmetic::div_mod::lemma_fundamental_div_mod(pv.len() as int, n);
    vstd::arithmetic::div_mod::lemma_div_pos_is_pos(pv.len() as int, n);
    assert(n * k == k * n) by (nonlinear_arith);
    lemma_merge_partial(pv, n, k);
    assert(pv.take(k * n) =~= pv);
}


/// The smaller of a budget and a row count.
pub open spec fn min_rows(l: int, m: int) -> int {
    if m <= l {
        m
    } else {
        l
    }
}

/// The global limit stage yields exactly the smaller of its budget and the
/// upstream row total.
pub proof fn lemma_global_take_total(pv: Seq<Seq<Seq<i64>>>, l: int)
    requires
        l >= 0,
    ensures
        total_rows(global_take(pv, l)) == min_rows(l, total_rows(pv) as int),
    decreases pv.len(),
{
    if l <= 0 || pv.len() == 0 {
        if pv.len() == 0 {
            assert(pv.flatten() =~= Seq::<Seq<i64>>::empty());
        }
    } else {
        let t0 = take_count(l, pv[0].len() as int);
        let piece = capped(pv[0], l);
        let rest = global_take(pv.drop_first(), l - t0);
        lemma_global_take_total(pv.drop_first(), l - t0);
        lemma_total_rows_concat(seq![piece], rest);
        lemma_total_rows_singleton(piece);
        assert(pv.flatten() =~= pv.first() + pv.drop_first().flatten());
    }
}

/// The local limit stage never grows the row total, and leaves at least the
/// budget's worth when the upstream has it.
pub proof fn lemma_local_limit_total(pv: Seq<Seq<Seq<i64>>>, l: int)
    requires
        l >= 0,
    ensures
        total_rows(local_limit_spec(pv, l)) <= total_rows(pv),
        total_rows(local_limit_spec(pv, l)) >= min_rows(l, total_rows(pv) as int),
    decreases pv.len(),
{
    let loc = local_limit_spec(pv, l);
    if pv.len() == 0 {
        assert(loc =~= Seq::<Seq<Seq<i64>>>::empty());
        assert(loc.flatten() =~= Seq::<Seq<i64>>::empty());
        assert(pv.flatten() =~= Seq::<Seq<i64>>::empty());
    } else {
        lemma_local_limit_total(pv.drop_last(), l);
        assert(loc =~= local_limit_spec(pv.drop_last(), l).push(capped(pv.last(), l)));
        lemma_total_rows_push(local_limit_spec(pv.drop_last(), l), capped(pv.last(), l));
        assert(pv =~= pv.drop_last().push(pv.last()));
        lemma_total_rows_push(pv.drop_last(), pv.last());
    }
}

/// The row bound of a two-phase limit: over any upstream partitioning, the
/// rows yielded equal the smaller of the budget and the upstream total.
pub proof fn lemma_limit_bound(pv: Seq<Seq<Seq<i64>>>, l: int)
    requires
        l >= 0,
    ensures
        total_rows(global_take(local_limit_spec(pv, l), l)) == min_rows(
            l,
            total_rows(pv) as int,
        ),
{
    lemma_global_take_total(local_limit_spec(pv, l), l);
    lemma_local_limit_total(pv, l);
}

/// The global limit stage pulls at most every upstream partition, and when
/// it leaves some unpulled it is because the budget was already filled.
pub proof fn lemma_global_pulled(pv: Seq<Seq<Seq<i64>>>, l: int)
    requires
        l >= 0,
    ensures
        0 <= global_pulled(pv, l) <= pv.len(),
        global_pulled(pv, l) < pv.len() ==> total_rows(global_take(pv, l)) == l,
    decreases pv.len(),
{
    if l <= 0 || pv.len() == 0 {
        assert(global_take(pv, l).flatten() =~= Seq::<Seq<i64>>::empty());
    } else {
        let t0 = take_count(l, pv[0].len() as int);
        let piece = capped(pv[0], l);
        let rest = global_take(pv.drop_first(), l - t0);
        lemma_global_pulled(pv.drop_first(), l - t0);
        lemma_global_take_total(pv.drop_first(), l - t0);
        lemma_total_rows_concat(seq![piece], rest);
        lemma_total_rows_singleton(piece);
    }
}

/// Hash fan-out routing is deterministic: two rows with equal key values are
/// routed to the same output partition index, for any width, wherever the
/// rows came from.
pub proof fn lemma_hash_fanout_deterministic(
    keys: Seq<crate::expr::Expr>,
    r1: Seq<i64>,
    r2: Seq<i64>,
    n: int,
)
    requires
        n >= 1,
        crate::fanout::key_vals(keys, r1) == crate::fanout::key_vals(keys, r2),
    ensures
        row_bucket(keys, r1, n) == row_bucket(keys, r2, n),
{
}

/// Every row that a hash scatter places in bucket `b` hashes to bucket `b`:
/// the invariant a downstream merge and re-aggregation depend on.
pub proof fn lemma_scatter_hash_placement(rows: Seq<Seq<i64>>, keys: Seq<crate::expr::Expr>, n: int)
    requires
        n >= 1,
    ensures
        forall|b: int, ri: int|
            0 <= b < n && 0 <= ri < scatter_hash(rows, keys, n)[b].len() ==> row_bucket(
                keys,
                #[trigger] scatter_hash(rows, keys, n)[b][ri],
                n,
            ) == b,
    decreases rows.len(),
{
    if rows.len() > 0 {
        lemma_scatter_hash_placement(rows.drop_last(), keys, n);
        let prev = scatter_hash(rows.drop_last(), keys, n);
        let b0 = row_bucket(keys, rows.last(), n);
        lemma_scatter_hash_total(rows.drop_last(), keys, n);
        vstd::arithmetic::div_mod::lemma_mod_bound(
            crate::hashing::hash_vals(crate::fanout::key_vals(keys, rows.last())) as int,
            n,
        );
        assert forall|b: int, ri: int|
            0 <= b < n && 0 <= ri < scatter_hash(rows, keys, n)[b].len() implies row_bucket(
            keys,
            scatter_hash(rows, keys, n)[b][ri],
            n,
        ) == b by {
            if b == b0 && ri == prev[b0].len() {
                assert(scatter_hash(rows, keys, n)[b][ri] == rows.last());
            } else {
                assert(scatter_hash(rows, keys, n)[b][ri] == prev[b][ri]);
            }
        }
    }
}

/// A coalesce always yields exactly its target number of partitions.
pub proof fn lemma_coalesce_arity(pv: Seq<Seq<Seq<i64>>>, to: int)
    requires
        to >= 1,
    ensures
        coalesce_spec(pv, to).len() == to,
{
}


/// A plan built only from in-memory scans and the partition-movement
/// operators: splits, coalesces, fan-outs and merges.
pub open spec fn movement_plan(p: PhysicalPlan) -> bool
    decreases p,
{
    match p {
        PhysicalPlan::InMemoryScan { .. } => true,
        PhysicalPlan::Split { input, .. } => movement_plan(*input),
        PhysicalPlan::FanoutRandom { input, .. } => movement_plan(*input),
        PhysicalPlan::FanoutByHash { input, .. } => movement_plan(*input),
        PhysicalPlan::ReduceMerge { input } => movement_plan(*input),
        PhysicalPlan::Coalesce { input, .. } => movement_plan(*input),
        _ => false,
    }
}

/// The rows a movement plan draws from the partition cache: the staged
/// contents of the scan at its leaf.
pub open spec fn source_rows(p: PhysicalPlan, entries: Seq<CacheEntry>) -> nat
    decreases p,
{
    match p {
        PhysicalPlan::InMemoryScan { cache_key } => match cache_lookup(entries, cache_key@) {
            Some(pv) => total_rows(pv),
            None => 0,
        },
        PhysicalPlan::Split { input, .. } => source_rows(*input, entries),
        PhysicalPlan::FanoutRandom { input, .. } => source_rows(*input, entries),
        PhysicalPlan::FanoutByHash { input, .. } => source_rows(*input, entries),
        PhysicalPlan::ReduceMerge { input } => source_rows(*input, entries),
        PhysicalPlan::Coalesce { input, .. } => source_rows(*input, entries),
        _ => 0,
    }
}

/// Row conservation: a plan built only from movement operators neither
/// creates nor loses rows.  Whenever such a plan runs to completion, the
/// total row count across its output partitions equals the total staged for
/// the scan at its leaf.
pub proof fn lemma_plan_row_conservation(p: PhysicalPlan, entries: Seq<CacheEntry>)
    requires
        movement_plan(p),
        plan_wf(p),
        plan_sem(p, entries) is Ok,
    ensures
        total_rows(plan_sem(p, entries)->Ok_0) == source_rows(p, entries),
    decreases p,
{
    match p {
        PhysicalPlan::InMemoryScan { cache_key } => {
        },
        PhysicalPlan::Split { input, output_num_partitions, .. } => {
            lemma_plan_row_conservation(*input, entries);
            lemma_split_flatten(plan_sem(*input, entries)->Ok_0, output_num_partitions as int);
        },
        PhysicalPlan::FanoutRandom { input, num_partitions } => {
            lemma_plan_row_conservation(*input, entries);
            lemma_fanout_rr_total(plan_sem(*input, entries)->Ok_0, num_partitions as int);
        },
        PhysicalPlan::FanoutByHash { input, num_partitions, partition_by } => {
            lemma_plan_row_conservation(*input, entries);
            lemma_fanout_hash_total(
                plan_sem(*input, entries)->Ok_0,
                partition_by@,
                num_partitions as int,
            );
        },
        PhysicalPlan::ReduceMerge { input } => {
            lemma_plan_row_conservation(*input, entries);
            let n = crate::compile::fanout_width_of(*input)->0;
            lemma_merge_total(plan_sem(*input, entries)->Ok_0, n as int);
        },
        PhysicalPlan::Coalesce { input, num_to, .. } => {
            lemma_plan_row_conservation(*input, entries);
            lemma_coalesce_flatten(plan_sem(*input, entries)->Ok_0, num_to as int);
        },
        _ => {
        },
    }
}


/// A movement plan whose only fan-outs are random: these never depend on
/// row contents, so running them is always owed success.
pub open spec fn movement_rr_plan(p: PhysicalPlan) -> bool
    decreases p,
{
    match p {
        PhysicalPlan::InMemoryScan { .. } => true,
        PhysicalPlan::Split { input, .. } => movement_rr_plan(*input),
        PhysicalPlan::FanoutRandom { input, .. } => movement_rr_plan(*input),
        PhysicalPlan::ReduceMerge { input } => movement_rr_plan(*input),
        PhysicalPlan::Coalesce { input, .. } => movement_rr_plan(*input),
        _ => false,
    }
}

/// The output of a random fan-out is a whole number of bucket groups.
pub proof fn lemma_fanout_random_output_width(p: PhysicalPlan, entries: Seq<CacheEntry>)
    requires
        p is FanoutRandom,
        plan_sem(p, entries) is Ok,
    ensures
        plan_sem(p, entries)->Ok_0.len() as int % (crate::compile::fanout_width_of(p)->0
            as int) == 0,
        crate::compile::fanout_width_of(p)->0 >= 1,
{
    match p {
        PhysicalPlan::FanoutRandom { input, num_partitions } => {
            let gpv = plan_sem(*input, entries)->Ok_0;
            lemma_fanout_rr_total(gpv, num_partitions as int);
            vstd::arithmetic::div_mod::lemma_mod_multiples_basic(
                gpv.len() as int,
                num_partitions as int,
            );
            assert(num_partitions as int * gpv.len() as int == gpv.len() as int
                * num_partitions as int) by (nonlinear_arith);
        },
        _ => {
        },
    }
}

/// Success is owed: a well-formed movement plan without hash fan-outs that
/// compiles also runs to completion.
pub proof fn lemma_movement_plan_runs(p: PhysicalPlan, entries: Seq<CacheEntry>)
    requires
        movement_rr_plan(p),
        plan_wf(p),
        crate::compile::compile_ok(p, entries),
    ensures
        plan_sem(p, entries) is Ok,
    decreases p,
{
    match p {
        PhysicalPlan::InMemoryScan { .. } => {
        },
        PhysicalPlan::Split { input, .. } => {
            lemma_movement_plan_runs(*input, entries);
        },
        PhysicalPlan::FanoutRandom { input, .. } => {
            lemma_movement_plan_runs(*input, entries);
        },
        PhysicalPlan::Coalesce { input, .. } => {
            lemma_movement_plan_runs(*input, entries);
        },
        PhysicalPlan::ReduceMerge { input } => {
            lemma_movement_plan_runs(*input, entries);
            reveal_with_fuel(movement_rr_plan, 2);
            assert((*input) is FanoutRandom);
            lemma_fanout_random_output_width(*input, entries);
        },
        _ => {
        },
    }
}


/// The row bound of a limit node: when it runs, the rows yielded equal the
/// smaller of the budget and whatever its child yields.
pub proof fn lemma_plan_limit_bound(p: PhysicalPlan, entries: Seq<CacheEntry>)
    requires
        p is Limit,
        plan_sem(p, entries) is Ok,
    ensures
        plan_sem(p, entries) matches Ok(out) ==> match p {
            PhysicalPlan::Limit { input, limit, .. } => total_rows(out) == min_rows(
                limit as int,
                total_rows(plan_sem(*input, entries)->Ok_0) as int,
            ),
            _ => true,
        },
{
    match p {
        PhysicalPlan::Limit { input, limit, .. } => {
            lemma_limit_bound(plan_sem(*input, entries)->Ok_0, limit as int);
        },
        _ => {
        },
    }
}


/// Indexing into the flattened bucket lists of a fan-out: group `i`'s bucket
/// `j` sits at position `i * n + j`.
pub proof fn lemma_flatten_uniform_index(mapped: Seq<Seq<Seq<Seq<i64>>>>, n: int, i: int, j: int)
    requires
        n >= 1,
        forall|k: int| 0 <= k < mapped.len() ==> (#[trigger] mapped[k]).len() == n,
        0 <= i < mapped.len(),
        0 <= j < n,
    ensures
        0 <= i * n + j < mapped.flatten().len(),
        mapped.flatten()[i * n + j] == mapped[i][j],
    decreases i,
{
    assert(mapped.flatten() =~= mapped.first() + mapped.drop_first().flatten());
    if i == 0 {
        assert(i * n + j == j) by (nonlinear_arith)
            requires
                i == 0,
        ;
        assert(mapped.flatten()[j] == mapped.first()[j]);
    } else {
        assert forall|k: int| 0 <= k < mapped.drop_first().len() implies (#[trigger] mapped.drop_first()[k]).len() == n by {
            assert(mapped.drop_first()[k] == mapped[k + 1]);
        }
        lemma_flatten_uniform_index(mapped.drop_first(), n, i - 1, j);
        assert(i * n + j - n == (i - 1) * n + j) by (nonlinear_arith);
        assert(i * n + j >= n) by (nonlinear_arith)
            requires
                i >= 1,
                n >= 1,
                j >= 0,
        ;
        assert(mapped.drop_first()[i - 1] == mapped[i]);
        assert(mapped.flatten()[i * n + j] == mapped.drop_first().flatten()[(i - 1) * n + j]);
    }
}

/// Every row of bucket `j` of a merge over a hash fan-out hashes to `j`.
pub proof fn lemma_merge_bucket_pure(
    pv: Seq<Seq<Seq<i64>>>,
    keys: Seq<crate::expr::Expr>,
    n: int,
    j: int,
    k: int,
)
    requires
        n >= 1,
        0 <= j < n,
        0 <= k <= pv.len(),
    ensures
        forall|ri: int|
            0 <= ri < merge_bucket(fanout_hash_all(pv, keys, n), n, j, k).len() ==> row_bucket(
                keys,
                #[trigger] merge_bucket(fanout_hash_all(pv, keys, n), n, j, k)[ri],
                n,
            ) == j,
    decreases k,
{
    if k > 0 {
        lemma_merge_bucket_pure(pv, keys, n, j, k - 1);
        let fan = fanout_hash_all(pv, keys, n);
        let mapped = pv.map_values(|p: Seq<Seq<i64>>| scatter_hash(p, keys, n));
        assert forall|kk: int| 0 <= kk < mapped.len() implies (#[trigger] mapped[kk]).len() == n by {
            lemma_scatter_hash_total(pv[kk], keys, n);
        }
        lemma_flatten_uniform_index(mapped, n, k - 1, j);
        assert(fan[(k - 1) * n + j] == scatter_hash(pv[k - 1], keys, n)[j]);
        lemma_scatter_hash_placement(pv[k - 1], keys, n);
        assert(merge_bucket(fan, n, j, k) == merge_bucket(fan, n, j, k - 1) + fan[(k - 1) * n
            + j]);
    }
}

/// The shuffle invariant a downstream grouped aggregation depends on: after
/// a hash fan-out and a reduce-merge, every merged output partition holds
/// only rows whose key values hash to its own index, so all rows with equal
/// keys meet in one partition.
pub proof fn lemma_shuffle_groups_by_hash(pv: Seq<Seq<Seq<i64>>>, keys: Seq<crate::expr::Expr>, n: int)
    requires
        n >= 1,
    ensures
        merge_spec(fanout_hash_all(pv, keys, n), n).len() == n,
        forall|j: int, ri: int|
            0 <= j < n && 0 <= ri < merge_spec(fanout_hash_all(pv, keys, n), n)[j].len()
                ==> row_bucket(
                keys,
                #[trigger] merge_spec(fanout_hash_all(pv, keys, n), n)[j][ri],
                n,
            ) == j,
{
    let fan = fanout_hash_all(pv, keys, n);
    lemma_fanout_hash_total(pv, keys, n);
    let k = fan.len() as int / n;
    vstd::arithmetic::div_mod::lemma_div_multiples_vanish(pv.len() as int, n);
    assert(n * pv.len() as int == pv.len() as int * n) by (nonlinear_arith);
    assert(k == pv.len());
    assert forall|j: int, ri: int|
        0 <= j < n && 0 <= ri < merge_spec(fan, n)[j].len() implies row_bucket(
        keys,
        merge_spec(fan, n)[j][ri],
        n,
    ) == j by {
        lemma_merge_bucket_pure(pv, keys, n, j, k);
        assert(merge_spec(fan, n)[j] == merge_bucket(fan, n, j, k));
    }
}

} // verus!
