use vstd::prelude::*;
use vstd::pervasive::VecAdditionalExecFns;

use crate::error::PlanError;
use crate::expr::Expr;
use crate::hashing::hash_bucket;
use crate::partition::{clone_row, parts_view, Partition};
use crate::shuffle::append_rows;

verus! {

/// `n` output partitions with no rows yet.
pub open spec fn empty_buckets(n: int) -> Seq<Seq<Seq<i64>>> {
    Seq::new(n as nat, |b: int| Seq::<Seq<i64>>::empty())
}

/// One partition's rows scattered over `n` buckets by the round-robin
/// balancing policy: row `i` goes to bucket `i % n`, keeping row order within
/// each bucket.
pub open spec fn scatter_rr(rows: Seq<Seq<i64>>, n: int) -> Seq<Seq<Seq<i64>>>
    decreases rows.len(),
{
    if rows.len() == 0 {
        empty_buckets(n)
    } else {
        let prev = scatter_rr(rows.drop_last(), n);
        let b = (rows.len() - 1) as int % n;
        prev.update(b, prev[b].push(rows.last()))
    }
}

/// The error ruling a key tuple out on a row, if any: a non-column key
/// expression is `Unsupported` here, a column beyond the row's width a
/// `TypeError`; the first offending key decides.
pub open spec fn key_err(keys: Seq<Expr>, row: Seq<i64>) -> Option<PlanError>
    decreases keys.len(),
{
    if keys.len() == 0 {
        None
    } else {
        match keys[0] {
            Expr::Column(c) => {
                if c < row.len() {
                    key_err(keys.drop_first(), row)
                } else {
                    Some(PlanError::TypeError)
                }
            },
            _ => Some(PlanError::Unsupported),
        }
    }
}

/// The key values of a row under the key columns `keys`.
pub open spec fn key_vals(keys: Seq<Expr>, row: Seq<i64>) -> Seq<i64> {
    Seq::new(
        keys.len(),
        |i: int|
            match keys[i] {
                Expr::Column(c) => {
                    if c < row.len() {
                        row[c as int]
                    } else {
                        0
                    }
                },
                _ => 0,
            },
    )
}

/// The output partition index a row is routed to by a hash fan-out over `n`
/// buckets: a function of the row's key values and `n` alone.
pub open spec fn row_bucket(keys: Seq<Expr>, row: Seq<i64>, n: int) -> int {
    hash_bucket(key_vals(keys, row), n)
}

/// The first error among a partition's rows, if any.
pub open spec fn rows_err(keys: Seq<Expr>, rows: Seq<Seq<i64>>) -> Option<PlanError>
    decreases rows.len(),
{
    if rows.len() == 0 {
        None
    } else {
        match key_err(keys, rows[0]) {
            Some(e) => Some(e),
            None => rows_err(keys, rows.drop_first()),
        }
    }
}

/// The first error among a partition list's rows, if any.
pub open spec fn parts_err(keys: Seq<Expr>, pv: Seq<Seq<Seq<i64>>>) -> Option<PlanError>
    decreases pv.len(),
{
    if pv.len() == 0 {
        None
    } else {
        match rows_err(keys, pv[0]) {
            Some(e) => Some(e),
            None => parts_err(keys, pv.drop_first()),
        }
    }
}

/// One partition's rows scattered over `n` buckets by key hash: each row
/// goes to the bucket its key values hash to, keeping row order within each
/// bucket.
pub open spec fn scatter_hash(rows: Seq<Seq<i64>>, keys: Seq<Expr>, n: int) -> Seq<Seq<Seq<i64>>>
    decreases rows.len(),
{
    if rows.len() == 0 {
        empty_buckets(n)
    } else {
        let prev = scatter_hash(rows.drop_last(), keys, n);
        let b = row_bucket(keys, rows.last(), n);
        prev.update(b, prev[b].push(rows.last()))
    }
}

/// What a random fan-out yields over a whole partition list: for each input
/// partition in order, its `n` buckets.
pub open spec fn fanout_rr_all(pv: Seq<Seq<Seq<i64>>>, n: int) -> Seq<Seq<Seq<i64>>> {
    pv.map_values(|p: Seq<Seq<i64>>| scatter_rr(p, n)).flatten()
}

/// What a hash fan-out yields over a whole partition list.
pub open spec fn fanout_hash_all(pv: Seq<Seq<Seq<i64>>>, keys: Seq<Expr>, n: int) -> Seq<
    Seq<Seq<i64>>,
> {
    pv.map_values(|p: Seq<Seq<i64>>| scatter_hash(p, keys, n)).flatten()
}

/// `n` fresh empty partitions.
fn make_empty_buckets(n: usize) -> (out: Vec<Partition>)
    ensures
        parts_view(out@) == empty_buckets(n as int),
        out@.len() == n,
{
    let mut out: Vec<Partition> = Vec::new();
    let mut b: usize = 0;
    while b < n
        invariant
            b <= n,
            out@.len() == b,
            forall|j: int| 0 <= j < b ==> out@[j]@ == Seq::<Seq<i64>>::empty(),
        decreases n - b,
    {
        out.push(Partition { rows: Vec::new() });
        b = b + 1;
    }
    proof {
        assert(parts_view(out@) =~= empty_buckets(n as int));
    }
    out
}

/// Push a copy of `row` onto bucket `b` of `buckets`.
fn push_to_bucket(buckets: &mut Vec<Partition>, b: usize, row: &Vec<i64>)
    requires
        b < old(buckets)@.len(),
    ensures
        final(buckets)@.len() == old(buckets)@.len(),
        parts_view(final(buckets)@) == parts_view(old(buckets)@).update(
            b as int,
            parts_view(old(buckets)@)[b as int].push(row@),
        ),
{
    let mut tmp = Partition { rows: Vec::new() };
    buckets.set_and_swap(b, &mut tmp);
    tmp.rows.push(clone_row(row));
    proof {
        assert(parts_view(old(buckets)@)[b as int] == old(buckets)@[b as int]@);
        assert(tmp@ =~= parts_view(old(buckets)@)[b as int].push(row@));
    }
    buckets.set_and_swap(b, &mut tmp);
    proof {
        assert(parts_view(buckets@) =~= parts_view(old(buckets)@).update(
            b as int,
            parts_view(old(buckets)@)[b as int].push(row@),
        ));
    }
}

/// Scatter one partition's rows over `n` buckets round robin.
pub fn fanout_partition_random(p: &Partition, n: usize) -> (out: Vec<Partition>)
    requires
        n >= 1,
    ensures
        parts_view(out@) == scatter_rr(p@, n as int),
        out@.len() == n,
{
    let mut out = make_empty_buckets(n);
    proof {
        assert(p@.take(0) =~= Seq::<Seq<i64>>::empty());
    }
    let mut i: usize = 0;
    while i < p.rows.len()
        invariant
            i <= p.rows.len(),
            n >= 1,
            out@.len() == n,
            parts_view(out@) == scatter_rr(p@.take(i as int), n as int),
        decreases p.rows.len() - i,
    {
        let b: usize = i % n;
        push_to_bucket(&mut out, b, &p.rows[i]);
        proof {
            let t = p@.take(i + 1 as int);
            assert(t.drop_last() =~= p@.take(i as int));
            assert(t.last() == p@[i as int]);
            assert((t.len() - 1) as int % n as int == b as int);
        }
        i = i + 1;
    }
    proof {
        assert(p@.take(p@.len() as int) =~= p@);
    }
    out
}

/// The key values of a row under key columns, or the error ruling them out.
pub fn eval_key(keys: &Vec<Expr>, row: &Vec<i64>) -> (r: Result<Vec<i64>, PlanError>)
    ensures
        match r {
            Ok(vals) => key_err(keys@, row@) is None && vals@ == key_vals(keys@, row@),
            Err(e) => key_err(keys@, row@) == Some(e),
        },
{
    let mut vals: Vec<i64> = Vec::new();
    proof {
        assert(keys@.skip(0) =~= keys@);
    }
    let mut i: usize = 0;
    while i < keys.len()
        invariant
            i <= keys.len(),
            vals@.len() == i,
            key_err(keys@, row@) == key_err(keys@.skip(i as int), row@),
            forall|j: int| 0 <= j < i ==> vals@[j] == key_vals(keys@, row@)[j],
        decreases keys.len() - i,
    {
        proof {
            assert(keys@.skip(i as int)[0] == keys@[i as int]);
            assert(keys@.skip(i as int).drop_first() =~= keys@.skip(i + 1 as int));
        }
        match &keys[i] {
            Expr::Column(c) => {
                if *c < row.len() {
                    vals.push(row[*c]);
                } else {
                    return Err(PlanError::TypeError);
                }
            },
            _ => {
                return Err(PlanError::Unsupported);
            },
        }
        i = i + 1;
    }
    proof {
        assert(keys@.skip(keys@.len() as int).len() == 0);
        assert(vals@ =~= key_vals(keys@, row@));
    }
    Ok(vals)
}

/// Scatter one partition's rows over `n` buckets by key hash.
#[verifier::rlimit(60)]
pub fn fanout_partition_hash(p: &Partition, n: usize, keys: &Vec<Expr>) -> (r: Result<
    Vec<Partition>,
    PlanError,
>)
    requires
        n >= 1,
    ensures
        match r {
            Ok(out) => {
                &&& rows_err(keys@, p@) is None
                &&& parts_view(out@) == scatter_hash(p@, keys@, n as int)
                &&& out@.len() == n
            },
            Err(e) => rows_err(keys@, p@) == Some(e),
        },
{
    let mut out = make_empty_buckets(n);
    proof {
        assert(p@.take(0) =~= Seq::<Seq<i64>>::empty());
        assert(p@.skip(0) =~= p@);
    }
    let mut i: usize = 0;
    while i < p.rows.len()
        invariant
            i <= p.rows.len(),
            n >= 1,
            out@.len() == n,
            rows_err(keys@, p@) == rows_err(keys@, p@.skip(i as int)),
            parts_view(out@) == scatter_hash(p@.take(i as int), keys@, n as int),
        decreases p.rows.len() - i,
    {
        proof {
            assert(p@.skip(i as int)[0] == p@[i as int]);
            assert(p@.skip(i as int).drop_first() =~= p@.skip(i + 1 as int));
        }
        let row = &p.rows[i];
        match eval_key(keys, row) {
            Ok(k) => {
                let h: u64 = crate::hashing::hash_row_values(&k);
                let b: usize = (h % (n as u64)) as usize;
                proof {
                    assert(b as int == hash_bucket(key_vals(keys@, row@), n as int));
                    assert(0 <= b < n);
                }
                push_to_bucket(&mut out, b, row);
                proof {
                    let t = p@.take(i + 1 as int);
                    assert(t.drop_last() =~= p@.take(i as int));
                    assert(t.last() == p@[i as int]);
                    assert(row_bucket(keys@, t.last(), n as int) == b as int);
                }
            },
            Err(e) => {
                return Err(e);
            },
        }
        i = i + 1;
    }
    proof {
        assert(p@.take(p@.len() as int) =~= p@);
        assert(p@.skip(p@.len() as int).len() == 0);
    }
    Ok(out)
}

/// Scatter every partition's rows over `n` buckets by the round-robin
/// balancing policy.  The output holds, for each input partition in order,
/// its `n` buckets in bucket order.
pub fn fanout_random(parts: &Vec<Partition>, n: usize) -> (out: Vec<Partition>)
    requires
        n >= 1,
    ensures
        parts_view(out@) == fanout_rr_all(parts_view(parts@), n as int),
        out@.len() == n * parts@.len(),
{
    let ghost pv: Seq<Seq<Seq<i64>>> = parts_view(parts@);
    let ghost mapped: Seq<Seq<Seq<Seq<i64>>>> = pv.map_values(
        |p: Seq<Seq<i64>>| scatter_rr(p, n as int),
    );
    let mut out: Vec<Partition> = Vec::new();
    proof {
        assert(mapped.take(0) =~= Seq::<Seq<Seq<Seq<i64>>>>::empty());
        assert(parts_view(out@) =~= mapped.take(0).flatten());
    }
    let mut j: usize = 0;
    while j < parts.len()
        invariant
            j <= parts.len(),
            n >= 1,
            pv == parts_view(parts@),
            mapped == pv.map_values(|p: Seq<Seq<i64>>| scatter_rr(p, n as int)),
            out@.len() == j * n,
            parts_view(out@) == mapped.take(j as int).flatten(),
        decreases parts.len() - j,
    {
        let buckets = fanout_partition_random(&parts[j], n);
        let ghost obefore: Seq<Seq<Seq<i64>>> = parts_view(out@);
        let ghost olen: int = out@.len() as int;
        let mut b: usize = 0;
        while b < buckets.len()
            invariant
                b <= buckets.len(),
                olen == obefore.len(),
                0 <= olen,
                out@.len() == olen + b,
                forall|k: int| 0 <= k < olen ==> out@[k]@ == obefore[k],
                forall|k: int| 0 <= k < b ==> out@[olen + k]@ == buckets@[k]@,
            decreases buckets.len() - b,
        {
            out.push(buckets[b].duplicate());
            b = b + 1;
        }
        proof {
            assert(parts_view(out@) =~= obefore + parts_view(buckets@));
            let t = mapped.take(j + 1 as int);
            assert(t.drop_last() =~= mapped.take(j as int));
            assert(t.last() == mapped[j as int]);
            assert(mapped[j as int] == scatter_rr(pv[j as int], n as int));
            assert(parts@[j as int]@ == pv[j as int]);
            t.lemma_flatten_and_flatten_alt_are_equivalent();
            mapped.take(j as int).lemma_flatten_and_flatten_alt_are_equivalent();
            assert(t.flatten_alt() == t.drop_last().flatten_alt().add(t.last()));
            assert(parts_view(out@) =~= mapped.take(j + 1 as int).flatten());
            assert((j + 1) * n == j * n + n) by (nonlinear_arith);
        }
        j = j + 1;
    }
    proof {
        assert(mapped.take(mapped.len() as int) =~= mapped);
        assert(parts@.len() * n == n * parts@.len()) by (nonlinear_arith);
    }
    out
}

/// Scatter every partition's rows over `n` buckets by key hash, or report
/// the first error among the rows.
pub fn fanout_by_hash(parts: &Vec<Partition>, n: usize, keys: &Vec<Expr>) -> (r: Result<
    Vec<Partition>,
    PlanError,
>)
    requires
        n >= 1,
    ensures
        match r {
            Ok(out) => {
                &&& parts_err(keys@, parts_view(parts@)) is None
                &&& parts_view(out@) == fanout_hash_all(parts_view(parts@), keys@, n as int)
                &&& out@.len() == n * parts@.len()
            },
            Err(e) => parts_err(keys@, parts_view(parts@)) == Some(e),
        },
{
    let ghost pv: Seq<Seq<Seq<i64>>> = parts_view(parts@);
    let ghost mapped: Seq<Seq<Seq<Seq<i64>>>> = pv.map_values(
        |p: Seq<Seq<i64>>| scatter_hash(p, keys@, n as int),
    );
    let mut out: Vec<Partition> = Vec::new();
    proof {
        assert(mapped.take(0) =~= Seq::<Seq<Seq<Seq<i64>>>>::empty());
        assert(parts_view(out@) =~= mapped.take(0).flatten());
        assert(pv.skip(0) =~= pv);
    }
    let mut j: usize = 0;
    while j < parts.len()
        invariant
            j <= parts.len(),
            n >= 1,
            pv == parts_view(parts@),
            mapped == pv.map_values(|p: Seq<Seq<i64>>| scatter_hash(p, keys@, n as int)),
            out@.len() == j * n,
            parts_err(keys@, pv) == parts_err(keys@, pv.skip(j as int)),
            parts_view(out@) == mapped.take(j as int).flatten(),
        decreases parts.len() - j,
    {
        proof {
            assert(pv.skip(j as int)[0] == pv[j as int]);
            assert(pv.skip(j as int).drop_first() =~= pv.skip(j + 1 as int));
            assert(parts@[j as int]@ == pv[j as int]);
        }
        match fanout_partition_hash(&parts[j], n, keys) {
            Ok(buckets) => {
                let ghost obefore: Seq<Seq<Seq<i64>>> = parts_view(out@);
                let ghost olen: int = out@.len() as int;
                let mut b: usize = 0;
                while b < buckets.len()
                    invariant
                        b <= buckets.len(),
                        olen == obefore.len(),
                        0 <= olen,
                        out@.len() == olen + b,
                        forall|k: int| 0 <= k < olen ==> out@[k]@ == obefore[k],
                        forall|k: int| 0 <= k < b ==> out@[olen + k]@ == buckets@[k]@,
                    decreases buckets.len() - b,
                {
                    out.push(buckets[b].duplicate());
                    b = b + 1;
                }
                proof {
                    assert(parts_view(out@) =~= obefore + parts_view(buckets@));
                    let t = mapped.take(j + 1 as int);
                    assert(t.drop_last() =~= mapped.take(j as int));
                    assert(t.last() == mapped[j as int]);
                    assert(mapped[j as int] == scatter_hash(pv[j as int], keys@, n as int));
                    t.lemma_flatten_and_flatten_alt_are_equivalent();
                    mapped.take(j as int).lemma_flatten_and_flatten_alt_are_equivalent();
                    assert(t.flatten_alt() == t.drop_last().flatten_alt().add(t.last()));
                    assert(parts_view(out@) =~= mapped.take(j + 1 as int).flatten());
                    assert((j + 1) * n == j * n + n) by (nonlinear_arith);
                }
            },
            Err(e) => {
                return Err(e);
            },
        }
        j = j + 1;
    }
    proof {
        assert(mapped.take(mapped.len() as int) =~= mapped);
        assert(pv.skip(pv.len() as int).len() == 0);
        assert(parts@.len() * n == n * parts@.len()) by (nonlinear_arith);
    }
    Ok(out)
}

/// Bucket `j` of a merge over `k` fan-out groups of width `n`: the
/// concatenation, in group order, of each group's bucket `j`.
pub open spec fn merge_bucket(pv: Seq<Seq<Seq<i64>>>, n: int, j: int, k: int) -> Seq<Seq<i64>>
    decreases k,
{
    if k <= 0 {
        Seq::empty()
    } else {
        merge_bucket(pv, n, j, k - 1) + pv[(k - 1) * n + j]
    }
}

/// The `n` merged partitions formed from the first `k` groups of a fanned
/// out partition list.
pub open spec fn merge_groups(pv: Seq<Seq<Seq<i64>>>, n: int, k: int) -> Seq<Seq<Seq<i64>>> {
    Seq::new(n as nat, |j: int| merge_bucket(pv, n, j, k))
}

/// What a reduce-merge yields over the output of a fan-out of width `n`:
/// `n` partitions, bucket `j` concatenating whatever every group scattered
/// to bucket index `j`, without reordering across buckets.
pub open spec fn merge_spec(pv: Seq<Seq<Seq<i64>>>, n: int) -> Seq<Seq<Seq<i64>>> {
    merge_groups(pv, n, pv.len() as int / n)
}

/// Gather the `n`-wide bucket lists produced by a preceding fan-out into `n`
/// merged partitions, one per bucket index.  The input length must be a
/// multiple of the fan-out width `n`; anything else is `Unsupported`.
pub fn reduce_merge(parts: &Vec<Partition>, n: usize) -> (r: Result<Vec<Partition>, PlanError>)
    ensures
        r is Ok <==> n >= 1 && parts@.len() as int % n as int == 0,
        r matches Ok(out) ==> {
            &&& parts_view(out@) == merge_spec(parts_view(parts@), n as int)
            &&& out@.len() == n
        },
        r is Err ==> r == Err::<Vec<Partition>, PlanError>(PlanError::Unsupported),
{
    if n == 0 {
        return Err(PlanError::Unsupported);
    }
    if parts.len() % n != 0 {
        return Err(PlanError::Unsupported);
    }
    let ghost pv: Seq<Seq<Seq<i64>>> = parts_view(parts@);
    let k: usize = parts.len() / n;
    proof {
        vstd::arithmetic::div_mod::lemma_fundamental_div_mod(parts@.len() as int, n as int);
        assert(pv.len() == parts@.len());
        assert(n as int * k as int == k as int * n as int) by (nonlinear_arith);
        assert(parts@.len() == k * n);
    }
    let mut out: Vec<Partition> = Vec::new();
    let mut j: usize = 0;
    while j < n
        invariant
            j <= n,
            n >= 1,
            pv == parts_view(parts@),
            k == pv.len() as int / n as int,
            pv.len() == k * n,
            parts@.len() == k * n,
            k * n <= usize::MAX,
            k as int == parts@.len() as int / n as int,
            out@.len() == j,
            forall|jj: int| 0 <= jj < j ==> out@[jj]@ == merge_bucket(pv, n as int, jj, k as int),
        decreases n - j,
    {
        let mut rows: Vec<Vec<i64>> = Vec::new();
        proof {
            assert(rows@.map_values(|r: Vec<i64>| r@) =~= merge_bucket(pv, n as int, j as int, 0));
        }
        let mut i: usize = 0;
        while i < k
            invariant
                i <= k,
                j < n,
                n >= 1,
                pv == parts_view(parts@),
                pv.len() == k * n,
                parts@.len() == k * n,
                k * n <= usize::MAX,
                rows@.map_values(|r: Vec<i64>| r@) == merge_bucket(pv, n as int, j as int, i as int),
            decreases k - i,
        {
            proof {
                assert(i * n + j < k * n) by (nonlinear_arith)
                    requires
                        0 <= i < k,
                        0 <= j < n,
                ;
                assert(i * n + n <= k * n) by (nonlinear_arith)
                    requires
                        i < k,
                        n >= 1,
                ;
            }
            append_rows(&mut rows, &parts[i * n + j]);
            proof {
                assert(parts@[i * n + j as int]@ == pv[i * n + j as int]);
                assert((i + 1 as int) * n - 1 * n == i * n) by (nonlinear_arith);
            }
            i = i + 1;
        }
        out.push(Partition { rows });
        j = j + 1;
    }
    proof {
        assert(parts_view(out@) =~= merge_spec(pv, n as int));
    }
    Ok(out)
}

} // verus!
