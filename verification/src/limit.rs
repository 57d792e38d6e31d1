use vstd::prelude::*;

use crate::partition::{clone_row, parts_view, Partition};

verus! {

/// How many rows a stage with `l` remaining budget takes from a partition of
/// `m` rows.
pub open spec fn take_count(l: int, m: int) -> int {
    if m <= l {
        m
    } else {
        l
    }
}

/// A partition capped at its first `l` rows.
pub open spec fn capped(p: Seq<Seq<i64>>, l: int) -> Seq<Seq<i64>> {
    p.take(take_count(l, p.len() as int))
}

/// The local limit stage: every partition is capped at `l` rows
/// independently, with no cross-partition knowledge.
pub open spec fn local_limit_spec(pv: Seq<Seq<Seq<i64>>>, l: int) -> Seq<Seq<Seq<i64>>> {
    pv.map_values(|p: Seq<Seq<i64>>| capped(p, l))
}

/// The partitions yielded by the global limit stage: upstream partitions are
/// pulled in order, each capped at the remaining row budget, until the budget
/// is exhausted; upstream partitions beyond that are never pulled.
pub open spec fn global_take(pv: Seq<Seq<Seq<i64>>>, l: int) -> Seq<Seq<Seq<i64>>>
    decreases pv.len(),
{
    if l <= 0 || pv.len() == 0 {
        Seq::empty()
    } else {
        seq![capped(pv[0], l)] + global_take(
            pv.drop_first(),
            l - take_count(l, pv[0].len() as int),
        )
    }
}

/// How many upstream partitions the global limit stage pulls.
pub open spec fn global_pulled(pv: Seq<Seq<Seq<i64>>>, l: int) -> int
    decreases pv.len(),
{
    if l <= 0 || pv.len() == 0 {
        0
    } else {
        1 + global_pulled(pv.drop_first(), l - take_count(l, pv[0].len() as int))
    }
}

/// The first `k` rows of a partition, as a fresh partition.
pub fn prefix_partition(p: &Partition, k: usize) -> (out: Partition)
    requires
        k <= p@.len(),
    ensures
        out@ == p@.take(k as int),
{
    let mut rows: Vec<Vec<i64>> = Vec::new();
    let mut i: usize = 0;
    while i < k
        invariant
            i <= k,
            k <= p.rows@.len(),
            rows@.len() == i,
            forall|j: int| 0 <= j < i ==> rows@[j]@ == p.rows@[j]@,
        decreases k - i,
    {
        rows.push(clone_row(&p.rows[i]));
        i = i + 1;
    }
    let out = Partition { rows };
    proof {
        assert(out@ =~= p@.take(k as int));
    }
    out
}

/// Cap every partition at `limit` rows.  This is the cheap first phase of a
/// two-phase limit; it changes neither partition count nor row order.
pub fn local_limit(parts: &Vec<Partition>, limit: usize) -> (out: Vec<Partition>)
    ensures
        parts_view(out@) == local_limit_spec(parts_view(parts@), limit as int),
{
    let mut out: Vec<Partition> = Vec::new();
    let mut j: usize = 0;
    while j < parts.len()
        invariant
            j <= parts.len(),
            out@.len() == j,
            forall|i: int| 0 <= i < j ==> out@[i]@ == capped(parts@[i]@, limit as int),
        decreases parts.len() - j,
    {
        let p = &parts[j];
        let t: usize = if p.rows.len() <= limit {
            p.rows.len()
        } else {
            limit
        };
        out.push(prefix_partition(p, t));
        proof {
            if p@.len() <= limit as int {
                assert(p@.take(p@.len() as int) =~= p@);
            }
        }
        j = j + 1;
    }
    proof {
        assert(parts_view(out@) =~= local_limit_spec(parts_view(parts@), limit as int));
    }
    out
}

/// The second phase of a two-phase limit: pull upstream partitions in order,
/// cap each at the remaining row budget, and stop pulling once the budget is
/// exhausted.  Returns the partitions yielded and how many upstream
/// partitions were pulled.
pub fn global_limit(parts: &Vec<Partition>, limit: usize) -> (r: (Vec<Partition>, usize))
    ensures
        parts_view(r.0@) == global_take(parts_view(parts@), limit as int),
        r.1 == global_pulled(parts_view(parts@), limit as int),
        r.0@.len() == r.1,
{
    let ghost full: Seq<Seq<Seq<i64>>> = parts_view(parts@);
    let mut out: Vec<Partition> = Vec::new();
    let mut i: usize = 0;
    let mut rem: usize = limit;
    proof {
        assert(full.skip(0) =~= full);
    }
    while i < parts.len() && rem > 0
        invariant
            i <= parts.len(),
            out@.len() == i,
            full == parts_view(parts@),
            global_take(full, limit as int) == parts_view(out@) + global_take(
                full.skip(i as int),
                rem as int,
            ),
            global_pulled(full, limit as int) == i + global_pulled(
                full.skip(i as int),
                rem as int,
            ),
        decreases parts.len() - i,
    {
        let p = &parts[i];
        let t: usize = if p.rows.len() <= rem {
            p.rows.len()
        } else {
            rem
        };
        let piece = prefix_partition(p, t);
        proof {
            let tail = full.skip(i as int);
            assert(tail[0] == full[i as int]);
            assert(tail.drop_first() =~= full.skip(i + 1 as int));
            assert(piece@ == capped(full[i as int], rem as int));
            assert(global_take(tail, rem as int) == seq![capped(tail[0], rem as int)]
                + global_take(tail.drop_first(), rem as int - take_count(
                rem as int,
                tail[0].len() as int,
            )));
            assert(parts_view(out@.push(piece)) =~= parts_view(out@) + seq![piece@]);
            assert((parts_view(out@) + seq![piece@]) + global_take(
                full.skip(i + 1 as int),
                rem as int - t,
            ) =~= parts_view(out@) + (seq![piece@] + global_take(
                full.skip(i + 1 as int),
                rem as int - t,
            )));
        }
        out.push(piece);
        rem = rem - t;
        i = i + 1;
    }
    proof {
        if i >= parts.len() {
            assert(full.skip(parts@.len() as int).len() == 0);
        }
        assert(global_take(full.skip(i as int), rem as int) =~= Seq::<Seq<Seq<i64>>>::empty());
        assert(parts_view(out@) + Seq::<Seq<Seq<i64>>>::empty() =~= parts_view(out@));
    }
    (out, i)
}

} // verus!
