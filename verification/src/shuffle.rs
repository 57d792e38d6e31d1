use vstd::prelude::*;

use crate::partition::{clone_row, parts_view, Partition};

verus! {

/// Balanced chunking of `n` items into `k` chunks: chunk `j` holds
/// `n / k` items, plus one more for the first `n % k` chunks.
pub open spec fn chunk_size(n: int, k: int, j: int) -> int {
    n / k + if j < n % k {
        1int
    } else {
        0int
    }
}

/// Where chunk `j` starts: the sum of the sizes of the chunks before it.
pub open spec fn chunk_start(n: int, k: int, j: int) -> int
    decreases j,
{
    if j <= 0 {
        0
    } else {
        chunk_start(n, k, j - 1) + chunk_size(n, k, j - 1)
    }
}

/// Closed form of `chunk_start`.
pub proof fn lemma_chunk_start_closed(n: int, k: int, j: int)
    requires
        k >= 1,
        n >= 0,
        0 <= j,
    ensures
        chunk_start(n, k, j) == j * (n / k) + if j <= n % k {
            j
        } else {
            n % k
        },
    decreases j,
{
    vstd::arithmetic::div_mod::lemma_div_pos_is_pos(n, k);
    vstd::arithmetic::div_mod::lemma_mod_bound(n, k);
    if j > 0 {
        lemma_chunk_start_closed(n, k, j - 1);
        assert(j * (n / k) == (j - 1) * (n / k) + n / k) by (nonlinear_arith);
        if j - 1 < n % k {
            assert(chunk_size(n, k, j - 1) == n / k + 1);
        } else {
            assert(chunk_size(n, k, j - 1) == n / k);
        }
    } else {
        assert(j * (n / k) == 0) by (nonlinear_arith)
            requires
                j == 0,
        ;
    }
}

/// All `k` chunks together cover exactly the `n` items.
pub proof fn lemma_chunk_start_total(n: int, k: int)
    requires
        k >= 1,
        n >= 0,
    ensures
        chunk_start(n, k, k) == n,
{
    lemma_chunk_start_closed(n, k, k);
    vstd::arithmetic::div_mod::lemma_fundamental_div_mod(n, k);
    vstd::arithmetic::div_mod::lemma_mod_bound(n, k);
    assert(k * (n / k) == (n / k) * k) by (nonlinear_arith);
}

/// Chunk boundaries are monotone and stay within the `n` items.
pub proof fn lemma_chunk_start_bounds(n: int, k: int, j: int)
    requires
        k >= 1,
        n >= 0,
        0 <= j <= k,
    ensures
        0 <= chunk_start(n, k, j),
        chunk_start(n, k, j) + chunk_size(n, k, j) <= n || j == k,
        chunk_size(n, k, j) >= 0 || j == k,
    decreases k - j,
{
    vstd::arithmetic::div_mod::lemma_div_pos_is_pos(n, k);
    vstd::arithmetic::div_mod::lemma_mod_bound(n, k);
    lemma_chunk_start_closed(n, k, j);
    if j < k {
        lemma_chunk_start_closed(n, k, j + 1);
        lemma_chunk_start_total(n, k);
        lemma_chunk_start_closed(n, k, k);
        assert(j * (n / k) >= 0) by (nonlinear_arith)
            requires
                j >= 0,
                n / k >= 0,
        ;
        assert((j + 1) * (n / k) <= k * (n / k)) by (nonlinear_arith)
            requires
                j + 1 <= k,
                n / k >= 0,
        ;
    } else {
        assert(j * (n / k) >= 0) by (nonlinear_arith)
            requires
                j >= 0,
                n / k >= 0,
        ;
    }
}

/// Append copies of all rows of `p` to `rows`.
pub fn append_rows(rows: &mut Vec<Vec<i64>>, p: &Partition)
    ensures
        final(rows)@.map_values(|r: Vec<i64>| r@) == old(rows)@.map_values(|r: Vec<i64>| r@)
            + p@,
{
    let ghost before: Seq<Seq<i64>> = old(rows)@.map_values(|r: Vec<i64>| r@);
    let ghost blen: int = old(rows)@.len() as int;
    let mut i: usize = 0;
    while i < p.rows.len()
        invariant
            i <= p.rows.len(),
            rows@.len() == blen + i,
            0 <= blen,
            blen == before.len(),
            forall|k: int| 0 <= k < blen ==> rows@[k]@ == before[k],
            forall|k: int| 0 <= k < i ==> rows@[blen + k]@ == p.rows@[k]@,
        decreases p.rows.len() - i,
    {
        rows.push(clone_row(&p.rows[i]));
        i = i + 1;
    }
    proof {
        assert(rows@.map_values(|r: Vec<i64>| r@) =~= before + p@);
    }
}

/// All rows of a partition list, in partition order then row order.
pub fn flatten_parts(parts: &Vec<Partition>) -> (rows: Vec<Vec<i64>>)
    ensures
        rows@.map_values(|r: Vec<i64>| r@) == parts_view(parts@).flatten(),
{
    let ghost pv: Seq<Seq<Seq<i64>>> = parts_view(parts@);
    let mut rows: Vec<Vec<i64>> = Vec::new();
    proof {
        assert(pv.take(0) =~= Seq::<Seq<Seq<i64>>>::empty());
        assert(rows@.map_values(|r: Vec<i64>| r@) =~= pv.take(0).flatten());
    }
    let mut j: usize = 0;
    while j < parts.len()
        invariant
            j <= parts.len(),
            pv == parts_view(parts@),
            rows@.map_values(|r: Vec<i64>| r@) == pv.take(j as int).flatten(),
        decreases parts.len() - j,
    {
        append_rows(&mut rows, &parts[j]);
        proof {
            assert(pv.take(j + 1 as int).drop_last() =~= pv.take(j as int));
            assert(pv.take(j + 1 as int).last() == pv[j as int]);
            pv.take(j + 1 as int).lemma_flatten_and_flatten_alt_are_equivalent();
            pv.take(j as int).lemma_flatten_and_flatten_alt_are_equivalent();
            assert(pv.take(j + 1 as int).flatten_alt() == pv.take(
                j + 1 as int,
            ).drop_last().flatten_alt().add(pv.take(j + 1 as int).last()));
        }
        j = j + 1;
    }
    proof {
        assert(pv.take(pv.len() as int) =~= pv);
    }
    rows
}

/// What a split yields: the flattened rows of the input, redistributed as
/// `to` contiguous, balanced chunks, preserving relative row order.
pub open spec fn split_spec(pv: Seq<Seq<Seq<i64>>>, to: int) -> Seq<Seq<Seq<i64>>> {
    let rows = pv.flatten();
    let n = rows.len() as int;
    Seq::new(
        to as nat,
        |j: int| rows.subrange(chunk_start(n, to, j), chunk_start(n, to, j) + chunk_size(n, to, j)),
    )
}

/// Repartition a known source partitioning into exactly `to` partitions,
/// preserving the total row count and the relative row order: the flattened
/// input rows are dealt out as contiguous balanced ranges.
pub fn split(parts: &Vec<Partition>, to: usize) -> (out: Vec<Partition>)
    requires
        to >= 1,
    ensures
        parts_view(out@) == split_spec(parts_view(parts@), to as int),
        out@.len() == to,
{
    let rows = flatten_parts(parts);
    let ghost flat: Seq<Seq<i64>> = parts_view(parts@).flatten();
    let ghost n: int = flat.len() as int;
    let total: usize = rows.len();
    let base: usize = total / to;
    let rem: usize = total % to;
    let mut out: Vec<Partition> = Vec::new();
    let mut pos: usize = 0;
    let mut j: usize = 0;
    while j < to
        invariant
            j <= to,
            to >= 1,
            out@.len() == j,
            total == n,
            n == flat.len(),
            flat == parts_view(parts@).flatten(),
            rows@.map_values(|r: Vec<i64>| r@) == flat,
            total == rows@.len(),
            base == n / to as int,
            rem == n % to as int,
            pos == chunk_start(n, to as int, j as int),
            forall|jj: int|
                0 <= jj < j ==> out@[jj]@ == flat.subrange(
                    chunk_start(n, to as int, jj),
                    chunk_start(n, to as int, jj) + chunk_size(n, to as int, jj),
                ),
        decreases to - j,
    {
        proof {
            lemma_chunk_start_bounds(n, to as int, j as int);
            assert(chunk_size(n, to as int, j as int) <= n);
        }
        let size: usize = if j < rem {
            base + 1
        } else {
            base
        };
        proof {
            assert(size as int == chunk_size(n, to as int, j as int));
            assert(pos + size <= n);
        }
        let mut chunk: Vec<Vec<i64>> = Vec::new();
        let mut i: usize = 0;
        while i < size
            invariant
                i <= size,
                pos + size <= total,
                total == rows@.len(),
                rows@.map_values(|r: Vec<i64>| r@) == flat,
                chunk@.len() == i,
                forall|ii: int| 0 <= ii < i ==> chunk@[ii]@ == flat[pos + ii],
            decreases size - i,
        {
            chunk.push(clone_row(&rows[pos + i]));
            i = i + 1;
        }
        let piece = Partition { rows: chunk };
        proof {
            assert(piece@ =~= flat.subrange(pos as int, pos as int + size as int));
        }
        out.push(piece);
        pos = pos + size;
        j = j + 1;
    }
    proof {
        assert(parts_view(out@) =~= split_spec(parts_view(parts@), to as int));
    }
    out
}

/// What a coalesce yields: the input partitions are grouped into `to`
/// contiguous balanced groups, and each group's rows are concatenated into
/// one output partition.
pub open spec fn coalesce_spec(pv: Seq<Seq<Seq<i64>>>, to: int) -> Seq<Seq<Seq<i64>>> {
    let f = pv.len() as int;
    Seq::new(
        to as nat,
        |j: int|
            pv.subrange(
                chunk_start(f, to, j),
                chunk_start(f, to, j) + chunk_size(f, to, j),
            ).flatten(),
    )
}

/// Change the partition count to exactly `to` by concatenating contiguous
/// groups of input partitions.  The total row count and the relative row
/// order are preserved.  Widening (`to` greater than the input count) yields
/// trailing empty partitions.
pub fn coalesce(parts: &Vec<Partition>, to: usize) -> (out: Vec<Partition>)
    requires
        to >= 1,
    ensures
        parts_view(out@) == coalesce_spec(parts_view(parts@), to as int),
        out@.len() == to,
{
    let ghost pv: Seq<Seq<Seq<i64>>> = parts_view(parts@);
    let ghost f: int = pv.len() as int;
    let from: usize = parts.len();
    let base: usize = from / to;
    let rem: usize = from % to;
    let mut out: Vec<Partition> = Vec::new();
    let mut pos: usize = 0;
    let mut j: usize = 0;
    while j < to
        invariant
            j <= to,
            to >= 1,
            out@.len() == j,
            from == f,
            f == pv.len(),
            pv == parts_view(parts@),
            from == parts@.len(),
            base == f / to as int,
            rem == f % to as int,
            pos == chunk_start(f, to as int, j as int),
            forall|jj: int|
                0 <= jj < j ==> out@[jj]@ == pv.subrange(
                    chunk_start(f, to as int, jj),
                    chunk_start(f, to as int, jj) + chunk_size(f, to as int, jj),
                ).flatten(),
        decreases to - j,
    {
        proof {
            lemma_chunk_start_bounds(f, to as int, j as int);
        }
        let size: usize = if j < rem {
            base + 1
        } else {
            base
        };
        proof {
            assert(size as int == chunk_size(f, to as int, j as int));
            assert(pos + size <= f);
        }
        let mut rows: Vec<Vec<i64>> = Vec::new();
        let ghost group: Seq<Seq<Seq<i64>>> = pv.subrange(pos as int, pos as int + size as int);
        proof {
            assert(group.take(0) =~= Seq::<Seq<Seq<i64>>>::empty());
            assert(rows@.map_values(|r: Vec<i64>| r@) =~= group.take(0).flatten());
        }
        let mut g: usize = 0;
        while g < size
            invariant
                g <= size,
                pos + size <= from,
                from == parts@.len(),
                pv == parts_view(parts@),
                group == pv.subrange(pos as int, pos as int + size as int),
                rows@.map_values(|r: Vec<i64>| r@) == group.take(g as int).flatten(),
            decreases size - g,
        {
            append_rows(&mut rows, &parts[pos + g]);
            proof {
                assert(parts@[pos + g as int]@ == pv[pos + g as int]);
                assert(group.take(g + 1 as int).drop_last() =~= group.take(g as int));
                assert(group.take(g + 1 as int).last() == group[g as int]);
                assert(group[g as int] == pv[pos + g as int]);
                group.take(g + 1 as int).lemma_flatten_and_flatten_alt_are_equivalent();
                group.take(g as int).lemma_flatten_and_flatten_alt_are_equivalent();
                assert(group.take(g + 1 as int).flatten_alt() == group.take(
                    g + 1 as int,
                ).drop_last().flatten_alt().add(group.take(g + 1 as int).last()));
            }
            g = g + 1;
        }
        let piece = Partition { rows };
        proof {
            assert(group.take(group.len() as int) =~= group);
            assert(piece@ == group.flatten());
        }
        out.push(piece);
        pos = pos + size;
        j = j + 1;
    }
    proof {
        assert(parts_view(out@) =~= coalesce_spec(parts_view(parts@), to as int));
    }
    out
}

} // verus!
