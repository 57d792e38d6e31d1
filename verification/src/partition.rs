use vstd::prelude::*;

verus! {

/// An immutable chunk of row data: the unit of parallel work.
///
/// Rows are modelled as vectors of 64-bit column values; the concrete
/// columnar storage format belongs to a collaborating layer.  A partition is
/// never mutated in place: every operator builds fresh partitions.
#[derive(Debug)]
pub struct Partition {
    pub rows: Vec<Vec<i64>>,
}

impl View for Partition {
    type V = Seq<Seq<i64>>;

    open spec fn view(&self) -> Seq<Seq<i64>> {
        self.rows@.map_values(|r: Vec<i64>| r@)
    }
}

/// The abstract contents of a list of partitions: a sequence of partitions,
/// each a sequence of rows, each a sequence of column values.
pub open spec fn parts_view(ps: Seq<Partition>) -> Seq<Seq<Seq<i64>>> {
    ps.map_values(|p: Partition| p@)
}

/// The number of rows across all partitions of a partition list.
pub open spec fn total_rows(pv: Seq<Seq<Seq<i64>>>) -> nat {
    pv.flatten().len()
}

impl Partition {
    pub fn new(rows: Vec<Vec<i64>>) -> (p: Partition)
        ensures
            p@ == rows@.map_values(|r: Vec<i64>| r@),
    {
        Partition { rows }
    }

    /// The number of rows held by this partition.
    pub fn num_rows(&self) -> (n: usize)
        ensures
            n == self@.len(),
    {
        self.rows.len()
    }

    /// An independent partition with the same contents.
    pub fn duplicate(&self) -> (p: Partition)
        ensures
            p@ == self@,
    {
        let p = Partition { rows: clone_rows(&self.rows) };
        proof {
            assert(p@ =~= self@);
        }
        p
    }
}

pub fn clone_row(r: &Vec<i64>) -> (out: Vec<i64>)
    ensures
        out@ == r@,
{
    let mut out: Vec<i64> = Vec::new();
    let mut i: usize = 0;
    while i < r.len()
        invariant
            i <= r.len(),
            out@ == r@.take(i as int),
        decreases r.len() - i,
    {
        out.push(r[i]);
        proof {
            assert(r@.take(i as int).push(r@[i as int]) =~= r@.take(i + 1 as int));
        }
        i = i + 1;
    }
    proof {
        assert(r@.take(r@.len() as int) =~= r@);
    }
    out
}

pub fn clone_rows(rows: &Vec<Vec<i64>>) -> (out: Vec<Vec<i64>>)
    ensures
        out@.map_values(|r: Vec<i64>| r@) == rows@.map_values(|r: Vec<i64>| r@),
{
    let mut out: Vec<Vec<i64>> = Vec::new();
    let mut i: usize = 0;
    while i < rows.len()
        invariant
            i <= rows.len(),
            out@.len() == i,
            forall|j: int| 0 <= j < i ==> out@[j]@ == rows@[j]@,
        decreases rows.len() - i,
    {
        out.push(clone_row(&rows[i]));
        i = i + 1;
    }
    proof {
        assert(out@.map_values(|r: Vec<i64>| r@) =~= rows@.map_values(|r: Vec<i64>| r@));
    }
    out
}

/// An independent copy of a list of partitions, with the same contents.
pub fn clone_partitions(ps: &Vec<Partition>) -> (out: Vec<Partition>)
    ensures
        parts_view(out@) == parts_view(ps@),
{
    let mut out: Vec<Partition> = Vec::new();
    let mut i: usize = 0;
    while i < ps.len()
        invariant
            i <= ps.len(),
            out@.len() == i,
            forall|j: int| 0 <= j < i ==> out@[j]@ == ps@[j]@,
        decreases ps.len() - i,
    {
        out.push(ps[i].duplicate());
        i = i + 1;
    }
    proof {
        assert(parts_view(out@) =~= parts_view(ps@));
    }
    out
}

/// One entry of the partition cache: a key and the partitions staged for it.
#[derive(Debug)]
pub struct CacheEntry {
    pub key: String,
    pub parts: Vec<Partition>,
}

/// The process-wide mapping from cache keys to staged in-memory partitions.
///
/// It is populated by the collaborator that stages in-memory data before
/// compilation and is read-only to the compiler.  Lookup returns the first
/// entry whose key matches.
#[derive(Debug)]
pub struct PartitionCache {
    pub entries: Vec<CacheEntry>,
}

/// The contents staged for key `k`: the first matching entry's partitions.
pub open spec fn cache_lookup(entries: Seq<CacheEntry>, k: Seq<char>) -> Option<
    Seq<Seq<Seq<i64>>>,
>
    decreases entries.len(),
{
    if entries.len() == 0 {
        None
    } else if entries[0].key@ == k {
        Some(parts_view(entries[0].parts@))
    } else {
        cache_lookup(entries.drop_first(), k)
    }
}

impl PartitionCache {
    pub fn new() -> (c: PartitionCache)
        ensures
            c.entries@.len() == 0,
    {
        PartitionCache { entries: Vec::new() }
    }

    /// Stage `parts` under `key`.  An existing entry with the same key stays
    /// in front and keeps priority at lookup.
    pub fn insert(&mut self, key: String, parts: Vec<Partition>)
        ensures
            final(self).entries@ == old(self).entries@.push(CacheEntry { key, parts }),
    {
        self.entries.push(CacheEntry { key, parts });
    }

    /// Find the partitions staged under `key`.
    pub fn lookup(&self, key: &String) -> (r: Option<&Vec<Partition>>)
        ensures
            match r {
                Some(v) => cache_lookup(self.entries@, key@) == Some(parts_view(v@)),
                None => cache_lookup(self.entries@, key@) is None,
            },
    {
        proof {
            assert(self.entries@.skip(0) =~= self.entries@);
        }
        let mut i: usize = 0;
        while i < self.entries.len()
            invariant
                i <= self.entries.len(),
                cache_lookup(self.entries@, key@) == cache_lookup(
                    self.entries@.skip(i as int),
                    key@,
                ),
            decreases self.entries.len() - i,
        {
            proof {
                assert(self.entries@.skip(i as int)[0] == self.entries@[i as int]);
            }
            if self.entries[i].key == *key {
                return Some(&self.entries[i].parts);
            }
            proof {
                assert(self.entries@.skip(i as int).drop_first() =~= self.entries@.skip(
                    i + 1 as int,
                ));
            }
            i = i + 1;
        }
        proof {
            assert(self.entries@.skip(self.entries@.len() as int).len() == 0);
        }
        None
    }
}

/// A bounded cursor over an owned list of partitions: the adapter through
/// which an execution engine pulls the results of an in-memory scan.
#[derive(Debug)]
pub struct PartitionIterator {
    pub parts: Vec<Partition>,
    pub index: usize,
}

impl PartitionIterator {
    pub fn new(parts: Vec<Partition>) -> (it: PartitionIterator)
        ensures
            parts_view(it.parts@) == parts_view(parts@),
            it.index == 0,
    {
        PartitionIterator { parts, index: 0 }
    }

    /// Pull the next partition, or `None` once the cursor is exhausted.
    pub fn next(&mut self) -> (r: Option<Partition>)
        ensures
            old(self).index < old(self).parts@.len() ==> {
                &&& r matches Some(p) && p@ == old(self).parts@[old(self).index as int]@
                &&& final(self).index == old(self).index + 1
            },
            old(self).index >= old(self).parts@.len() ==> {
                &&& r is None
                &&& final(self).index == old(self).index
            },
            final(self).parts@ == old(self).parts@,
    {
        if self.index < self.parts.len() {
            let p = self.parts[self.index].duplicate();
            self.index = self.index + 1;
            Some(p)
        } else {
            None
        }
    }
}

} // verus!
