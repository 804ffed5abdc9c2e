//! Uniform-grid spatial hash: particles are bucketed by the hash of their grid
//! cell, and a query walks the 3x3x3 block of cells around a point.

use rayon::slice::ParallelSliceMut;
use vstd::prelude::*;
use crate::primes::{is_next_prime, is_prime, next_prime};
use crate::spatial_hash::{
    block_cell, cell_hash, spec_block_cell, spec_cell_hash, Cell, Entry, BLOCK_CELLS,
};

verus! {

/// The predicate "this entry lies in bucket `b`".
pub open spec fn has_hash(b: int) -> spec_fn(Entry) -> bool {
    |e: Entry| e.hash as int == b
}

/// Entries are in ascending order of bucket.
pub open spec fn sorted_by_hash(s: Seq<Entry>) -> bool {
    forall|i: int, j: int| 0 <= i < j < s.len() ==> s[i].hash <= s[j].hash
}

/// The entries of a particle array before sorting: particle `i` paired with
/// the bucket of its cell, in index order.
pub open spec fn spec_initial_entries(cells: Seq<Cell>, table_size: usize) -> Seq<Entry> {
    Seq::new(
        cells.len(),
        |i: int| Entry { hash: spec_cell_hash(cells[i], table_size) as u32, index: i as u32 },
    )
}

/// What bucket `b` of the table holds for the given cells: the entries of the
/// particles whose cell hashes to `b`, in ascending index order.
pub open spec fn spec_bucket(cells: Seq<Cell>, table_size: usize, b: int) -> Seq<Entry> {
    spec_initial_entries(cells, table_size).filter(has_hash(b))
}

/// The whole table for the given cells, bucket by bucket.
pub open spec fn spec_table(cells: Seq<Cell>, table_size: usize) -> Seq<Seq<Entry>> {
    Seq::new(table_size as nat, |b: int| spec_bucket(cells, table_size, b))
}

/// The bucket of the `k`-th cell of the block around `c`.
pub open spec fn spec_block_bucket(c: Cell, table_size: usize, k: int) -> int {
    spec_cell_hash(spec_block_cell(c, k), table_size) as int
}

/// None of the block cells before the `k`-th shares its bucket.
pub open spec fn spec_first_visit(c: Cell, table_size: usize, k: int) -> bool {
    forall|j: int| 0 <= j < k ==> #[trigger] spec_block_bucket(c, table_size, j) != spec_block_bucket(
        c,
        table_size,
        k,
    )
}

/// The particle indices of a run of entries, in order.
pub open spec fn spec_indices(run: Seq<Entry>) -> Seq<u32> {
    Seq::new(run.len(), |i: int| run[i].index)
}

/// The candidates gathered from the first `k` cells of the block around `c`:
/// the buckets of those cells one after another, a bucket that several of the
/// cells share being taken once, at the first of them.
pub open spec fn spec_candidates(table: Seq<Seq<Entry>>, table_size: usize, c: Cell, k: int) -> Seq<
    u32,
>
    decreases k,
{
    if k <= 0 {
        Seq::empty()
    } else {
        let rest = spec_candidates(table, table_size, c, k - 1);
        if spec_first_visit(c, table_size, k - 1) {
            rest + spec_indices(table[spec_block_bucket(c, table_size, k - 1)])
        } else {
            rest
        }
    }
}

/// The predicate "this index is not `own`".
pub open spec fn is_other(own: u32) -> spec_fn(u32) -> bool {
    |j: u32| j != own
}

/// Stable parallel sort of the entries by bucket, done by rayon's
/// `par_sort_by_key` with the `hash` field as key. Trusted: the result is in
/// ascending bucket order, and for every bucket the entries of that bucket are
/// the same, in the same relative order, as before the call.
#[verifier::external_body]
fn sort_by_hash(entries: &mut Vec<Entry>)
    ensures
        final(entries)@.len() == old(entries)@.len(),
        sorted_by_hash(final(entries)@),
        forall|b: int| #[trigger]
            final(entries)@.filter(has_hash(b)) == old(entries)@.filter(has_hash(b)),
{
    entries.par_sort_by_key(|e| e.hash);
}

/// Pairs every particle with the bucket of its cell.
fn hash_cells(cells: &[Cell], table_size: usize) -> (entries: Vec<Entry>)
    requires
        table_size > 0,
        cells@.len() <= u32::MAX,
    ensures
        entries@ == spec_initial_entries(cells@, table_size),
        forall|j: int| 0 <= j < entries@.len() ==> (#[trigger] entries@[j]).hash < table_size,
{
    let n: usize = cells.len();
    let mut entries: Vec<Entry> = Vec::with_capacity(n);
    let mut i: usize = 0;
    while i < n
        invariant
            n == cells@.len(),
            n <= u32::MAX,
            table_size > 0,
            i <= n,
            entries@ == spec_initial_entries(cells@, table_size).take(i as int),
            forall|j: int| 0 <= j < i ==> (#[trigger] entries@[j]).hash < table_size,
        decreases n - i,
    {
        let bucket: usize = cell_hash(cells[i], table_size);
        entries.push(Entry { hash: bucket as u32, index: i as u32 });
        assert(entries@ =~= spec_initial_entries(cells@, table_size).take(i + 1));
        i = i + 1;
    }
    assert(entries@ =~= spec_initial_entries(cells@, table_size));
    entries
}

/// A stable sort by bucket keeps the entries: each entry of the sorted
/// sequence is an entry of the sequence before sorting.
proof fn lemma_sorted_entry_is_initial(sorted: Seq<Entry>, initial: Seq<Entry>, j: int)
    requires
        0 <= j < sorted.len(),
        forall|b: int| #[trigger] sorted.filter(has_hash(b)) == initial.filter(has_hash(b)),
    ensures
        initial.contains(sorted[j]),
{
    let b = sorted[j].hash as int;
    sorted.lemma_filter_contains(has_hash(b), j);
    initial.lemma_filter_contains_rev(has_hash(b), sorted[j]);
}

/// Computes the bucket of the `k`-th cell of the block around `c`.
fn block_bucket(c: Cell, table_size: usize, k: usize) -> (b: usize)
    requires
        table_size > 0,
        k < BLOCK_CELLS,
    ensures
        b as int == spec_block_bucket(c, table_size, k as int),
        b < table_size,
{
    cell_hash(block_cell(c, k), table_size)
}

/// Tells whether `b` is among the buckets visited so far.
fn already_visited(visited: &Vec<usize>, b: usize) -> (found: bool)
    ensures
        found == exists|j: int| 0 <= j < visited@.len() && visited@[j] == b,
{
    let mut j: usize = 0;
    while j < visited.len()
        invariant
            j <= visited@.len(),
            forall|i: int| 0 <= i < j ==> visited@[i] != b,
        decreases visited@.len() - j,
    {
        if visited[j] == b {
            return true;
        }
        j = j + 1;
    }
    false
}

/// Where the entries of bucket `b` are exactly those at positions `lo..hi`,
/// filtering by the bucket yields that run.
proof fn lemma_filter_is_run(s: Seq<Entry>, b: int, lo: int, hi: int)
    requires
        0 <= lo <= hi <= s.len(),
        forall|j: int| 0 <= j < s.len() ==> ((#[trigger] s[j]).hash as int == b <==> lo <= j < hi),
    ensures
        s.filter(has_hash(b)) == s.subrange(lo, hi),
    decreases s.len(),
{
    reveal(Seq::filter);
    if s.len() == 0 {
        assert(s.filter(has_hash(b)) =~= s.subrange(lo, hi));
    } else {
        let t = s.drop_last();
        let last = s.last();
        assert(forall|j: int| 0 <= j < t.len() ==> t[j] == s[j]);
        if lo == hi {
            lemma_filter_is_run(t, b, 0, 0);
            assert(last == s[s.len() - 1]);
            assert(!has_hash(b)(last));
            assert(s.subrange(lo, hi) =~= t.subrange(0, 0));
        } else if hi == s.len() {
            lemma_filter_is_run(t, b, lo, hi - 1);
            assert(last == s[s.len() - 1]);
            assert(has_hash(b)(last));
            assert(s.subrange(lo, hi) =~= t.subrange(lo, hi - 1).push(last));
        } else {
            lemma_filter_is_run(t, b, lo, hi);
            assert(last == s[s.len() - 1]);
            assert(!has_hash(b)(last));
            assert(s.subrange(lo, hi) =~= t.subrange(lo, hi));
        }
    }
}

/// The first `k` entries are split into runs: for every bucket `b`, the
/// entries of bucket `b` among them are those at `start[b]..start[b] + count[b]`.
pub open spec fn runs_cover(entries: Seq<Entry>, start: Seq<u32>, count: Seq<u32>, k: int) -> bool {
    &&& start.len() == count.len()
    &&& forall|b: int| 0 <= b < start.len() ==> (#[trigger] start[b]) + count[b] <= k
    &&& forall|b: int, j: int|
        0 <= b < start.len() && 0 <= j < k ==> ((#[trigger] entries[j]).hash as int == b <==> (
        #[trigger] start[b]) <= j < start[b] + count[b])
}

/// Uniform-grid spatial hash over a particle array.
///
/// The table has one bucket per hash value. Bucket `b` is a contiguous run of
/// the entries, which are kept sorted by bucket; within a bucket the particles
/// stand in ascending index order.
pub struct NeighborSearch {
    table_size: usize,
    entries: Vec<Entry>,
    cell_start: Vec<u32>,
    cell_count: Vec<u32>,
}

impl View for NeighborSearch {
    type V = Seq<Seq<Entry>>;

    /// The table, bucket by bucket.
    closed spec fn view(&self) -> Seq<Seq<Entry>> {
        Seq::new(
            self.table_size as nat,
            |b: int|
                self.entries@.subrange(
                    self.cell_start@[b] as int,
                    self.cell_start@[b] + self.cell_count@[b],
                ),
        )
    }
}

impl NeighborSearch {
    /// The number of buckets.
    pub closed spec fn spec_table_size(&self) -> usize {
        self.table_size
    }

    /// All entries, sorted by bucket.
    pub closed spec fn spec_entries(&self) -> Seq<Entry> {
        self.entries@
    }

    /// The structure is consistent: one start and one count per bucket, the
    /// entries sorted by bucket, and the runs covering all of them.
    pub closed spec fn wf(&self) -> bool {
        &&& self.table_size > 0
        &&& self.cell_start@.len() == self.table_size
        &&& self.cell_count@.len() == self.table_size
        &&& self.entries@.len() <= u32::MAX
        &&& sorted_by_hash(self.entries@)
        &&& forall|j: int|
            0 <= j < self.entries@.len() ==> (#[trigger] self.entries@[j]).hash < self.table_size
        &&& runs_cover(self.entries@, self.cell_start@, self.cell_count@, self.entries@.len() as int)
    }

    /// A well-formed table has as many buckets as its table size, and its
    /// buckets are what filtering the entries by bucket gives.
    pub proof fn lemma_view(&self)
        requires
            self.wf(),
        ensures
            self@.len() == self.spec_table_size(),
            self.spec_table_size() > 0,
            self.spec_entries().len() <= u32::MAX,
            sorted_by_hash(self.spec_entries()),
            forall|j: int|
                0 <= j < self.spec_entries().len() ==> (#[trigger] self.spec_entries()[j]).hash
                    < self.spec_table_size(),
            forall|b: int|
                0 <= b < self@.len() ==> #[trigger] self@[b] == self.spec_entries().filter(
                    has_hash(b),
                ),
    {
        assert forall|b: int| 0 <= b < self@.len() implies #[trigger] self@[b]
            == self.spec_entries().filter(has_hash(b)) by {
            let lo = self.cell_start@[b] as int;
            let hi = self.cell_start@[b] + self.cell_count@[b];
            lemma_filter_is_run(self.entries@, b, lo, hi);
        }
    }

    /// A table built from `cells` holds every particle once: each entry is a
    /// particle of the array with the bucket of its cell, no particle stands
    /// at two positions, and every particle stands at some position.
    pub proof fn lemma_entries_permute(&self, cells: Seq<Cell>)
        requires
            self.wf(),
            cells.len() <= u32::MAX,
            self@ == spec_table(cells, self.spec_table_size()),
        ensures
            forall|p: int|
                0 <= p < self.spec_entries().len() ==> {
                    &&& (#[trigger] self.spec_entries()[p]).index < cells.len()
                    &&& self.spec_entries()[p].hash == spec_cell_hash(
                        cells[self.spec_entries()[p].index as int],
                        self.spec_table_size(),
                    )
                },
            forall|p: int, q: int|
                0 <= p < q < self.spec_entries().len() ==> self.spec_entries()[p].index
                    != self.spec_entries()[q].index,
            forall|x: u32|
                x < cells.len() ==> #[trigger] spec_indices(self.spec_entries()).contains(x),
    {
        let ts = self.table_size;
        let entries = self.entries@;
        assert forall|p: int| 0 <= p < entries.len() implies {
            &&& (#[trigger] entries[p]).index < cells.len()
            &&& entries[p].hash == spec_cell_hash(cells[entries[p].index as int], ts)
        } by {
            self.lemma_entry_in_bucket(cells, p);
        }
        assert forall|p: int, q: int| 0 <= p < q < entries.len() implies entries[p].index
            != entries[q].index by {
            self.lemma_entry_in_bucket(cells, p);
            self.lemma_entry_in_bucket(cells, q);
            if entries[p].index == entries[q].index {
                let h = entries[p].hash as int;
                let start = self.cell_start@[h] as int;
                crate::neighbor_laws::lemma_bucket_ascending(cells, ts, h);
                assert(self@[h][p - start] == entries[p]);
                assert(self@[h][q - start] == entries[q]);
            }
        }
        assert forall|x: u32| x < cells.len() implies #[trigger] spec_indices(entries).contains(
            x,
        ) by {
            let i = x as int;
            let h = spec_cell_hash(cells[i], ts) as int;
            crate::spatial_hash::lemma_cell_hash_bounds(cells[i], ts);
            crate::neighbor_laws::lemma_bucket_holds_particle(cells, ts, i);
            let run = spec_indices(self@[h]);
            let m = choose|m: int| 0 <= m < run.len() && run[m] == x;
            let p = self.cell_start@[h] + m;
            assert(entries[p] == self@[h][m]);
            assert(spec_indices(entries)[p] == x);
        }
    }

    /// The entry at position `p` stands in the run of its bucket, and is a
    /// particle of the array whose cell hashes to that bucket.
    proof fn lemma_entry_in_bucket(&self, cells: Seq<Cell>, p: int)
        requires
            self.wf(),
            cells.len() <= u32::MAX,
            self@ == spec_table(cells, self.spec_table_size()),
            0 <= p < self.entries@.len(),
        ensures
            self.entries@[p].hash < self.table_size,
            self.cell_start@[self.entries@[p].hash as int] <= p < self.cell_start@[self.entries@[p].hash as int]
                + self.cell_count@[self.entries@[p].hash as int],
            self.entries@[p].index < cells.len(),
            self.entries@[p].hash == spec_cell_hash(
                cells[self.entries@[p].index as int],
                self.table_size,
            ),
    {
        let h = self.entries@[p].hash as int;
        let start = self.cell_start@[h] as int;
        assert(self@[h] == spec_bucket(cells, self.table_size, h));
        assert(self@[h][p - start] == self.entries@[p]);
        crate::neighbor_laws::lemma_bucket_entry(cells, self.table_size, h, p - start);
    }

    /// An empty table, as built from no particles.
    pub fn new() -> (ns: Self)
        ensures
            ns.wf(),
            ns.spec_table_size() == 2,
            ns.spec_entries() == Seq::<Entry>::empty(),
            ns@ == spec_table(Seq::<Cell>::empty(), 2),
    {
        let ns = NeighborSearch {
            table_size: 2,
            entries: Vec::new(),
            cell_start: vec![0u32; 2],
            cell_count: vec![0u32; 2],
        };
        proof {
            reveal(Seq::filter);
            assert(spec_initial_entries(Seq::<Cell>::empty(), 2) =~= Seq::<Entry>::empty());
            assert forall|b: int| 0 <= b < 2 implies #[trigger] ns@[b] =~= spec_bucket(
                Seq::<Cell>::empty(),
                2,
                b,
            ) by {}
            assert(ns@ =~= spec_table(Seq::<Cell>::empty(), 2));
        }
        ns
    }

    /// The number of buckets.
    pub fn table_size(&self) -> (n: usize)
        ensures
            n == self.spec_table_size(),
    {
        self.table_size
    }

    /// The number of particles in the table.
    pub fn len(&self) -> (n: usize)
        ensures
            n == self.spec_entries().len(),
    {
        self.entries.len()
    }

    /// Where bucket `b` lies in the sorted entries: the position of its first
    /// entry and the number of its entries.
    pub fn bucket_range(&self, b: usize) -> (range: (u32, u32))
        requires
            self.wf(),
            b < self.spec_table_size(),
        ensures
            range.0 + range.1 <= self.spec_entries().len(),
            self@[b as int] == self.spec_entries().subrange(range.0 as int, range.0 + range.1),
    {
        (self.cell_start[b], self.cell_count[b])
    }

    /// The entries, sorted by bucket and, within a bucket, by particle index.
    pub fn get_sorted_indices(&self) -> (entries: &Vec<Entry>)
        ensures
            entries@ == self.spec_entries(),
    {
        &self.entries
    }

    /// Appends the particle indices of bucket `b` to `out`.
    fn append_bucket(&self, b: usize, out: &mut Vec<u32>)
        requires
            self.wf(),
            b < self.spec_table_size(),
        ensures
            final(out)@ == old(out)@ + spec_indices(self@[b as int]),
    {
        let start: usize = self.cell_start[b] as usize;
        let count: usize = self.cell_count[b] as usize;
        let ghost run = self@[b as int];
        let mut j: usize = 0;
        while j < count
            invariant
                self.wf(),
                b < self.table_size,
                start == self.cell_start@[b as int],
                count == self.cell_count@[b as int],
                run == self.entries@.subrange(start as int, start + count),
                j <= count,
                out@ == old(out)@ + spec_indices(run).take(j as int),
            decreases count - j,
        {
            out.push(self.entries[start + j].index);
            assert(out@ =~= old(out)@ + spec_indices(run).take(j + 1));
            j = j + 1;
        }
        assert(out@ =~= old(out)@ + spec_indices(run));
    }

    /// Gathers the candidate neighbours of a point in cell `cell`: the
    /// particles in the buckets of the 27 cells of the block around it.
    ///
    /// A bucket shared by several cells of the block is reported once, so no
    /// particle index occurs twice. Distinct cells may share a bucket, so a
    /// candidate need not lie in the block: the caller applies the distance
    /// test.
    pub fn neighbor_candidates(&self, cell: Cell) -> (out: Vec<u32>)
        requires
            self.wf(),
        ensures
            out@ == spec_candidates(self@, self.spec_table_size(), cell, BLOCK_CELLS as int),
    {
        let mut out: Vec<u32> = Vec::new();
        let mut visited: Vec<usize> = Vec::with_capacity(BLOCK_CELLS);
        let mut k: usize = 0;
        while k < BLOCK_CELLS
            invariant
                self.wf(),
                k <= BLOCK_CELLS,
                visited@.len() == k,
                forall|j: int|
                    0 <= j < k ==> #[trigger] visited@[j] as int == spec_block_bucket(
                        cell,
                        self.table_size,
                        j,
                    ),
                out@ == spec_candidates(self@, self.table_size, cell, k as int),
            decreases BLOCK_CELLS - k,
        {
            let b: usize = block_bucket(cell, self.table_size, k);
            let seen: bool = already_visited(&visited, b);
            let ghost before = out@;
            if !seen {
                self.append_bucket(b, &mut out);
            }
            proof {
                let ts = self.table_size;
                if seen {
                    let j = choose|j: int| 0 <= j < visited@.len() && visited@[j] == b;
                    assert(visited@[j] as int == spec_block_bucket(cell, ts, j));
                    assert(!spec_first_visit(cell, ts, k as int));
                } else {
                    assert forall|j: int| 0 <= j < k implies #[trigger] spec_block_bucket(
                        cell,
                        ts,
                        j,
                    ) != spec_block_bucket(cell, ts, k as int) by {
                        assert(visited@[j] as int == spec_block_bucket(cell, ts, j));
                    }
                    assert(spec_first_visit(cell, ts, k as int));
                }
                assert(out@ == spec_candidates(self@, ts, cell, k + 1));
            }
            visited.push(b);
            k = k + 1;
        }
        out
    }

    /// Gathers the candidate neighbours of particle `own`, which stands in
    /// cell `cell`: the candidates of the cell without the particle itself.
    pub fn neighbors_of(&self, cell: Cell, own: u32) -> (out: Vec<u32>)
        requires
            self.wf(),
        ensures
            out@ == spec_candidates(
                self@,
                self.spec_table_size(),
                cell,
                BLOCK_CELLS as int,
            ).filter(is_other(own)),
    {
        let all: Vec<u32> = self.neighbor_candidates(cell);
        let mut out: Vec<u32> = Vec::with_capacity(all.len());
        let mut k: usize = 0;
        proof {
            reveal(Seq::filter);
        }
        while k < all.len()
            invariant
                k <= all@.len(),
                out@ == all@.take(k as int).filter(is_other(own)),
            decreases all@.len() - k,
        {
            let j: u32 = all[k];
            proof {
                reveal(Seq::filter);
                assert(all@.take(k + 1).drop_last() =~= all@.take(k as int));
                assert(all@.take(k + 1).last() == j);
            }
            if j != own {
                out.push(j);
            }
            k = k + 1;
        }
        assert(all@.take(k as int) =~= all@);
        out
    }

    /// Rebuilds the table from scratch for the given cells, one per particle.
    ///
    /// The table gets the least prime number of buckets that is at least twice
    /// the particle count. Afterwards bucket `b` holds the particles whose
    /// cell hashes to `b`, in ascending index order.
    pub fn build(&mut self, cells: &[Cell])
        requires
            cells@.len() <= u32::MAX,
            2 * cells@.len() <= usize::MAX,
        ensures
            final(self).wf(),
            final(self).spec_table_size() > 0,
            is_next_prime(2 * (cells@.len() as int), final(self).spec_table_size() as int),
            final(self).spec_entries().len() == cells@.len(),
            final(self)@ == spec_table(cells@, final(self).spec_table_size()),
    {
        let n: usize = cells.len();
        let table_size: usize = next_prime(2 * n);
        proof {
            if table_size == 0 {
                assert(is_prime(2));
            }
        }
        let mut entries: Vec<Entry> = hash_cells(cells, table_size);
        let ghost initial = entries@;
        sort_by_hash(&mut entries);
        proof {
            assert forall|j: int| 0 <= j < n implies (#[trigger] entries@[j]).hash < table_size by {
                lemma_sorted_entry_is_initial(entries@, initial, j);
                let i = choose|i: int| 0 <= i < initial.len() && initial[i] == entries@[j];
                assert(initial[i].hash < table_size);
            }
        }
        let mut cell_start: Vec<u32> = vec![0u32; table_size];
        let mut cell_count: Vec<u32> = vec![0u32; table_size];
        let mut k: usize = 0;
        while k < n
            invariant
                n == entries@.len(),
                n <= u32::MAX,
                k <= n,
                cell_start@.len() == table_size,
                cell_count@.len() == table_size,
                sorted_by_hash(entries@),
                forall|j: int| 0 <= j < n ==> (#[trigger] entries@[j]).hash < table_size,
                runs_cover(entries@, cell_start@, cell_count@, k as int),
            decreases n - k,
        {
            let h: usize = entries[k].hash as usize;
            let seen: u32 = cell_count[h];
            if seen == 0 {
                cell_start.set(h, k as u32);
                cell_count.set(h, 1);
            } else {
                proof {
                    let last = cell_start@[h as int] + seen - 1;
                    assert(entries@[last].hash as int == h);
                    if last + 1 < k {
                        assert(entries@[last].hash <= entries@[last + 1].hash);
                        assert(entries@[last + 1].hash <= entries@[k as int].hash);
                        assert(entries@[last + 1].hash as int == h);
                    }
                    assert(last + 1 == k);
                }
                cell_count.set(h, seen + 1);
            }
            k = k + 1;
        }
        self.table_size = table_size;
        self.entries = entries;
        self.cell_start = cell_start;
        self.cell_count = cell_count;
        proof {
            self.lemma_view();
            assert(self@ =~= spec_table(cells@, table_size));
        }
    }
}

} // verus!
