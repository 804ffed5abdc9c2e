//! What holds of the neighbour table and of the candidates it reports, for
//! every particle array.

use vstd::prelude::*;
use crate::neighbor_search::{
    has_hash, sorted_by_hash, spec_block_bucket, spec_bucket, spec_candidates, spec_first_visit,
    spec_indices, spec_initial_entries, spec_table, NeighborSearch,
};
use crate::primes::{is_next_prime, lemma_next_prime_unique};
use crate::spatial_hash::{
    adjacent, lemma_adjacent_in_block, lemma_block_is_symmetric, lemma_cell_hash_bounds,
    spec_block_cell, spec_block_position, spec_cell_hash, Cell, Entry, BLOCK_CELLS,
};

verus! {

/// Entries stand in strictly ascending order of particle index.
pub open spec fn ascending_indices(s: Seq<Entry>) -> bool {
    forall|i: int, j: int| 0 <= i < j < s.len() ==> s[i].index < s[j].index
}

/// Before sorting, entry `i` carries particle `i` and the bucket of its cell.
pub proof fn lemma_initial_entry(cells: Seq<Cell>, table_size: usize, i: int)
    requires
        table_size > 0,
        cells.len() <= u32::MAX,
        0 <= i < cells.len(),
    ensures
        spec_initial_entries(cells, table_size)[i].index == i,
        spec_initial_entries(cells, table_size)[i].hash == spec_cell_hash(cells[i], table_size),
        spec_cell_hash(cells[i], table_size) < table_size,
{
    lemma_cell_hash_bounds(cells[i], table_size);
}

/// Filtering keeps a strictly ascending order of particle indices.
proof fn lemma_filter_ascending(s: Seq<Entry>, pred: spec_fn(Entry) -> bool)
    requires
        ascending_indices(s),
    ensures
        ascending_indices(s.filter(pred)),
    decreases s.len(),
{
    reveal(Seq::filter);
    if s.len() > 0 {
        let t = s.drop_last();
        let last = s.last();
        assert(forall|i: int| 0 <= i < t.len() ==> t[i] == s[i]);
        lemma_filter_ascending(t, pred);
        if pred(last) {
            let f = t.filter(pred);
            assert forall|i: int, j: int| 0 <= i < j < f.push(last).len() implies f.push(last)[i].index
                < f.push(last)[j].index by {
                if j == f.len() {
                    assert(f.contains(f[i]));
                    t.lemma_filter_contains_rev(pred, f[i]);
                    let m = choose|m: int| 0 <= m < t.len() && t[m] == f[i];
                    assert(s[m].index < s[s.len() - 1].index);
                }
            }
        }
    }
}

/// Every particle stands in the bucket of its cell.
pub proof fn lemma_bucket_holds_particle(cells: Seq<Cell>, table_size: usize, i: int)
    requires
        table_size > 0,
        cells.len() <= u32::MAX,
        0 <= i < cells.len(),
    ensures
        spec_indices(
            spec_bucket(cells, table_size, spec_cell_hash(cells[i], table_size) as int),
        ).contains(i as u32),
{
    let initial = spec_initial_entries(cells, table_size);
    let b = spec_cell_hash(cells[i], table_size) as int;
    lemma_initial_entry(cells, table_size, i);
    assert(has_hash(b)(initial[i]));
    initial.lemma_filter_contains(has_hash(b), i);
    let bucket = spec_bucket(cells, table_size, b);
    let m = choose|m: int| 0 <= m < bucket.len() && bucket[m] == initial[i];
    assert(spec_indices(bucket)[m] == i as u32);
}

/// Every entry of bucket `b` is a particle of the array whose cell hashes to
/// `b`.
pub proof fn lemma_bucket_entry(cells: Seq<Cell>, table_size: usize, b: int, m: int)
    requires
        table_size > 0,
        cells.len() <= u32::MAX,
        0 <= m < spec_bucket(cells, table_size, b).len(),
    ensures
        spec_bucket(cells, table_size, b)[m].index < cells.len(),
        spec_bucket(cells, table_size, b)[m].hash == b,
        spec_cell_hash(cells[spec_bucket(cells, table_size, b)[m].index as int], table_size) == b,
{
    let initial = spec_initial_entries(cells, table_size);
    let bucket = spec_bucket(cells, table_size, b);
    let e = bucket[m];
    initial.lemma_filter_pred(has_hash(b), m);
    assert(bucket.contains(e));
    initial.lemma_filter_contains_rev(has_hash(b), e);
    let i = choose|i: int| 0 <= i < initial.len() && initial[i] == e;
    lemma_initial_entry(cells, table_size, i);
}

/// Within a bucket the particles stand in strictly ascending index order, so
/// none occurs twice.
pub proof fn lemma_bucket_ascending(cells: Seq<Cell>, table_size: usize, b: int)
    requires
        table_size > 0,
        cells.len() <= u32::MAX,
    ensures
        ascending_indices(spec_bucket(cells, table_size, b)),
{
    let initial = spec_initial_entries(cells, table_size);
    assert forall|i: int, j: int| 0 <= i < j < initial.len() implies initial[i].index
        < initial[j].index by {
        lemma_initial_entry(cells, table_size, i);
        lemma_initial_entry(cells, table_size, j);
    }
    lemma_filter_ascending(initial, has_hash(b));
}

/// What the bucket of an earlier block cell holds is among the candidates
/// gathered from the first `k` cells.
proof fn lemma_candidates_include(
    table: Seq<Seq<Entry>>,
    table_size: usize,
    c: Cell,
    k: int,
    j: int,
    x: u32,
)
    requires
        0 <= j < k,
        spec_indices(table[spec_block_bucket(c, table_size, j)]).contains(x),
    ensures
        spec_candidates(table, table_size, c, k).contains(x),
    decreases k,
{
    let rest = spec_candidates(table, table_size, c, k - 1);
    let run = spec_indices(table[spec_block_bucket(c, table_size, k - 1)]);
    let first = spec_first_visit(c, table_size, k - 1);
    if j < k - 1 {
        lemma_candidates_include(table, table_size, c, k - 1, j, x);
    } else if !first {
        let earlier = choose|e: int|
            0 <= e < k - 1 && #[trigger] spec_block_bucket(c, table_size, e) == spec_block_bucket(
                c,
                table_size,
                k - 1,
            );
        lemma_candidates_include(table, table_size, c, k - 1, earlier, x);
    }
    if rest.contains(x) {
        let m = choose|m: int| 0 <= m < rest.len() && rest[m] == x;
        if first {
            assert((rest + run)[m] == x);
        }
    } else {
        let m = choose|m: int| 0 <= m < run.len() && run[m] == x;
        assert((rest + run)[rest.len() + m] == x);
    }
}

/// Each candidate gathered from the first `k` cells comes from the bucket of
/// one of them.
proof fn lemma_candidates_origin(
    table: Seq<Seq<Entry>>,
    table_size: usize,
    c: Cell,
    k: int,
    x: u32,
) -> (j: int)
    requires
        spec_candidates(table, table_size, c, k).contains(x),
    ensures
        0 <= j < k,
        spec_indices(table[spec_block_bucket(c, table_size, j)]).contains(x),
    decreases k,
{
    let all = spec_candidates(table, table_size, c, k);
    if k <= 0 {
        assert(all.len() == 0);
        0
    } else {
        let rest = spec_candidates(table, table_size, c, k - 1);
        let run = spec_indices(table[spec_block_bucket(c, table_size, k - 1)]);
        let m = choose|m: int| 0 <= m < all.len() && all[m] == x;
        if spec_first_visit(c, table_size, k - 1) && m >= rest.len() {
            assert(run[m - rest.len()] == x);
            k - 1
        } else {
            assert(rest[m] == x);
            lemma_candidates_origin(table, table_size, c, k - 1, x)
        }
    }
}

/// The candidates gathered from the first `k` cells hold no particle twice.
proof fn lemma_candidates_distinct_upto(cells: Seq<Cell>, table_size: usize, c: Cell, k: int)
    requires
        table_size > 0,
        cells.len() <= u32::MAX,
        0 <= k <= BLOCK_CELLS,
    ensures
        spec_candidates(spec_table(cells, table_size), table_size, c, k).no_duplicates(),
    decreases k,
{
    let table = spec_table(cells, table_size);
    if k > 0 {
        lemma_candidates_distinct_upto(cells, table_size, c, k - 1);
        let rest = spec_candidates(table, table_size, c, k - 1);
        let b = spec_block_bucket(c, table_size, k - 1);
        lemma_block_bucket_bounds(c, table_size, k - 1);
        let bucket = spec_bucket(cells, table_size, b);
        let run = spec_indices(bucket);
        assert(table[b] == bucket);
        if spec_first_visit(c, table_size, k - 1) {
            lemma_bucket_ascending(cells, table_size, b);
            let all = rest + run;
            assert forall|i: int, j: int| 0 <= i < j < all.len() implies all[i] != all[j] by {
                if j >= rest.len() && i < rest.len() {
                    let x = all[i];
                    if x == all[j] {
                        assert(rest.contains(x));
                        let e = lemma_candidates_origin(table, table_size, c, k - 1, x);
                        let other = spec_block_bucket(c, table_size, e);
                        lemma_block_bucket_bounds(c, table_size, e);
                        assert(table[other] == spec_bucket(cells, table_size, other));
                        let m1 = choose|m: int|
                            0 <= m < spec_indices(table[other]).len() && spec_indices(
                                table[other],
                            )[m] == x;
                        lemma_bucket_entry(cells, table_size, other, m1);
                        lemma_bucket_entry(cells, table_size, b, j - rest.len());
                        assert(other == b);
                    }
                } else if i >= rest.len() {
                    assert(bucket[i - rest.len()].index < bucket[j - rest.len()].index);
                }
            }
        }
    }
}

/// The bucket of a block cell is a bucket of the table.
pub proof fn lemma_block_bucket_bounds(c: Cell, table_size: usize, k: int)
    requires
        table_size > 0,
    ensures
        0 <= spec_block_bucket(c, table_size, k) < table_size,
{
    lemma_cell_hash_bounds(spec_block_cell(c, k), table_size);
}

/// No particle is missed: a particle whose cell shares its bucket with a cell
/// of the block around `c`, and so every particle whose cell lies in the
/// block, is among the candidates reported for `c`.
pub proof fn lemma_candidates_complete(
    cells: Seq<Cell>,
    table_size: usize,
    c: Cell,
    k: int,
    i: int,
)
    requires
        table_size > 0,
        cells.len() <= u32::MAX,
        0 <= k < BLOCK_CELLS,
        0 <= i < cells.len(),
        spec_cell_hash(cells[i], table_size) == spec_block_bucket(c, table_size, k),
    ensures
        spec_candidates(
            spec_table(cells, table_size),
            table_size,
            c,
            BLOCK_CELLS as int,
        ).contains(i as u32),
{
    let table = spec_table(cells, table_size);
    let b = spec_block_bucket(c, table_size, k);
    lemma_block_bucket_bounds(c, table_size, k);
    lemma_bucket_holds_particle(cells, table_size, i);
    assert(table[b] == spec_bucket(cells, table_size, b));
    lemma_candidates_include(table, table_size, c, BLOCK_CELLS as int, k, i as u32);
}

/// Every particle in a cell adjacent to `c`, or in `c` itself, is among the
/// candidates reported for `c`.
pub proof fn lemma_candidates_hold_adjacent(cells: Seq<Cell>, table_size: usize, c: Cell, i: int)
    requires
        table_size > 0,
        cells.len() <= u32::MAX,
        0 <= i < cells.len(),
        adjacent(c, cells[i]),
    ensures
        spec_candidates(
            spec_table(cells, table_size),
            table_size,
            c,
            BLOCK_CELLS as int,
        ).contains(i as u32),
{
    lemma_adjacent_in_block(c, cells[i]);
    lemma_candidates_complete(cells, table_size, c, spec_block_position(c, cells[i]), i);
}

/// Neighbourhood is mutual: where the cell of particle `j` lies in the block
/// around the cell of particle `i`, each of the two is among the candidates of
/// the other, so a pairwise term is seen from both sides.
pub proof fn lemma_candidates_mutual(cells: Seq<Cell>, table_size: usize, i: int, j: int, k: int)
    requires
        table_size > 0,
        cells.len() <= u32::MAX,
        0 <= i < cells.len(),
        0 <= j < cells.len(),
        0 <= k < BLOCK_CELLS,
        cells[j] == spec_block_cell(cells[i], k),
    ensures
        spec_candidates(
            spec_table(cells, table_size),
            table_size,
            cells[i],
            BLOCK_CELLS as int,
        ).contains(j as u32),
        spec_candidates(
            spec_table(cells, table_size),
            table_size,
            cells[j],
            BLOCK_CELLS as int,
        ).contains(i as u32),
{
    lemma_candidates_complete(cells, table_size, cells[i], k, j);
    lemma_block_is_symmetric(cells[i], k);
    lemma_candidates_complete(cells, table_size, cells[j], 26 - k, i);
}

/// Nothing foreign is reported: each candidate for `c` is a particle of the
/// array, and its cell shares its bucket with a cell of the block around `c`.
pub proof fn lemma_candidates_sound(cells: Seq<Cell>, table_size: usize, c: Cell, x: u32)
    requires
        table_size > 0,
        cells.len() <= u32::MAX,
        spec_candidates(
            spec_table(cells, table_size),
            table_size,
            c,
            BLOCK_CELLS as int,
        ).contains(x),
    ensures
        x < cells.len(),
        exists|k: int|
            0 <= k < BLOCK_CELLS && spec_cell_hash(cells[x as int], table_size)
                == #[trigger] spec_block_bucket(c, table_size, k),
{
    let table = spec_table(cells, table_size);
    let k = lemma_candidates_origin(table, table_size, c, BLOCK_CELLS as int, x);
    let b = spec_block_bucket(c, table_size, k);
    lemma_block_bucket_bounds(c, table_size, k);
    assert(table[b] == spec_bucket(cells, table_size, b));
    let m = choose|m: int| 0 <= m < spec_indices(table[b]).len() && spec_indices(table[b])[m] == x;
    lemma_bucket_entry(cells, table_size, b, m);
}

/// No particle is reported twice for one query.
pub proof fn lemma_candidates_distinct(cells: Seq<Cell>, table_size: usize, c: Cell)
    requires
        table_size > 0,
        cells.len() <= u32::MAX,
    ensures
        spec_candidates(
            spec_table(cells, table_size),
            table_size,
            c,
            BLOCK_CELLS as int,
        ).no_duplicates(),
{
    lemma_candidates_distinct_upto(cells, table_size, c, BLOCK_CELLS as int);
}

/// The last entry of a sorted sequence has the greatest bucket of both
/// sequences, where the two have the same buckets.
proof fn lemma_last_bucket_bound(s: Seq<Entry>, t: Seq<Entry>)
    requires
        s.len() > 0,
        t.len() > 0,
        sorted_by_hash(s),
        forall|b: int| #[trigger] s.filter(has_hash(b)) == t.filter(has_hash(b)),
    ensures
        t.last().hash <= s.last().hash,
{
    let b = t.last().hash as int;
    t.lemma_filter_contains(has_hash(b), t.len() - 1);
    s.lemma_filter_contains_rev(has_hash(b), t.last());
    let i = choose|i: int| 0 <= i < s.len() && s[i] == t.last();
    if i < s.len() - 1 {
        assert(s[i].hash <= s[s.len() - 1].hash);
    }
}

/// A sequence sorted by bucket is determined by its buckets: two such
/// sequences that agree on every bucket are equal.
pub proof fn lemma_sorted_entries_unique(s: Seq<Entry>, t: Seq<Entry>)
    requires
        sorted_by_hash(s),
        sorted_by_hash(t),
        forall|b: int| #[trigger] s.filter(has_hash(b)) == t.filter(has_hash(b)),
    ensures
        s == t,
    decreases s.len(),
{
    reveal(Seq::filter);
    if s.len() == 0 {
        if t.len() > 0 {
            let b = t[0].hash as int;
            t.lemma_filter_contains(has_hash(b), 0);
            assert(s.filter(has_hash(b)).len() == 0);
        }
        assert(s =~= t);
    } else {
        if t.len() == 0 {
            let b = s[0].hash as int;
            s.lemma_filter_contains(has_hash(b), 0);
            assert(t.filter(has_hash(b)).len() == 0);
        }
        lemma_last_bucket_bound(s, t);
        lemma_last_bucket_bound(t, s);
        let h = s.last().hash as int;
        let s0 = s.drop_last();
        let t0 = t.drop_last();
        assert(has_hash(h)(s.last()) && has_hash(h)(t.last()));
        assert(s.filter(has_hash(h)) == s0.filter(has_hash(h)).push(s.last()));
        assert(t.filter(has_hash(h)) == t0.filter(has_hash(h)).push(t.last()));
        assert(s.filter(has_hash(h)) == t.filter(has_hash(h)));
        let joint = s.filter(has_hash(h));
        assert(joint.last() == s.last() && joint.last() == t.last());
        assert(s0.filter(has_hash(h)) =~= joint.drop_last());
        assert(t0.filter(has_hash(h)) =~= joint.drop_last());
        assert forall|b: int| #[trigger] s0.filter(has_hash(b)) == t0.filter(has_hash(b)) by {
            if b != h {
                assert(!has_hash(b)(s.last()) && !has_hash(b)(t.last()));
                assert(s.filter(has_hash(b)) == t.filter(has_hash(b)));
            }
        }
        assert(sorted_by_hash(s0)) by {
            assert forall|i: int, j: int| 0 <= i < j < s0.len() implies s0[i].hash <= s0[j].hash by {
                assert(s[i].hash <= s[j].hash);
            }
        }
        assert(sorted_by_hash(t0)) by {
            assert forall|i: int, j: int| 0 <= i < j < t0.len() implies t0[i].hash <= t0[j].hash by {
                assert(t[i].hash <= t[j].hash);
            }
        }
        lemma_sorted_entries_unique(s0, t0);
        assert(s =~= s0.push(s.last()));
        assert(t =~= t0.push(t.last()));
    }
}

/// Rebuilding on unchanged cells changes nothing: two tables built from the
/// same cells have the same number of buckets, the same bucket contents and
/// the same sorted entries.
pub proof fn lemma_rebuild_is_idempotent(
    first: &NeighborSearch,
    second: &NeighborSearch,
    cells: Seq<Cell>,
)
    requires
        first.wf(),
        second.wf(),
        is_next_prime(2 * (cells.len() as int), first.spec_table_size() as int),
        is_next_prime(2 * (cells.len() as int), second.spec_table_size() as int),
        first@ == spec_table(cells, first.spec_table_size()),
        second@ == spec_table(cells, second.spec_table_size()),
    ensures
        first.spec_table_size() == second.spec_table_size(),
        first@ == second@,
        first.spec_entries() == second.spec_entries(),
{
    lemma_next_prime_unique(
        2 * (cells.len() as int),
        first.spec_table_size() as int,
        second.spec_table_size() as int,
    );
    first.lemma_view();
    second.lemma_view();
    let s = first.spec_entries();
    let t = second.spec_entries();
    let size = first.spec_table_size();
    assert forall|b: int| #[trigger] s.filter(has_hash(b)) == t.filter(has_hash(b)) by {
        if 0 <= b < size {
            assert(first@[b] == second@[b]);
        } else {
            lemma_filter_of_absent_bucket(s, b);
            lemma_filter_of_absent_bucket(t, b);
        }
    }
    lemma_sorted_entries_unique(s, t);
}

/// Filtering by a bucket that no entry has gives the empty sequence.
proof fn lemma_filter_of_absent_bucket(s: Seq<Entry>, b: int)
    requires
        forall|j: int| 0 <= j < s.len() ==> (#[trigger] s[j]).hash as int != b,
    ensures
        s.filter(has_hash(b)) == Seq::<Entry>::empty(),
{
    let f = s.filter(has_hash(b));
    if f.len() > 0 {
        s.lemma_filter_pred(has_hash(b), 0);
        assert(f.contains(f[0]));
        s.lemma_filter_contains_rev(has_hash(b), f[0]);
        let i = choose|i: int| 0 <= i < s.len() && s[i] == f[0];
        assert(s[i].hash as int != b);
    }
    assert(f =~= Seq::<Entry>::empty());
}

} // verus!
