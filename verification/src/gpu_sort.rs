//! The passes of a bitonic sort on the compute queue, and the number of work
//! groups that a dispatch needs.

use vstd::prelude::*;

verus! {

/// The threads of one work group.
pub const GROUP_SIZE: u32 = 256;

/// The constants of one pass of the sort.
#[derive(Clone, Copy, Debug, PartialEq, Eq, Structural)]
pub struct SortConstants {
    pub num_entries: u32,
    pub block_height: u32,
    pub block_step: u32,
}

/// `n` is a power of two.
pub open spec fn is_power_of_two(n: int) -> bool
    decreases n,
{
    n == 1 || (n > 1 && n % 2 == 0 && is_power_of_two(n / 2))
}

/// The passes of one block height `h`, from step `step` down: the step is
/// halved from pass to pass until it is used up.
pub open spec fn spec_steps(n: u32, h: u32, step: int) -> Seq<SortConstants>
    decreases step,
{
    if step <= 0 {
        Seq::empty()
    } else {
        seq![SortConstants { num_entries: n, block_height: h, block_step: step as u32 }]
            + spec_steps(n, h, step / 2)
    }
}

/// The passes from block height `h` on: the height is doubled from block to
/// block until it passes `n`, and each block starts at half its height.
pub open spec fn spec_heights(n: u32, h: int) -> Seq<SortConstants>
    decreases n - h,
{
    if 2 <= h <= n {
        let higher = if 2 * h <= n {
            spec_heights(n, 2 * h)
        } else {
            Seq::empty()
        };
        spec_steps(n, h as u32, h / 2) + higher
    } else {
        Seq::empty()
    }
}

/// All passes of a sort of `n` entries.
pub open spec fn spec_sort_passes(n: u32) -> Seq<SortConstants> {
    spec_heights(n, 2)
}

/// The number of work groups for `threads` threads: `threads / 256`, rounded
/// up.
pub fn dispatch_count(threads: u32) -> (groups: u32)
    ensures
        groups == (threads + GROUP_SIZE - 1) / (GROUP_SIZE as int),
{
    if threads % GROUP_SIZE == 0 {
        threads / GROUP_SIZE
    } else {
        threads / GROUP_SIZE + 1
    }
}

/// Between a power of two and the next there is no other: of two powers of
/// two the greater is at least twice the lesser.
pub proof fn lemma_powers_of_two_gap(a: int, b: int)
    requires
        is_power_of_two(a),
        is_power_of_two(b),
        a < b,
    ensures
        2 * a <= b,
    decreases b,
{
    if a > 1 {
        lemma_powers_of_two_gap(a / 2, b / 2);
    }
}

/// The length of the sort buffer for `count` particles: the least power of
/// two that is at least `count`.
pub fn sort_buffer_len(count: u32) -> (len: u32)
    requires
        count <= 0x8000_0000,
    ensures
        is_power_of_two(len as int),
        len >= count,
        len == 1 || len / 2 < count,
{
    let mut len: u32 = 1;
    while len < count
        invariant
            count <= 0x8000_0000,
            1 <= len <= 0x8000_0000,
            is_power_of_two(len as int),
            len == 1 || len / 2 < count,
        decreases 0x8000_0000 - len,
    {
        proof {
            assert(is_power_of_two(0x8000_0000)) by {
                reveal_with_fuel(is_power_of_two, 32);
            }
            lemma_powers_of_two_gap(len as int, 0x8000_0000);
            assert((2 * (len as int)) / 2 == len as int);
            assert(is_power_of_two(2 * (len as int)));
        }
        len = len * 2;
    }
    len
}

/// Lists the passes of a bitonic sort of `num_entries` entries, in the order
/// in which they are dispatched.
pub fn sort_passes(num_entries: u32) -> (passes: Vec<SortConstants>)
    requires
        is_power_of_two(num_entries as int),
    ensures
        passes@ == spec_sort_passes(num_entries),
{
    let mut passes: Vec<SortConstants> = Vec::new();
    let mut h: u64 = 2;
    while h <= num_entries as u64
        invariant
            2 <= h <= 2 * (num_entries as int) || num_entries < 2,
            h >= 2,
            h <= 2 * (u32::MAX as int),
            passes@ + spec_heights(num_entries, h as int) == spec_sort_passes(num_entries),
        decreases 2 * (num_entries as int) + 2 - h,
    {
        let ghost done = passes@;
        let mut step: u32 = (h / 2) as u32;
        while step > 0
            invariant
                2 <= h <= num_entries,
                passes@ + spec_steps(num_entries, h as u32, step as int) == done + spec_steps(
                    num_entries,
                    h as u32,
                    h as int / 2,
                ),
            decreases step,
        {
            let ghost before = passes@;
            passes.push(
                SortConstants { num_entries, block_height: h as u32, block_step: step },
            );
            proof {
                let rest = spec_steps(num_entries, h as u32, step as int / 2);
                let head = seq![
                    SortConstants { num_entries, block_height: h as u32, block_step: step },
                ];
                assert(passes@ =~= before + head);
                assert((before + head) + rest =~= before + (head + rest));
            }
            step = step / 2;
        }
        proof {
            let block = spec_steps(num_entries, h as u32, h as int / 2);
            let tail = spec_heights(num_entries, 2 * (h as int));
            assert(spec_steps(num_entries, h as u32, 0) =~= Seq::<SortConstants>::empty());
            assert(passes@ =~= done + block);
            assert((done + block) + tail =~= done + (block + tail));
        }
        h = h * 2;
    }
    proof {
        assert(spec_heights(num_entries, h as int) =~= Seq::<SortConstants>::empty());
        assert(passes@ =~= passes@ + Seq::<SortConstants>::empty());
    }
    passes
}

} // verus!
