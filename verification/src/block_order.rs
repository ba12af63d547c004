//! The order in which a payload holds its extension blocks.

use vstd::prelude::*;
use crate::blocks::{BlockKind, BlockView, ExtMetadataBlock};
use crate::stable_sort::{
    is_sorted, stable_sort, total_preorder, lemma_sort_step, lemma_stable_sort_idempotent,
    lemma_stable_sort_properties,
};

verus! {

/// What blocks are ordered by: the level, and among level 2 blocks the peak
/// of the target display.
pub open spec fn sort_key(block: BlockView) -> (int, int) {
    (
        block.level as int,
        if block.kind == BlockKind::Level2 && block.fields.len() > 0 {
            block.fields[0] as int
        } else {
            0
        },
    )
}

/// Whether a block with key `a` may stand in front of one with key `b`.
pub open spec fn key_le(a: (int, int), b: (int, int)) -> bool {
    a.0 < b.0 || (a.0 == b.0 && a.1 <= b.1)
}

/// Whether `a` may stand in front of `b`.
pub open spec fn block_le() -> spec_fn(BlockView, BlockView) -> bool {
    |a: BlockView, b: BlockView| key_le(sort_key(a), sort_key(b))
}

/// Whether each block may stand in front of those behind it.
pub open spec fn blocks_sorted(blocks: Seq<BlockView>) -> bool {
    is_sorted(blocks, block_le())
}

/// The blocks in the order of their levels, level 2 blocks in the order
/// of their target displays; blocks that are equal in this keep the order
/// they had.
pub open spec fn sorted_blocks(blocks: Seq<BlockView>) -> Seq<BlockView> {
    stable_sort(blocks, block_le())
}

/// Any two blocks are compared, and three are ordered as each two are.
pub proof fn lemma_block_le_total_preorder()
    ensures
        total_preorder(block_le()),
{
    let le = block_le();
    assert forall|a: BlockView, b: BlockView| #[trigger] le(a, b) || le(b, a) by {}
    assert forall|a: BlockView, b: BlockView, c: BlockView| #[trigger]
        le(a, b) && #[trigger] le(b, c) implies le(a, c) by {}
}

/// The blocks in order are ordered, they are the same blocks, and sorting
/// them again changes nothing.
pub proof fn lemma_sorted_blocks_properties(blocks: Seq<BlockView>)
    ensures
        blocks_sorted(sorted_blocks(blocks)),
        sorted_blocks(blocks).to_multiset() == blocks.to_multiset(),
        sorted_blocks(blocks).len() == blocks.len(),
        sorted_blocks(sorted_blocks(blocks)) == sorted_blocks(blocks),
{
    lemma_block_le_total_preorder();
    lemma_stable_sort_properties(blocks, block_le());
    lemma_stable_sort_idempotent(blocks, block_le());
}

/// The views of `blocks`.
pub open spec fn block_views(blocks: Seq<ExtMetadataBlock>) -> Seq<BlockView> {
    blocks.map_values(|b: ExtMetadataBlock| b@)
}

fn may_precede(block: &ExtMetadataBlock, key: (u8, u16)) -> (r: bool)
    ensures
        r == key_le(sort_key(block@), (key.0 as int, key.1 as int)),
{
    let other = key_of(block);
    other.0 < key.0 || (other.0 == key.0 && other.1 <= key.1)
}

fn key_of(block: &ExtMetadataBlock) -> (key: (u8, u16))
    ensures
        sort_key(block@) == (key.0 as int, key.1 as int),
{
    let level = block.level();
    match block {
        ExtMetadataBlock::Level2(b) => (level, b.target_max_pq),
        _ => (level, 0),
    }
}

/// Puts the blocks in order; blocks with the same key keep the order they had.
pub fn sort_blocks(blocks: &mut Vec<ExtMetadataBlock>)
    ensures
        block_views(final(blocks)@) == sorted_blocks(block_views(old(blocks)@)),
        final(blocks)@.len() == old(blocks)@.len(),
{
    let n = blocks.len();
    let mut i: usize = 0;
    let ghost unsorted = block_views(old(blocks)@);
    assert(block_views(blocks@).take(0) =~= sorted_blocks(unsorted.take(0)));
    while i < n
        invariant
            i <= n,
            n == blocks@.len(),
            unsorted == block_views(old(blocks)@),
            n == unsorted.len(),
            block_views(blocks@).take(i as int) == sorted_blocks(unsorted.take(i as int)),
            block_views(blocks@).skip(i as int) == unsorted.skip(i as int),
        decreases n - i,
    {
        let ghost before = block_views(blocks@);
        let block = blocks.remove(i);
        let key = key_of(&block);
        assert(block_views(blocks@) =~= before.remove(i as int));
        assert(block@ == before[i as int]);
        let mut at: usize = i;
        while at > 0 && !may_precede(&blocks[at - 1], key)
            invariant
                at <= i,
                i < n,
                blocks@.len() == n - 1,
                before.len() == n,
                sort_key(block@) == (key.0 as int, key.1 as int),
                block@ == before[i as int],
                block_views(blocks@) == before.remove(i as int),
                forall|k: int| at <= k < i ==> !block_le()(#[trigger] before[k], before[i as int]),
            decreases at,
        {
            proof {
                assert(before.remove(i as int)[at - 1] == before[at - 1]);
                assert(before[at - 1] == blocks@[at - 1]@);
            }
            at -= 1;
        }
        proof {
            if at > 0 {
                assert(before.remove(i as int)[at - 1] == before[at - 1]);
                assert(before[at - 1] == blocks@[at - 1]@);
            }
            lemma_sort_step(unsorted, before, block_le(), i as int, at as int);
        }
        blocks.insert(at, block);
        assert(block_views(blocks@) =~= before.remove(i as int).insert(at as int, before[i as int]));
        i += 1;
    }
    assert(block_views(blocks@).take(n as int) =~= block_views(blocks@));
    assert(unsorted.take(n as int) =~= unsorted);
}

} // verus!
