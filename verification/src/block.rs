//! Filling a block: the header goes to its start, the elements to the offset
//! that the layout gives them. A block is a run of bytes; `B` is the type of
//! one byte of memory, which need not be initialised to be copied.

use crate::layout::{
    element_offset, lemma_parts_are_contiguous, total_size, trailing_offset, LayoutPlan,
};
use vstd::prelude::*;

verus! {

/// What a block holds once it is filled: the header, then whatever stood in
/// the padding before, then the elements.
pub open spec fn filled<B>(
    before: Seq<B>,
    trailing_offset: int,
    header: Seq<B>,
    elements: Seq<B>,
) -> Seq<B> {
    header + before.subrange(header.len() as int, trailing_offset) + elements
}

/// Copies `source` into `block`, starting at `offset`, and leaves the rest of
/// the block as it is.
fn copy_run<B: Copy>(block: &mut [B], offset: usize, source: &[B])
    requires
        offset + source@.len() <= old(block)@.len(),
    ensures
        final(block)@ == old(block)@.subrange(0, offset as int) + source@ + old(block)@.subrange(
            offset + source@.len(),
            old(block)@.len() as int,
        ),
{
    let ghost before = block@;
    let total: usize = block.len();
    let mut done: usize = 0;
    while done < source.len()
        invariant
            done <= source@.len(),
            offset + source@.len() <= total,
            block@.len() == before.len() == total,
            forall|i: int|
                0 <= i < total ==> #[trigger] block@[i] == if offset <= i < offset + done {
                    source@[i - offset]
                } else {
                    before[i]
                },
        decreases source@.len() - done,
    {
        block[offset + done] = source[done];
        done += 1;
    }
}

/// Fills a block as its plan says: the bytes of the header are copied to the
/// start of the block and the bytes of the elements, in their order, to the
/// plan's offset. The padding between the two is left as it is, and nothing
/// but the block is written.
pub fn initialize<B: Copy>(block: &mut [B], plan: &LayoutPlan, header: &[B], elements: &[B])
    requires
        old(block)@.len() == plan.total_size,
        header@.len() <= plan.trailing_offset,
        plan.trailing_offset + elements@.len() == plan.total_size,
    ensures
        final(block)@ == filled(old(block)@, plan.trailing_offset as int, header@, elements@),
{
    copy_run(block, 0, header);
    copy_run(block, plan.trailing_offset, elements);
}

/// A filled block is as long as it was. It holds the header at its start,
/// what it held before in the padding, and each element at the offset that
/// the layout gives it, in the order of the source.
pub proof fn lemma_filled_holds_parts<B>(
    before: Seq<B>,
    header: Seq<B>,
    elements: Seq<B>,
    elem_size: int,
    elem_align: int,
    count: int,
    i: int,
)
    requires
        0 < elem_align,
        0 <= elem_size,
        0 <= i < count,
        elements.len() == elem_size * count,
        before.len() == total_size(header.len() as int, elem_size, elem_align, count),
    ensures
        ({
            let offset = trailing_offset(header.len() as int, elem_align);
            let block = filled(before, offset, header, elements);
            let start = element_offset(header.len() as int, elem_size, elem_align, i);
            &&& block.len() == before.len()
            &&& block.subrange(0, header.len() as int) == header
            &&& block.subrange(header.len() as int, offset) == before.subrange(
                header.len() as int,
                offset,
            )
            &&& block.subrange(start, start + elem_size) == elements.subrange(
                elem_size * i,
                elem_size * i + elem_size,
            )
        }),
{
    lemma_parts_are_contiguous(header.len() as int, elem_size, elem_align, count, i);
    assert(0 <= elem_size * i) by (nonlinear_arith)
        requires
            0 <= elem_size,
            0 <= i,
    ;
    assert(elem_size * (i + 1) == elem_size * i + elem_size) by (nonlinear_arith);
}

} // verus!
