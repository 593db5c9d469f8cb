//! Where the parts of a record lie in its block: the header at the start, the
//! elements behind it at the first offset that suits their alignment.

use vstd::arithmetic::div_mod::{lemma_fundamental_div_mod, lemma_mod_multiples_vanish};
use vstd::arithmetic::power2::is_pow2;
use vstd::layout::valid_layout;
use vstd::prelude::*;

verus! {

/// The least multiple of `align` that is not below `offset`.
pub open spec fn align_up(offset: int, align: int) -> int
    recommends
        0 <= offset,
        0 < align,
{
    if offset % align == 0 {
        offset
    } else {
        offset + align - offset % align
    }
}

/// Offset of the first element: the header's size, padded to the elements'
/// alignment.
pub open spec fn trailing_offset(header_size: int, elem_align: int) -> int {
    align_up(header_size, elem_align)
}

/// Offset of the element with index `i`.
pub open spec fn element_offset(header_size: int, elem_size: int, elem_align: int, i: int) -> int {
    trailing_offset(header_size, elem_align) + elem_size * i
}

/// Size of the block: everything up to the end of the last element.
pub open spec fn total_size(header_size: int, elem_size: int, elem_align: int, count: int) -> int {
    element_offset(header_size, elem_size, elem_align, count)
}

/// Alignment of the block: the stricter of the two alignments.
pub open spec fn total_align(header_align: int, elem_align: int) -> int {
    if header_align >= elem_align {
        header_align
    } else {
        elem_align
    }
}

/// Whether an allocator may be asked for `size` bytes at `align`: the size,
/// rounded up to the alignment, must not exceed `isize::MAX`.
pub open spec fn allocatable(size: int, align: int) -> bool {
    align_up(size, align) <= isize::MAX
}

/// Rounds `offset` up to the next multiple of `align`, if that fits.
pub fn checked_align_up(offset: usize, align: usize) -> (up: Option<usize>)
    requires
        align > 0,
    ensures
        up == if align_up(offset as int, align as int) <= usize::MAX {
            Some(align_up(offset as int, align as int) as usize)
        } else {
            None
        },
{
    let rest: usize = offset % align;
    if rest == 0 {
        Some(offset)
    } else {
        offset.checked_add(align - rest)
    }
}

/// The numbers that place a record in memory.
#[derive(Clone, Copy, Debug, PartialEq, Eq, Structural)]
pub struct LayoutPlan {
    /// Bytes that the block holds.
    pub total_size: usize,
    /// Alignment of the block's first byte.
    pub total_align: usize,
    /// Offset of the first element from the block's first byte.
    pub trailing_offset: usize,
}

impl LayoutPlan {
    /// Whether this is the layout of a header of the given size and alignment
    /// followed by `count` elements of the given size and alignment.
    pub open spec fn describes(
        self,
        header_size: int,
        header_align: int,
        elem_size: int,
        elem_align: int,
        count: int,
    ) -> bool {
        &&& self.trailing_offset == trailing_offset(header_size, elem_align)
        &&& self.total_size == total_size(header_size, elem_size, elem_align, count)
        &&& self.total_align == total_align(header_align, elem_align)
    }

    /// Whether the record takes any space. One that takes none is not put
    /// into a block at all.
    pub fn needs_block(&self) -> (needed: bool)
        ensures
            needed == (self.total_size > 0),
    {
        self.total_size > 0
    }

    /// Plans the block for a header and `count` elements. There is a plan
    /// exactly when an allocator may be asked for the block. An alignment is
    /// at least one.
    pub fn compute(
        header_size: usize,
        header_align: usize,
        elem_size: usize,
        elem_align: usize,
        count: usize,
    ) -> (plan: Option<LayoutPlan>)
        requires
            elem_align > 0,
        ensures
            plan is Some <==> allocatable(
                total_size(header_size as int, elem_size as int, elem_align as int, count as int),
                total_align(header_align as int, elem_align as int),
            ),
            plan matches Some(p) ==> p.describes(
                header_size as int,
                header_align as int,
                elem_size as int,
                elem_align as int,
                count as int,
            ),
            plan matches Some(p) ==> p.trailing_offset % elem_align == 0,
            plan matches Some(p) ==> header_size <= p.trailing_offset < header_size + elem_align,
    {
        let ghost size = total_size(
            header_size as int,
            elem_size as int,
            elem_align as int,
            count as int,
        );
        let ghost align = total_align(header_align as int, elem_align as int);
        proof {
            assert(0 <= elem_size * count) by (nonlinear_arith)
                requires
                    0 <= elem_size,
                    0 <= count,
            ;
            lemma_align_up_is_least(header_size as int, elem_align as int, 0);
            lemma_align_up_within(size, align, isize::MAX as int);
        }
        let trailing: usize = match checked_align_up(header_size, elem_align) {
            Some(offset) => offset,
            None => return None,
        };
        let run: usize = match elem_size.checked_mul(count) {
            Some(bytes) => bytes,
            None => return None,
        };
        let total: usize = match trailing.checked_add(run) {
            Some(bytes) => bytes,
            None => return None,
        };
        let align: usize = if header_align >= elem_align {
            header_align
        } else {
            elem_align
        };
        let limit: usize = isize::MAX as usize;
        if total > limit - limit % align {
            return None;
        }
        Some(LayoutPlan { total_size: total, total_align: align, trailing_offset: trailing })
    }
}

/// `align_up` yields a multiple of `align` that is not below `offset` and
/// less than `align` above it, and it is the least one: every other multiple
/// of `align` that is not below `offset` is at least as large.
pub proof fn lemma_align_up_is_least(offset: int, align: int, other: int)
    requires
        0 <= offset,
        0 < align,
    ensures
        align_up(offset, align) % align == 0,
        offset <= align_up(offset, align) < offset + align,
        offset <= other && other % align == 0 ==> align_up(offset, align) <= other,
{
    let up = align_up(offset, align);
    let q = offset / align;
    let r = offset % align;
    assert(offset == align * q + r && 0 <= r < align) by (nonlinear_arith)
        requires
            0 < align,
            q == offset / align,
            r == offset % align,
    ;
    if r == 0 {
    } else {
        assert(up == align * (q + 1)) by (nonlinear_arith)
            requires
                up == offset + align - r,
                offset == align * q + r,
        ;
        assert((align * (q + 1)) % align == 0) by (nonlinear_arith)
            requires
                0 < align,
        ;
        if offset <= other && other % align == 0 {
            let k = other / align;
            assert(other == align * k) by (nonlinear_arith)
                requires
                    0 < align,
                    k == other / align,
                    other % align == 0,
            ;
            assert(k >= q + 1) by (nonlinear_arith)
                requires
                    0 < align,
                    align * k >= align * q + r,
                    0 < r,
            ;
            assert(align * k >= align * (q + 1)) by (nonlinear_arith)
                requires
                    0 < align,
                    k >= q + 1,
            ;
        }
    }
}

/// Rounding up stays within `limit` exactly when the offset stays within the
/// last multiple of `align` that `limit` reaches.
pub proof fn lemma_align_up_within(offset: int, align: int, limit: int)
    requires
        0 <= offset,
        0 < align,
        0 <= limit,
    ensures
        0 <= limit % align <= limit,
        align_up(offset, align) <= limit <==> offset <= limit - limit % align,
{
    let up = align_up(offset, align);
    let last = limit - limit % align;
    let q = limit / align;
    assert(limit == align * q + limit % align && 0 <= limit % align < align && 0 <= q)
        by (nonlinear_arith)
        requires
            0 < align,
            0 <= limit,
            q == limit / align,
    ;
    assert(0 <= align * q) by (nonlinear_arith)
        requires
            0 < align,
            0 <= q,
    ;
    assert(last % align == 0) by (nonlinear_arith)
        requires
            0 < align,
            last == align * q,
    ;
    lemma_align_up_is_least(offset, align, last);
    if up <= limit {
        let k = up / align;
        assert(up == align * k) by (nonlinear_arith)
            requires
                0 < align,
                k == up / align,
                up % align == 0,
        ;
        assert(align * k <= align * q) by (nonlinear_arith)
            requires
                0 < align,
                align * k <= align * q + limit % align,
                limit % align < align,
        ;
    }
}

/// With a power of two as alignment, a block may be asked for exactly when
/// its size and alignment make a valid layout.
pub proof fn lemma_allocatable_is_valid_layout(size: usize, align: usize)
    requires
        is_pow2(align as int),
    ensures
        allocatable(size as int, align as int) <==> valid_layout(size, align),
{
    reveal(is_pow2);
    lemma_align_up_within(size as int, align as int, isize::MAX as int);
}

/// Of two powers of two the smaller divides the larger.
pub proof fn lemma_pow2_divides(small: int, large: int)
    requires
        is_pow2(small),
        is_pow2(large),
        small <= large,
    ensures
        large % small == 0,
    decreases small,
{
    reveal(is_pow2);
    if small == 1 {
    } else {
        lemma_pow2_divides(small / 2, large / 2);
        let k = (large / 2) / (small / 2);
        assert(large == small * k) by (nonlinear_arith)
            requires
                small % 2 == 0,
                large % 2 == 0,
                0 < small,
                k == (large / 2) / (small / 2),
                (large / 2) % (small / 2) == 0,
        ;
        assert((small * k) % small == 0) by (nonlinear_arith)
            requires
                0 < small,
        ;
    }
}

/// A multiple of `large` is a multiple of every divisor of `large`.
proof fn lemma_multiple_of_multiple(x: int, small: int, large: int)
    requires
        0 < small,
        0 < large,
        large % small == 0,
        x % large == 0,
    ensures
        x % small == 0,
{
    let a = x / large;
    let b = large / small;
    assert(x == small * (b * a)) by (nonlinear_arith)
        requires
            0 < small,
            0 < large,
            a == x / large,
            b == large / small,
            large % small == 0,
            x % large == 0,
    ;
    assert((small * (b * a)) % small == 0) by (nonlinear_arith)
        requires
            0 < small,
    ;
}

/// Adding a multiple of `align` to an offset moves its rounding by as much.
proof fn lemma_align_up_shift(base: int, offset: int, align: int)
    requires
        0 <= base,
        0 <= offset,
        0 < align,
        base % align == 0,
    ensures
        align_up(base + offset, align) == base + align_up(offset, align),
        (base + offset) % align == offset % align,
{
    let k = base / align;
    lemma_fundamental_div_mod(base, align);
    lemma_mod_multiples_vanish(k, offset, align);
}

/// A block that starts at a multiple of its plan's alignment holds the header
/// and every element at multiples of their own alignments: the header at the
/// block's first byte, the first element at the plan's offset, which is where
/// rounding the address behind the header leads, and each further element one
/// element's size behind the one before.
pub proof fn lemma_block_places_fields(
    base: int,
    header_size: int,
    header_align: int,
    elem_size: int,
    elem_align: int,
    i: int,
)
    requires
        0 <= base,
        0 <= header_size,
        0 <= elem_size,
        0 <= i,
        is_pow2(header_align),
        is_pow2(elem_align),
        elem_size % elem_align == 0,
        base % total_align(header_align, elem_align) == 0,
    ensures
        base % header_align == 0,
        trailing_offset(header_size, elem_align) % elem_align == 0,
        align_up(base + header_size, elem_align) == base + trailing_offset(header_size, elem_align),
        (base + element_offset(header_size, elem_size, elem_align, i)) % elem_align == 0,
{
    reveal(is_pow2);
    let align = total_align(header_align, elem_align);
    if header_align >= elem_align {
        lemma_pow2_divides(elem_align, header_align);
        lemma_multiple_of_multiple(base, elem_align, align);
    } else {
        lemma_pow2_divides(header_align, elem_align);
        lemma_multiple_of_multiple(base, header_align, align);
    }
    lemma_align_up_is_least(header_size, elem_align, 0);
    lemma_align_up_shift(base, header_size, elem_align);
    let first = base + trailing_offset(header_size, elem_align);
    lemma_align_up_shift(base, trailing_offset(header_size, elem_align), elem_align);
    let j = first / elem_align;
    let k = elem_size / elem_align;
    lemma_fundamental_div_mod(first, elem_align);
    lemma_fundamental_div_mod(elem_size, elem_align);
    assert(first + elem_size * i == elem_align * (j + k * i) + 0) by (nonlinear_arith)
        requires
            first == elem_align * j,
            elem_size == elem_align * k,
    ;
    lemma_mod_multiples_vanish(j + k * i, 0, elem_align);
}

/// The parts of a record follow one another inside the block: the header
/// ends before the first element starts, less than one alignment step lies
/// between them, each element ends where the next one starts, and the last
/// one ends with the block.
pub proof fn lemma_parts_are_contiguous(
    header_size: int,
    elem_size: int,
    elem_align: int,
    count: int,
    i: int,
)
    requires
        0 <= header_size,
        0 <= elem_size,
        0 < elem_align,
        0 <= i < count,
    ensures
        header_size <= trailing_offset(header_size, elem_align) < header_size + elem_align,
        element_offset(header_size, elem_size, elem_align, 0) == trailing_offset(
            header_size,
            elem_align,
        ),
        element_offset(header_size, elem_size, elem_align, i) + elem_size == element_offset(
            header_size,
            elem_size,
            elem_align,
            i + 1,
        ),
        element_offset(header_size, elem_size, elem_align, i + 1) <= total_size(
            header_size,
            elem_size,
            elem_align,
            count,
        ),
{
    lemma_align_up_is_least(header_size, elem_align, 0);
    assert(elem_size * i + elem_size == elem_size * (i + 1)) by (nonlinear_arith);
    assert(elem_size * (i + 1) <= elem_size * count) by (nonlinear_arith)
        requires
            0 <= elem_size,
            i + 1 <= count,
    ;
}

/// A block is empty exactly when the header takes no space and the elements,
/// all together, take none either.
pub proof fn lemma_empty_block(header_size: int, elem_size: int, elem_align: int, count: int)
    requires
        0 <= header_size,
        0 <= elem_size,
        0 < elem_align,
        0 <= count,
    ensures
        total_size(header_size, elem_size, elem_align, count) == 0 <==> header_size == 0 && (
        elem_size == 0 || count == 0),
{
    lemma_align_up_is_least(header_size, elem_align, 0);
    assert(elem_size * count == 0 <==> elem_size == 0 || count == 0) by (nonlinear_arith)
        requires
            0 <= elem_size,
            0 <= count,
    ;
    assert(0 <= elem_size * count) by (nonlinear_arith)
        requires
            0 <= elem_size,
            0 <= count,
    ;
    assert(0int % elem_align == 0) by (nonlinear_arith)
        requires
            0 < elem_align,
    ;
}

} // verus!
