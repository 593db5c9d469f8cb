//! The record itself: a header and the elements that follow it, as a value
//! that owns them or as a view that borrows them, and where a record of given
//! types lies in a block of memory.

use crate::layout::{
    align_up, allocatable, checked_align_up, element_offset, lemma_allocatable_is_valid_layout,
    lemma_block_places_fields, lemma_empty_block, total_align, total_size, trailing_offset,
    LayoutPlan,
};
use vstd::layout::{align_of, size_of, valid_layout};
use vstd::prelude::*;
use vstd::slice::slice_to_vec;

verus! {

/// A header value together with the elements that follow it. The number of
/// elements is fixed when the record is made.
#[derive(Debug, PartialEq, Eq, PartialOrd, Ord, Hash)]
pub struct DynStruct<T, D> {
    pub single: T,
    pub many: Vec<D>,
}

/// A record read in place from a run of values: the first one is the header,
/// the others are the elements. It borrows both and owns nothing.
#[derive(Debug, PartialEq, Eq, PartialOrd, Ord, Hash)]
pub struct DynStructRef<'a, T, D> {
    pub single: &'a T,
    pub many: &'a [D],
}

impl<'a, T, D> Clone for DynStructRef<'a, T, D> {
    fn clone(&self) -> (copy: Self)
        ensures
            copy == *self,
    {
        DynStructRef { single: self.single, many: self.many }
    }
}

impl<'a, T, D> Copy for DynStructRef<'a, T, D> {

}

impl<T, D> View for DynStruct<T, D> {
    type V = (T, Seq<D>);

    open spec fn view(&self) -> (T, Seq<D>) {
        (self.single, self.many@)
    }
}

impl<'a, T, D> View for DynStructRef<'a, T, D> {
    type V = (T, Seq<D>);

    open spec fn view(&self) -> (T, Seq<D>) {
        (*self.single, self.many@)
    }
}

impl<T, D> DynStruct<T, D> {
    /// Makes a record that owns a copy of the header and of each element, in
    /// the order given.
    pub fn new(single: T, many: &[D]) -> (record: Box<Self>) where T: Copy, D: Copy
        ensures
            record@ == (single, many@),
    {
        Box::new(DynStruct { single, many: slice_to_vec(many) })
    }

    /// Layout of the block that holds a header of type `T` followed by
    /// `count` elements of type `D`, if an allocator may be asked for it.
    pub fn layout(count: usize) -> (plan: Option<LayoutPlan>)
        ensures
            plan is Some <==> allocatable(
                total_size(
                    size_of::<T>() as int,
                    size_of::<D>() as int,
                    align_of::<D>() as int,
                    count as int,
                ),
                total_align(align_of::<T>() as int, align_of::<D>() as int),
            ),
            plan matches Some(p) ==> p.describes(
                size_of::<T>() as int,
                align_of::<T>() as int,
                size_of::<D>() as int,
                align_of::<D>() as int,
                count as int,
            ),
            plan matches Some(p) ==> p.trailing_offset as nat % align_of::<D>() == 0,
            plan matches Some(p) ==> size_of::<T>() <= p.trailing_offset < size_of::<T>()
                + align_of::<D>(),
            plan matches Some(p) ==> valid_layout(p.total_size, p.total_align),
    {
        broadcast use vstd::layout::group_align_properties;

        let plan = LayoutPlan::compute(
            core::mem::size_of::<T>(),
            core::mem::align_of::<T>(),
            core::mem::size_of::<D>(),
            core::mem::align_of::<D>(),
            count,
        );
        proof {
            if let Some(p) = plan {
                lemma_allocatable_is_valid_layout(p.total_size, p.total_align);
            }
        }
        plan
    }

    /// Address of the header in a block that starts at `raw`: the block's
    /// first byte.
    pub fn single_ptr(raw: usize) -> (addr: usize)
        ensures
            addr == raw,
    {
        raw
    }

    /// Address of the first element in a block that starts at `raw`: the
    /// first address behind the header that suits the elements' alignment.
    /// There is none if that address is beyond the address space.
    pub fn many_ptr(raw: usize) -> (addr: Option<usize>)
        ensures
            addr == if align_up(raw + size_of::<T>(), align_of::<D>() as int) <= usize::MAX {
                Some(align_up(raw + size_of::<T>(), align_of::<D>() as int) as usize)
            } else {
                None
            },
    {
        broadcast use vstd::layout::group_align_properties;

        let align: usize = core::mem::align_of::<D>();
        match raw.checked_add(core::mem::size_of::<T>()) {
            Some(naive) => checked_align_up(naive, align),
            None => None,
        }
    }
}

impl<T> DynStruct<T, T> {
    /// Reads a run of values as a record, in place: the first value is the
    /// header, the others are the elements.
    pub fn from_slice(values: &[T]) -> (record: DynStructRef<'_, T, T>)
        requires
            values@.len() >= 1,
        ensures
            record@ == (values@[0], values@.subrange(1, values@.len() as int)),
    {
        let (head, tail) = values.split_at(1);
        DynStructRef { single: &head[0], many: tail }
    }
}

/// For every header type and element type: in a block that starts at a
/// multiple of the record's alignment, the header lies at a multiple of its
/// own alignment, the offset of the first element is a multiple of the
/// elements' alignment, the address that `many_ptr` computes is the block's
/// start plus that offset, and every element lies at a multiple of the
/// elements' alignment.
pub proof fn lemma_record_fields_aligned<T, D>(base: int, i: int)
    requires
        0 <= base,
        0 <= i,
        base % total_align(align_of::<T>() as int, align_of::<D>() as int) == 0,
    ensures
        base % (align_of::<T>() as int) == 0,
        trailing_offset(size_of::<T>() as int, align_of::<D>() as int) % (align_of::<D>() as int)
            == 0,
        align_up(base + size_of::<T>(), align_of::<D>() as int) == base + trailing_offset(
            size_of::<T>() as int,
            align_of::<D>() as int,
        ),
        (base + element_offset(
            size_of::<T>() as int,
            size_of::<D>() as int,
            align_of::<D>() as int,
            i,
        )) % (align_of::<D>() as int) == 0,
{
    broadcast use vstd::layout::group_align_properties;

    lemma_block_places_fields(
        base,
        size_of::<T>() as int,
        align_of::<T>() as int,
        size_of::<D>() as int,
        align_of::<D>() as int,
        i,
    );
}

/// A record needs no block exactly when its header takes no space and its
/// elements, all together, take none either: then, and only then, the layout
/// has size zero, and an allocator is never asked for it.
pub proof fn lemma_record_needs_no_block<T, D>(count: int)
    requires
        0 <= count,
    ensures
        total_size(size_of::<T>() as int, size_of::<D>() as int, align_of::<D>() as int, count)
            == 0 <==> size_of::<T>() == 0 && (size_of::<D>() == 0 || count == 0),
{
    broadcast use vstd::layout::group_align_properties;

    lemma_empty_block(
        size_of::<T>() as int,
        size_of::<D>() as int,
        align_of::<D>() as int,
        count,
    );
}

/// Reading a record does not change it: two reads of a record made from a
/// header and a run of elements return the same, which is that header and
/// those elements.
pub proof fn lemma_reads_are_stable<T, D>(
    record: DynStruct<T, D>,
    single: T,
    many: Seq<D>,
    first: (T, Seq<D>),
    second: (T, Seq<D>),
)
    requires
        record@ == (single, many),
        first == record@,
        second == record@,
    ensures
        first == second,
        second == (single, many),
{
}

} // verus!
