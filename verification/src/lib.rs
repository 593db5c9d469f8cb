//! Records made of one header value followed by a run of elements whose
//! number is fixed when the record is made.
//!
//! [`DynStruct`] is such a record as a value, [`DynStructRef`] is one read in
//! place from a slice. Neither touches raw memory. For code that keeps a
//! record in one block of memory, header first and elements right behind it,
//! the crate says where the parts lie ([`layout`]), fills the block
//! ([`block`]) and hands out the run of units that stands for a record which
//! takes no space ([`phantom`]).

pub mod block;
pub mod layout;
pub mod phantom;
pub mod record;

pub use layout::LayoutPlan;
pub use phantom::slice_with_len;
pub use record::{DynStruct, DynStructRef};
