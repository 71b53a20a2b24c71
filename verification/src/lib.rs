//! Small vectors in various sizes. These store a certain number of elements
//! inline, and fall back to a separately allocated buffer for larger
//! collections, which can improve cache locality and reduce allocator
//! traffic for workloads that fit within the inline bound.
//!
//! The container is `SmallVec<T, N>`, where `N` is the number of elements
//! kept inline. Every operation carries a contract over the container's
//! abstract view (a sequence of elements), its capacity, and whether it has
//! spilled to the heap, and the contracts are machine-checked.

pub mod bulk;
pub mod cmp;
pub mod convert;
pub mod filter;
pub mod growth;
pub mod iter;
pub mod laws;
pub mod small_vec;
pub mod source;

pub use cmp::ExtendFromSlice;
pub use iter::Drain;
pub use iter::IntoIter;
pub use small_vec::SmallVec;
pub use source::ElementSource;
pub use source::VecSource;

