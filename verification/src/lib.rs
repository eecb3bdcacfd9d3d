//! A sparse, lazily-allocated array of fixed-size memory pages.
//!
//! Pages are addressed by a zero-based page number. Storage for a page is
//! only allocated the first time that page number is touched through
//! [`Pager::get_mut_or_alloc`]; reads of untouched numbers simply report the
//! page as absent. The backing slot storage grows by doubling and never
//! shrinks, and a pager can be rebuilt from a flat byte image in which
//! all-zero chunks stand for absent pages.

mod iter;
mod page;
mod pager;

pub use iter::Iter;
pub use page::Page;
pub use pager::Pager;
pub use pager::RestoreError;
