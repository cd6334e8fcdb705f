//! Storage-layer building blocks: the slotted page and the marker traits
//! that describe what a key or value type must provide.

use vstd::prelude::*;

pub mod slotted_page;

verus! {

/// Marker trait for types usable as keys in structures built on pages.
pub trait KeyType: core::fmt::Debug + core::fmt::Display + Clone + Eq + PartialOrd + core::hash::Hash + Send + Default {

}

/// Marker trait for types usable as values in structures built on pages.
pub trait ValueType: core::fmt::Debug + core::fmt::Display + Clone + core::hash::Hash + Send + Default {

}

} // verus!
