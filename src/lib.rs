//! Source positions attached to values, and rendering of annotated source
//! excerpts for diagnostics.
use vstd::prelude::*;

pub mod position;
pub mod snippet;
pub mod wrapped;

pub use position::Position;
pub use wrapped::{Located, PathLocated};

verus! {

} // verus!
