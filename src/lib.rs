//! The navigation engine of a file browser: directory listings in display
//! order, resolution of navigation targets, root discovery, the click timer
//! that tells a selection from an activation, and the navigation state that
//! composes them. Filesystem reads and program launches stay with the caller,
//! which hands their results in as plain values.
use vstd::prelude::*;

pub mod click;
pub mod listing;
pub mod nav;
pub mod path;
pub mod roots;

verus! {

} // verus!
