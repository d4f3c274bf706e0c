use vstd::prelude::*;

pub mod ignore;
pub mod laws;
pub mod listing;
pub mod text;
pub mod walk;
pub mod walker;

pub use ignore::path_is_ignored;
pub use listing::{walk_listing, Visit, WalkReport};
pub use walk::{Entry, EntryKind, Probe, WalkError, WalkRequest};
pub use walker::{Phase, WalkAction, WalkEvent, Walker};

verus! {

} // verus!
