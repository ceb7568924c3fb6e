//! The description of a fixture file of frozen reference outputs.
use vstd::prelude::*;

verus! {

/// When and from where a fixture file was captured, how many plans it
/// holds, and a note.
pub struct GoldenMeta {
    pub captured_at: String,
    pub source: String,
    pub plans: u32,
    pub note: String,
}

} // verus!
