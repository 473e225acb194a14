//! Loop export choices.
use vstd::prelude::*;

verus! {

/// Whether loops are exported each to its own file or joined into one.
#[derive(Debug, Clone, Copy, PartialEq, Eq, Structural)]
pub enum ExportMode {
    Separate,
    Combined,
}

/// The audio format of exported loops.
#[derive(Debug, Clone, Copy, PartialEq, Eq, Structural)]
pub enum ExportFormat {
    Wav,
}

} // verus!
