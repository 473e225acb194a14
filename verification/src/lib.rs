//! Loop editing library: short loop identifiers, the arranger notation,
//! loop libraries, keyboard shortcuts and small display tables.
pub mod text;
pub mod arrangement;
pub mod chroma;
pub mod export;
pub mod loops;
pub mod shortcuts;
pub mod waveform;
pub mod waveform_player;
