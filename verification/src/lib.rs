//! The override engine of a colour-theme editor: colour parsing, contrast
//! selection, palette overlay and the debounced edit session.

pub mod color;
pub mod display;
pub mod palette;
pub mod parse;
pub mod roundtrip;
pub mod session;
pub mod text;
