//! Core logic of a keyboard-driven Anki review client: card HTML scanning, the deck
//! tree, the review state machine and the text shown on screen.

pub mod anki;
pub mod app;
pub mod deck;
pub mod laws;
pub mod media;
pub mod sort;
pub mod stats;
pub mod text;
pub mod view;
