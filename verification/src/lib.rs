//! Tone classification for collected prompt text.
//!
//! The heart of the crate is the tone classifier: a pure, total function
//! that scores a text against fixed keyword categories and returns up to
//! three tone labels, ordered by descending score with ties broken by
//! category declaration order.

pub mod classify;
pub mod config;
pub mod text;
pub mod tone;
