//! Helpers for working with memory.

pub mod maybe_uninit;
