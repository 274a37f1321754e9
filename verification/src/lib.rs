//! Checked storage for values that may not have been written yet.

pub mod mem;
