//! Small numeric and text routines with machine-checked contracts: the
//! number of Collatz steps from a seed down to one, the positions of the
//! strings that contain a query, and an in-place textual progress bar.

pub mod collatz;
pub mod search;
pub mod progress;
