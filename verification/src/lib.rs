//! Task scripts: a text file whose first line names the environment that runs
//! the remaining lines.
//!
//! The library holds the decisions: which family a directive selects and how a
//! bad directive is diagnosed, what a launch writes, runs and removes, and in
//! which order the entries of a batch directory run. Reading files, spawning
//! processes and printing are left to the caller, who is handed plain values.

pub mod diagnostic;
pub mod directive;
pub mod launch;
pub mod order;
pub mod pipeline;
pub mod similarity;
pub mod text;
