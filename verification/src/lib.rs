//! Multi-pattern line search: compiling a set of regular expressions,
//! finding which patterns fire on each line of input, and rendering one
//! output record per firing pattern, in plain or colorized form.

pub mod colorize;
pub mod driver;
pub mod pattern;
pub mod report;
pub mod text;
