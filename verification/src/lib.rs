//! Small verified programs: a number-guessing session with its line parser,
//! and a handful of short studies of structs, enums, branches and loops.

pub mod branches;
mod chance;
pub mod creatures;
pub mod fallible;
pub mod functions;
pub mod guess;
pub mod numeral;
pub mod ownership;
pub mod resolver;
pub mod scalars;
pub mod text;
