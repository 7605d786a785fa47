//! Test-variant generation engine: turns a function declaration plus
//! declarative case data into concrete test functions, resolving every
//! parameter to the expression that produces its value (explicit case
//! values first, then registered fixtures, then a default-constructor
//! call on the parameter's declared type).

pub mod expr;
pub mod generate;
pub mod laws;
pub mod parse;
pub mod render;
pub mod resolver;
