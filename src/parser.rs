//! Rule tree data model, and the magic-file syntax for offsets, operators and values.

pub mod ast;
pub mod grammar;
