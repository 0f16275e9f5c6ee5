//! Test-tree flattening, name filters and command-line decisions of the
//! tree-sitter command-line tool, with their contracts.

pub mod cli;
pub mod filter;
pub mod fuzz;
pub mod settings;
pub mod test_entry;
