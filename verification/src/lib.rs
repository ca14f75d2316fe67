//! Static checker for a minimal line-oriented scripting language.
//!
//! Each source line is a comment, a variable declaration, an output
//! statement, a function declaration, a block-closing marker, a bare
//! function call, or blank. The checker validates a whole file in one
//! top-to-bottom pass, accumulating declared variables, declared
//! functions and recorded call sites, and then resolves every recorded
//! call site against the final function table, so calls may precede the
//! declaration of the function they name.

pub mod args;
pub mod driver;
pub mod error;
pub mod laws;
pub mod numeric;
pub mod packaging;
pub mod signature;
pub mod text;
pub mod value;
