//! Turns a run of documentation comments, given as `#[doc = "..."]` tokens,
//! into one string literal, or into a call that receives that literal among
//! the caller's own arguments.

pub mod diag;
pub mod expand;
pub mod join;
pub mod literal;
pub mod scan;
pub mod target;
pub mod token;

pub use diag::CompileError;
pub use expand::{docstr, expand};
pub use token::{Delimiter, Span, Token};
