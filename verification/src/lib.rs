//! Loop unrolling at compile time, on token trees.
//!
//! An invocation names a loop variable, a list or an inclusive range of integer literals, and
//! a block: `i in [1, 2, 3] => { ... }` or `i in (0..=9) => { ... }`. [`repeat_for`] expands
//! it to one copy of the block's contents for each value, in order, with every identifier
//! spelled like the loop variable replaced by the value as an unsuffixed decimal literal.
//!
//! The work is done on the token trees of [`token`], which hold what a compiler's token
//! stream holds but for source positions, so that a procedural macro only has to convert
//! its input and output. [`grammar`] takes an invocation apart, [`values`] reads the
//! integers, [`substitute`] replaces identifiers, and [`expand`] puts the copies together.
//! Every function is verified against a contract over mathematical models of its data; the
//! few questions that only the host language can answer are asked in [`spelling`].

pub mod error;
pub mod expand;
pub mod grammar;
pub mod render;
pub mod spelling;
pub mod substitute;
pub mod token;
pub mod values;

pub use error::{ExpandError, GrammarError, ValueParseError};
pub use expand::{repeat_for, substituted_block};
pub use grammar::Loop;
pub use substitute::replace_tokens;
pub use token::{Block, Delimiter, Spacing, TokenTree};
pub use values::LoopValues;
