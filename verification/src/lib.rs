//! Lowering stage of a markup templating compiler.
//!
//! An input tree of template nodes (literal text, elements, attributes,
//! expression splices, conditionals, loops) is lowered, one scope at a time,
//! into an ordered sequence of primitive instructions.  The resulting
//! [`Program`](program::Program) can be run against a mutable output sink,
//! reproducing the document text and short-circuiting on the first write
//! failure.

pub mod escape;
pub mod laws;
pub mod program;
pub mod render;
pub mod run;
pub mod sink;
