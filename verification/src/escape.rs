//! Escaping policy: a two-valued mode and the character-level escaping
//! contract.
//!
//! The escaping transformation replaces the structural characters `<`, `>`,
//! `&` and `"` by their entity references and leaves every other character
//! unchanged.  It is *not* idempotent: callers apply it exactly once per
//! logical value.

use std::fmt::Write;
use vstd::prelude::*;

verus! {

/// Whether a piece of emitted text is HTML-escaped before it reaches the
/// output sink.
///
/// `PassThru` is reserved for content the lowering stage knows is already
/// safe (fixed tag and attribute names, literal template syntax); every
/// user- or runtime-supplied value must be emitted with `Escape`.
#[derive(Clone, Copy, PartialEq, Eq, Structural, Debug)]
pub enum Escape {
    PassThru,
    Escape,
}

/// What one character contributes to the escaped form of a text.
pub open spec fn escape_char(c: char) -> Seq<char> {
    if c == '&' {
        seq!['&', 'a', 'm', 'p', ';']
    } else if c == '<' {
        seq!['&', 'l', 't', ';']
    } else if c == '>' {
        seq!['&', 'g', 't', ';']
    } else if c == '"' {
        seq!['&', 'q', 'u', 'o', 't', ';']
    } else {
        seq![c]
    }
}

/// The escaped form of a text: each character replaced by its contribution,
/// in order.
pub open spec fn escape_text(s: Seq<char>) -> Seq<char>
    decreases s.len(),
{
    if s.len() == 0 {
        Seq::empty()
    } else {
        escape_char(s[0]) + escape_text(s.drop_first())
    }
}

/// The text a write with the given mode puts on the sink: escaped under
/// `Escape`, unchanged under `PassThru`.
pub open spec fn escape_apply(mode: Escape, s: Seq<char>) -> Seq<char> {
    match mode {
        Escape::PassThru => s,
        Escape::Escape => escape_text(s),
    }
}

/// Relies on `maud::Escaper`: its `write_str` appends the input to the
/// buffer with `&`, `<`, `>`, `"` replaced by `&amp;`, `&lt;`, `&gt;`,
/// `&quot;`, every other character unchanged, and never fails.
#[verifier::external_body]
pub(crate) fn escape_str(s: &str) -> (r: String)
    ensures
        r@ == escape_text(s@),
{
    let mut out = String::new();
    let _ = maud::Escaper::new(&mut out).write_str(s);
    out
}

} // verus!
