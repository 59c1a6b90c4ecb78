//! The mutable output sink a finished program is run against.
//!
//! A sink accepts a sequence of text chunks and may fail.  Failure is
//! modelled by a programmable failure point: a sink either never fails, or
//! fails on the n-th write counted from now, returning its own error value
//! and leaving its state untouched.  This captures any consumer that can
//! fail (a broken pipe, a formatting error) while staying fully
//! deterministic.

use vstd::prelude::*;
use vstd::string::StringExecFns;

verus! {

/// The single runtime error kind: a failure raised by the output sink (or
/// by rendering an expression) during one execution step.  It is surfaced
/// verbatim to the program's caller and never retried or suppressed.
#[derive(Clone, Copy, PartialEq, Eq, Structural, Debug)]
pub struct SinkError {
    pub code: u64,
}

/// Mathematical model of a sink: the text written so far, the failure
/// point, and the error value a failure surfaces.
#[verifier::ext_equal]
pub struct SinkV {
    pub out: Seq<char>,
    pub fail_at: Option<int>,
    pub err: u64,
}

/// Whether the very next write fails.
pub open spec fn sink_fails_now(s: SinkV) -> bool {
    match s.fail_at {
        Some(n) => n <= 1,
        None => false,
    }
}

/// The sink after a successful write: the chunk is appended and the
/// failure point, if any, moves one write closer.
pub open spec fn sink_after_write(s: SinkV, chunk: Seq<char>) -> SinkV {
    SinkV {
        out: s.out + chunk,
        fail_at: match s.fail_at {
            Some(n) => Some(n - 1),
            None => None,
        },
        err: s.err,
    }
}

/// An output sink accumulating text, with a programmable failure point.
pub struct Sink {
    out: String,
    fail_at: Option<usize>,
    err: u64,
}

impl View for Sink {
    type V = SinkV;

    closed spec fn view(&self) -> SinkV {
        SinkV {
            out: self.out@,
            fail_at: match self.fail_at {
                Some(n) => Some(n as int),
                None => None,
            },
            err: self.err,
        }
    }
}

impl Sink {
    /// A plain sink: empty, and it never fails.
    pub fn new() -> (s: Sink)
        ensures
            s@ == (SinkV { out: Seq::empty(), fail_at: None, err: 0 }),
    {
        Sink { out: String::new(), fail_at: None, err: 0 }
    }

    /// A sink that accepts `n - 1` writes and fails on the `n`-th with the
    /// given error value.
    pub fn failing_at(n: usize, err: u64) -> (s: Sink)
        requires
            n >= 1,
        ensures
            s@ == (SinkV { out: Seq::empty(), fail_at: Some(n as int), err }),
    {
        Sink { out: String::new(), fail_at: Some(n), err }
    }

    /// Accepts one text chunk, or fails.  On failure nothing is written:
    /// the sink is left exactly as it was, and the sink's own error is
    /// returned verbatim.
    pub fn write(&mut self, chunk: &str) -> (r: Result<(), SinkError>)
        ensures
            sink_fails_now(old(self)@) ==> {
                &&& r == Err::<(), SinkError>(SinkError { code: old(self)@.err })
                &&& final(self)@ == old(self)@
            },
            !sink_fails_now(old(self)@) ==> {
                &&& r == Ok::<(), SinkError>(())
                &&& final(self)@ == sink_after_write(old(self)@, chunk@)
            },
    {
        match self.fail_at {
            Some(n) => {
                if n <= 1 {
                    Err(SinkError { code: self.err })
                } else {
                    self.fail_at = Some(n - 1);
                    self.out.append(chunk);
                    Ok(())
                }
            },
            None => {
                self.out.append(chunk);
                Ok(())
            },
        }
    }

    /// The text written so far.
    pub fn output(&self) -> (r: &String)
        ensures
            r@ == self@.out,
    {
        &self.out
    }

    /// Whether a failure point remains, and where it stands.
    pub fn remaining_until_failure(&self) -> (r: Option<usize>)
        ensures
            match r {
                Some(n) => self@.fail_at == Some(n as int),
                None => self@.fail_at is None,
            },
    {
        self.fail_at
    }
}

} // verus!
