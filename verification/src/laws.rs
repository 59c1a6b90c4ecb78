//! The laws of the lowering engine: what running a program writes, and in
//! what order.
//!
//! The central notion is the *chunk sequence* of a program: the text
//! chunks its instructions hand to the sink, one chunk per literal or
//! expression write, in document order.  The master theorem
//! [`lemma_run_by_chunks`] determines the outcome of any run from the
//! chunk sequence and the sink's failure point alone; order preservation
//! and fail-fast short-circuiting follow from it.

use vstd::prelude::*;
use vstd::seq_lib::lemma_flatten_concat;

use crate::escape::{escape_apply, escape_text, Escape};
use crate::program::InstrV;
use crate::render::{after_appends, forked, RendererV};
use crate::run::{
    render_expr, run_instr, run_instrs_from, run_iters, run_program, RunOut,
};
use crate::sink::{sink_after_write, sink_fails_now, SinkV};

verus! {

/// Whether an expression is sure to render: every expression of the model
/// renders except one the host's rendering fails on.
pub open spec fn expr_renders(e: crate::program::ExprV) -> bool {
    !(e is FailRender)
}

/// Whether every expression reachable in an instruction renders.
pub open spec fn instr_renders(i: InstrV) -> bool
    decreases i, 0int, 0int,
{
    match i {
        InstrV::WriteLiteral(_) => true,
        InstrV::WriteExpr(e, _) => expr_renders(e),
        InstrV::If(_, thn, els) => instrs_render_from(thn, 0) && match els {
            Some(e) => instrs_render_from(e, 0),
            None => true,
        },
        InstrV::For(_, _, body) => instrs_render_from(body, 0),
    }
}

/// Whether every expression reachable from position `k` on renders.
pub open spec fn instrs_render_from(instrs: Seq<InstrV>, k: int) -> bool
    decreases instrs, 0int, instrs.len() - k,
{
    if 0 <= k < instrs.len() {
        instr_renders(instrs[k]) && instrs_render_from(instrs, k + 1)
    } else {
        true
    }
}

/// The chunks one instruction hands to the sink, in order, under the given
/// loop bindings.
pub open spec fn instr_chunks(i: InstrV, env: Seq<Seq<char>>) -> Seq<Seq<char>>
    decreases i, 0int, 0int,
{
    match i {
        InstrV::WriteLiteral(t) => seq![t],
        InstrV::WriteExpr(e, mode) => match render_expr(e, env) {
            Ok(t) => seq![escape_apply(mode, t)],
            Err(_) => Seq::empty(),
        },
        InstrV::If(cond, thn, els) => if cond {
            instrs_chunks_from(thn, 0, env)
        } else {
            match els {
                Some(e) => instrs_chunks_from(e, 0, env),
                None => Seq::empty(),
            }
        },
        InstrV::For(_pat, items, body) => iters_chunks(items, 0, body, env),
    }
}

/// The chunks the instructions from position `k` on hand to the sink.
pub open spec fn instrs_chunks_from(instrs: Seq<InstrV>, k: int, env: Seq<Seq<char>>) -> Seq<
    Seq<char>,
>
    decreases instrs, 0int, instrs.len() - k,
{
    if 0 <= k < instrs.len() {
        instr_chunks(instrs[k], env) + instrs_chunks_from(instrs, k + 1, env)
    } else {
        Seq::empty()
    }
}

/// The chunks a loop hands to the sink from item `j` on: the body's
/// chunks once per item, in iteration order, the item bound innermost.
pub open spec fn iters_chunks(
    items: Seq<Seq<char>>,
    j: int,
    body: Seq<InstrV>,
    env: Seq<Seq<char>>,
) -> Seq<Seq<char>>
    decreases body, items.len() - j, body.len(),
{
    if 0 <= j < items.len() {
        instrs_chunks_from(body, 0, env.push(items[j])) + iters_chunks(items, j + 1, body, env)
    } else {
        Seq::empty()
    }
}

/// The chunks a whole program hands to the sink.
pub open spec fn program_chunks(p: Seq<InstrV>) -> Seq<Seq<char>> {
    instrs_chunks_from(p, 0, Seq::empty())
}

/// The full document text of a program: its chunks flattened, in order.
pub open spec fn program_text(p: Seq<InstrV>) -> Seq<char> {
    program_chunks(p).flatten()
}

/// A sink's failure point, if set, still lies ahead.  Every sink this
/// library constructs satisfies this, and every write preserves it.
pub open spec fn fail_ahead(s: SinkV) -> bool {
    match s.fail_at {
        Some(n) => n >= 1,
        None => true,
    }
}

/// The outcome of handing a chunk sequence to a sink, write by write:
/// with no failure point every chunk is appended; with a failure point
/// beyond the last chunk every chunk is appended and the point moves
/// closer; otherwise the writes before the point are appended, the run
/// stops, and the sink's own error is surfaced.
pub open spec fn writes_outcome(cs: Seq<Seq<char>>, s: SinkV) -> RunOut {
    match s.fail_at {
        None => RunOut {
            sink: SinkV { out: s.out + cs.flatten(), fail_at: None, err: s.err },
            err: None,
        },
        Some(n) => if cs.len() < n {
            RunOut {
                sink: SinkV {
                    out: s.out + cs.flatten(),
                    fail_at: Some(n - cs.len()),
                    err: s.err,
                },
                err: None,
            }
        } else {
            RunOut {
                sink: SinkV { out: s.out + cs.take(n - 1).flatten(), fail_at: Some(1), err: s.err },
                err: Some(s.err),
            }
        },
    }
}

/// Handing over chunks keeps the failure point ahead and the error value
/// unchanged.
proof fn lemma_writes_outcome_ahead(cs: Seq<Seq<char>>, s: SinkV)
    requires
        fail_ahead(s),
    ensures
        fail_ahead(writes_outcome(cs, s).sink),
        writes_outcome(cs, s).sink.err == s.err,
{
}

/// Chunk sequences compose: handing over `c1 + c2` is handing over `c1`,
/// then — unless that already failed — `c2` from the state reached.
proof fn lemma_writes_outcome_concat(c1: Seq<Seq<char>>, c2: Seq<Seq<char>>, s: SinkV)
    requires
        fail_ahead(s),
    ensures
        writes_outcome(c1, s).err is Some ==> writes_outcome(c1 + c2, s) == writes_outcome(c1, s),
        writes_outcome(c1, s).err is None ==> writes_outcome(c1 + c2, s) == writes_outcome(
            c2,
            writes_outcome(c1, s).sink,
        ),
{
    lemma_flatten_concat(c1, c2);
    let o1 = writes_outcome(c1, s);
    match s.fail_at {
        None => {
            assert(writes_outcome(c1 + c2, s) =~= writes_outcome(c2, o1.sink));
        },
        Some(n) => {
            if c1.len() >= n {
                // the failure lies within `c1`
                assert((c1 + c2).take(n - 1) =~= c1.take(n - 1));
                assert(writes_outcome(c1 + c2, s) =~= o1);
            } else if (c1 + c2).len() < n {
                // the failure lies beyond `c2` as well
                assert(writes_outcome(c1 + c2, s) =~= writes_outcome(c2, o1.sink));
            } else {
                // the failure lies within `c2`
                let m = n - 1 - c1.len();
                assert((c1 + c2).take(n - 1) =~= c1 + c2.take(m));
                lemma_flatten_concat(c1, c2.take(m));
                assert(writes_outcome(c1 + c2, s) =~= writes_outcome(c2, o1.sink));
            }
        },
    }
}

/// Master theorem, one instruction: its run is exactly the handover of its
/// chunk sequence.
proof fn lemma_run_instr_by_chunks(i: InstrV, env: Seq<Seq<char>>, s: SinkV)
    requires
        instr_renders(i),
        fail_ahead(s),
    ensures
        run_instr(i, env, s) == writes_outcome(instr_chunks(i, env), s),
    decreases i, 0int, 0int,
{
    match i {
        InstrV::WriteLiteral(t) => {
            lemma_single_write(t, s);
        },
        InstrV::WriteExpr(e, mode) => {
            match render_expr(e, env) {
                Ok(t) => {
                    lemma_single_write(escape_apply(mode, t), s);
                },
                Err(_) => {},
            }
        },
        InstrV::If(cond, thn, els) => {
            if cond {
                lemma_run_instrs_by_chunks(thn, 0, env, s);
            } else {
                match els {
                    Some(e) => {
                        lemma_run_instrs_by_chunks(e, 0, env, s);
                    },
                    None => {
                        assert(run_instr(i, env, s) =~= writes_outcome(Seq::empty(), s));
                    },
                }
            }
        },
        InstrV::For(_pat, items, body) => {
            lemma_run_iters_by_chunks(items, 0, body, env, s);
        },
    }
}

/// Master theorem, an instruction sequence from position `k` on.
proof fn lemma_run_instrs_by_chunks(instrs: Seq<InstrV>, k: int, env: Seq<Seq<char>>, s: SinkV)
    requires
        instrs_render_from(instrs, k),
        fail_ahead(s),
    ensures
        run_instrs_from(instrs, k, env, s) == writes_outcome(instrs_chunks_from(instrs, k, env), s),
    decreases instrs, 0int, instrs.len() - k,
{
    if 0 <= k < instrs.len() {
        let c1 = instr_chunks(instrs[k], env);
        let c2 = instrs_chunks_from(instrs, k + 1, env);
        lemma_run_instr_by_chunks(instrs[k], env, s);
        lemma_writes_outcome_concat(c1, c2, s);
        let o1 = writes_outcome(c1, s);
        if o1.err is None {
            lemma_writes_outcome_ahead(c1, s);
            lemma_run_instrs_by_chunks(instrs, k + 1, env, o1.sink);
        }
    } else {
        assert(run_instrs_from(instrs, k, env, s) =~= writes_outcome(
            instrs_chunks_from(instrs, k, env),
            s,
        ));
    }
}

/// Master theorem, loop iterations from item `j` on.
proof fn lemma_run_iters_by_chunks(
    items: Seq<Seq<char>>,
    j: int,
    body: Seq<InstrV>,
    env: Seq<Seq<char>>,
    s: SinkV,
)
    requires
        instrs_render_from(body, 0),
        fail_ahead(s),
    ensures
        run_iters(items, j, body, env, s) == writes_outcome(iters_chunks(items, j, body, env), s),
    decreases body, items.len() - j, body.len(),
{
    if 0 <= j < items.len() {
        let c1 = instrs_chunks_from(body, 0, env.push(items[j]));
        let c2 = iters_chunks(items, j + 1, body, env);
        lemma_run_instrs_by_chunks(body, 0, env.push(items[j]), s);
        lemma_writes_outcome_concat(c1, c2, s);
        let o1 = writes_outcome(c1, s);
        if o1.err is None {
            lemma_writes_outcome_ahead(c1, s);
            lemma_run_iters_by_chunks(items, j + 1, body, env, o1.sink);
        }
    } else {
        assert(run_iters(items, j, body, env, s) =~= writes_outcome(
            iters_chunks(items, j, body, env),
            s,
        ));
    }
}

/// A single write equals the handover of a one-chunk sequence.
proof fn lemma_single_write(t: Seq<char>, s: SinkV)
    requires
        fail_ahead(s),
    ensures
        crate::run::run_write(t, s) == writes_outcome(seq![t], s),
{
    seq![t].lemma_flatten_one_element();
    assert(seq![t].flatten() =~= t);
    if sink_fails_now(s) {
        assert(seq![t].take(0int) =~= Seq::<Seq<char>>::empty());
        assert(crate::run::run_write(t, s) =~= writes_outcome(seq![t], s));
    } else {
        assert(sink_after_write(s, t).out =~= s.out + seq![t].flatten());
        assert(crate::run::run_write(t, s) =~= writes_outcome(seq![t], s));
    }
}

/// Master theorem: the outcome of running a program is determined by its
/// chunk sequence and the sink alone — every chunk appended in document
/// order up to the sink's failure point, the sink's own error surfaced at
/// that point.
pub proof fn lemma_run_by_chunks(p: Seq<InstrV>, s: SinkV)
    requires
        instrs_render_from(p, 0),
        fail_ahead(s),
    ensures
        run_program(p, s) == writes_outcome(program_chunks(p), s),
{
    lemma_run_instrs_by_chunks(p, 0, Seq::empty(), s);
}

/// Order preservation: against a sink that never fails, a program whose
/// expressions all render runs to success and appends exactly its document
/// text — the flattening of its chunks in instruction order.
pub proof fn lemma_order_preservation(p: Seq<InstrV>, s: SinkV)
    requires
        instrs_render_from(p, 0),
        s.fail_at is None,
    ensures
        run_program(p, s).err is None,
        run_program(p, s).sink.out == s.out + program_text(p),
        run_program(p, s).sink.fail_at is None,
        run_program(p, s).sink.err == s.err,
{
    lemma_run_by_chunks(p, s);
}

/// Fail-fast: against a sink that fails on its `n`-th write, a program
/// with at least `n` chunks performs exactly the `n - 1` writes before the
/// failing one, in order, then stops, and the error returned is exactly
/// the sink's own.
pub proof fn lemma_fail_fast(p: Seq<InstrV>, s: SinkV, n: int)
    requires
        instrs_render_from(p, 0),
        s.fail_at == Some(n),
        n >= 1,
        program_chunks(p).len() >= n,
    ensures
        run_program(p, s).err == Some(s.err),
        run_program(p, s).sink.out == s.out + program_chunks(p).take(n - 1).flatten(),
    {
    lemma_run_by_chunks(p, s);
}

/// The escaping boundary: a literal emitted with `Escape` puts exactly
/// `escape_text(t)` on a plain sink, one emitted with `PassThru` exactly
/// `t`, each as a single successful write.  `Renderer::string` appends
/// exactly the instruction this law runs.
pub proof fn lemma_escape_boundary(t: Seq<char>, mode: Escape, s: SinkV)
    requires
        s.fail_at is None,
    ensures
        run_program(seq![InstrV::WriteLiteral(escape_apply(mode, t))], s).err is None,
        run_program(seq![InstrV::WriteLiteral(escape_apply(mode, t))], s).sink.out == s.out
            + escape_apply(mode, t),
        mode is Escape ==> escape_apply(mode, t) == escape_text(t),
        mode is PassThru ==> escape_apply(mode, t) == t,
{
    let p = seq![InstrV::WriteLiteral(escape_apply(mode, t))];
    assert(p[0] == InstrV::WriteLiteral(escape_apply(mode, t)));
    assert(instr_renders(p[0]));
    assert(instrs_render_from(p, 1));
    assert(instrs_render_from(p, 0));
    lemma_order_preservation(p, s);
    assert(instrs_chunks_from(p, 1, Seq::empty()) =~= Seq::<Seq<char>>::empty());
    assert(instr_chunks(p[0], Seq::empty()) == seq![escape_apply(mode, t)]);
    assert(program_chunks(p) =~= seq![escape_apply(mode, t)]);
    program_chunks(p).lemma_flatten_one_element();
    assert(s.out + program_text(p) =~= s.out + escape_apply(mode, t));
}

/// Empty-branch legality: a conditional with a true condition and an empty
/// then-program runs to success on any sink, writing nothing and leaving
/// the sink exactly as it was.
pub proof fn lemma_empty_branch(s: SinkV)
    ensures
        run_program(seq![InstrV::If(true, Seq::empty(), None)], s) == (RunOut {
            sink: s,
            err: None,
        }),
{
    let p = seq![InstrV::If(true, Seq::<InstrV>::empty(), None)];
    assert(run_instrs_from(Seq::<InstrV>::empty(), 0, Seq::empty(), s) =~= (RunOut {
        sink: s,
        err: None,
    }));
    let o = run_instr(p[0], Seq::empty(), s);
    assert(o =~= (RunOut { sink: s, err: None }));
    assert(run_instrs_from(p, 1, Seq::empty(), o.sink) =~= (RunOut { sink: s, err: None }));
    assert(run_program(p, s) =~= (RunOut { sink: s, err: None }));
}

/// Fork independence: two builders forked from the same parent start
/// empty, share only the sink identity, and each ends up holding exactly
/// its own appends — what is appended to one never appears in, or
/// reorders, the other.
pub proof fn lemma_fork_independence(parent: RendererV, a: Seq<InstrV>, b: Seq<InstrV>)
    ensures
        after_appends(forked(parent), a).stmts == a,
        after_appends(forked(parent), b).stmts == b,
        after_appends(forked(parent), a).w == parent.w,
        after_appends(forked(parent), b).w == parent.w,
{
    assert(after_appends(forked(parent), a).stmts =~= a);
    assert(after_appends(forked(parent), b).stmts =~= b);
}

} // verus!
