//! Execution of a lowered program against an output sink.
//!
//! The semantics is given by a recursive specification interpreter over the
//! instruction models: instructions run strictly in sequence, each write
//! goes to the one sink, and the first failure — a sink failure or an
//! expression whose rendering fails — ends the run and is surfaced
//! verbatim.  The executable interpreter is proved to follow this
//! specification exactly.

use vstd::prelude::*;

use crate::escape::{escape_apply, escape_str, Escape};
use crate::program::{instrs_view, lemma_instrs_view_index, Expr, ExprV, Instruction, InstrV,
    Program};
use crate::sink::{sink_after_write, sink_fails_now, Sink, SinkError, SinkV};

verus! {

broadcast use vstd::std_specs::vec::axiom_vec_decreases_to_view, vstd::seq::axiom_seq_index_decreases;

/// Outcome of running part of a program: the sink state afterwards, and
/// the error that stopped the run, if one did.
#[verifier::ext_equal]
pub struct RunOut {
    pub sink: SinkV,
    pub err: Option<u64>,
}

/// The text a loop binding stack gives a variable: `k` counts enclosing
/// loops innermost-out, `0` being the innermost.  An unbound variable
/// renders as empty text.
pub open spec fn env_lookup(env: Seq<Seq<char>>, k: int) -> Seq<char> {
    if 0 <= k < env.len() {
        env[env.len() - 1 - k]
    } else {
        Seq::empty()
    }
}

/// What the host's expression layer renders an expression to, under the
/// given loop bindings: the text, or the code of a rendering failure.
pub open spec fn render_expr(e: ExprV, env: Seq<Seq<char>>) -> Result<Seq<char>, u64> {
    match e {
        ExprV::Lit(t) => Ok(t),
        ExprV::Var(k) => Ok(env_lookup(env, k)),
        ExprV::FailRender(c) => Err(c),
    }
}

/// One write against the sink: it either fails now, leaving the sink
/// untouched and surfacing the sink's error, or appends the chunk.
pub open spec fn run_write(chunk: Seq<char>, s: SinkV) -> RunOut {
    if sink_fails_now(s) {
        RunOut { sink: s, err: Some(s.err) }
    } else {
        RunOut { sink: sink_after_write(s, chunk), err: None }
    }
}

/// Runs one instruction.
pub open spec fn run_instr(i: InstrV, env: Seq<Seq<char>>, s: SinkV) -> RunOut
    decreases i, 0int, 0int,
{
    match i {
        InstrV::WriteLiteral(t) => run_write(t, s),
        InstrV::WriteExpr(e, mode) => match render_expr(e, env) {
            Ok(t) => run_write(escape_apply(mode, t), s),
            Err(c) => RunOut { sink: s, err: Some(c) },
        },
        InstrV::If(cond, thn, els) => if cond {
            run_instrs_from(thn, 0, env, s)
        } else {
            match els {
                Some(e) => run_instrs_from(e, 0, env, s),
                None => RunOut { sink: s, err: None },
            }
        },
        InstrV::For(_pat, items, body) => run_iters(items, 0, body, env, s),
    }
}

/// Runs the instructions from position `k` on, in order, stopping at the
/// first failure.
pub open spec fn run_instrs_from(instrs: Seq<InstrV>, k: int, env: Seq<Seq<char>>, s: SinkV) -> RunOut
    decreases instrs, 0int, instrs.len() - k,
{
    if 0 <= k < instrs.len() {
        let r = run_instr(instrs[k], env, s);
        match r.err {
            Some(_) => r,
            None => run_instrs_from(instrs, k + 1, env, r.sink),
        }
    } else {
        RunOut { sink: s, err: None }
    }
}

/// Runs the loop body once per item from position `j` on, in iteration
/// order, the item bound innermost, stopping at the first failure.
pub open spec fn run_iters(
    items: Seq<Seq<char>>,
    j: int,
    body: Seq<InstrV>,
    env: Seq<Seq<char>>,
    s: SinkV,
) -> RunOut
    decreases body, items.len() - j, body.len(),
{
    if 0 <= j < items.len() {
        let r = run_instrs_from(body, 0, env.push(items[j]), s);
        match r.err {
            Some(_) => r,
            None => run_iters(items, j + 1, body, env, r.sink),
        }
    } else {
        RunOut { sink: s, err: None }
    }
}

/// Runs a whole program, starting with no loop bindings.
pub open spec fn run_program(p: Seq<InstrV>, s: SinkV) -> RunOut {
    run_instrs_from(p, 0, Seq::empty(), s)
}

/// The result value the executable interpreter returns for an outcome.
pub open spec fn result_of(o: RunOut) -> Result<(), SinkError> {
    match o.err {
        None => Ok(()),
        Some(c) => Err(SinkError { code: c }),
    }
}

/// Renders one expression under the current loop bindings, exactly as
/// `render_expr` says.
fn render_expr_exec(e: &Expr, env: &Vec<String>) -> (r: Result<String, SinkError>)
    ensures
        match render_expr(e.deep_view(), env.deep_view()) {
            Ok(t) => r matches Ok(x) && x@ == t,
            Err(c) => r == Err::<String, SinkError>(SinkError { code: c }),
        },
{
    match e {
        Expr::Lit(t) => Ok(t.clone()),
        Expr::Var(k) => {
            let k = *k;
            if k < env.len() {
                let got = env[env.len() - 1 - k].clone();
                proof {
                    let dv = env.deep_view();
                    assert(got@ == dv[dv.len() - 1 - k]);
                }
                Ok(got)
            } else {
                Ok(String::new())
            }
        },
        Expr::FailRender(c) => Err(SinkError { code: *c }),
    }
}

/// Runs one instruction, exactly as `run_instr` says, leaving the loop
/// bindings as they were.
#[verifier::loop_isolation(false)]
fn run_instr_exec(i: &Instruction, env: &mut Vec<String>, sink: &mut Sink) -> (r: Result<
    (),
    SinkError,
>)
    ensures
        final(env).deep_view() == old(env).deep_view(),
        ({
            let o = run_instr(i.deep_view(), old(env).deep_view(), old(sink)@);
            final(sink)@ == o.sink && r == result_of(o)
        }),
    decreases i,
{
    match i {
        Instruction::WriteLiteral(t) => sink.write(t.as_str()),
        Instruction::WriteExpr(e, mode) => {
            let t = match render_expr_exec(e, env) {
                Ok(t) => t,
                Err(err) => {
                    return Err(err);
                },
            };
            match mode {
                Escape::PassThru => sink.write(t.as_str()),
                Escape::Escape => {
                    let escaped = escape_str(t.as_str());
                    sink.write(escaped.as_str())
                },
            }
        },
        Instruction::If(c, thn, els) => {
            if c.value {
                run_instrs_exec(&thn.instrs, env, sink)
            } else {
                match els {
                    Some(e) => run_instrs_exec(&e.instrs, env, sink),
                    None => Ok(()),
                }
            }
        },
        Instruction::For(_pat, iterable, body) => {
            let ghost items = iterable.items.deep_view();
            let ghost bodyv = instrs_view(body.instrs@);
            let ghost env0 = env.deep_view();
            let ghost s0 = sink@;
            let n = iterable.items.len();
            assert(run_iters(items, 0, bodyv, env0, sink@) == run_iters(items, 0, bodyv, env0, s0));
            for j in 0..n
                invariant
                    n == iterable.items.len(),
                    items == iterable.items.deep_view(),
                    bodyv == instrs_view(body.instrs@),
                    env.deep_view() == env0,
                    run_iters(items, j as int, bodyv, env0, sink@) == run_iters(
                        items,
                        0,
                        bodyv,
                        env0,
                        s0,
                    ),
            {
                let item = iterable.items[j].clone();
                let ghost itemv = item@;
                let ghost env_pre = env@;
                env.push(item);
                proof {
                    assert(itemv == items[j as int]);
                    assert(env.deep_view() =~= env0.push(items[j as int]));
                }
                let ghost s_j = sink@;
                let res = run_instrs_exec(&body.instrs, env, sink);
                let ghost env_mid = env@;
                let ghost dv_mid = env.deep_view();
                let _ = env.pop();
                proof {
                    assert(dv_mid == env0.push(itemv));
                    assert(env_mid.len() == env0.len() + 1);
                    assert(env@ =~= env_mid.drop_last());
                    assert forall|x: int| 0 <= x < env0.len() implies env@[x].deep_view()
                        == env0[x] by {
                        assert(dv_mid[x] == env_mid[x].deep_view());
                    }
                    assert(env.deep_view() =~= env0);
                    let o = run_instrs_from(bodyv, 0, env0.push(items[j as int]), s_j);
                    assert(run_iters(items, j as int, bodyv, env0, s_j) == match o.err {
                        Some(_) => o,
                        None => run_iters(items, j as int + 1, bodyv, env0, o.sink),
                    });
                }
                match res {
                    Ok(()) => {},
                    Err(err) => {
                        return Err(err);
                    },
                }
            }
            Ok(())
        },
    }
}

/// Runs an instruction sequence, exactly as `run_instrs_from` says,
/// leaving the loop bindings as they were.
#[verifier::loop_isolation(false)]
fn run_instrs_exec(instrs: &Vec<Instruction>, env: &mut Vec<String>, sink: &mut Sink) -> (r:
    Result<(), SinkError>)
    ensures
        final(env).deep_view() == old(env).deep_view(),
        ({
            let o = run_instrs_from(instrs_view(instrs@), 0, old(env).deep_view(), old(sink)@);
            final(sink)@ == o.sink && r == result_of(o)
        }),
    decreases instrs,
{
    let ghost iv = instrs_view(instrs@);
    let ghost env0 = env.deep_view();
    let ghost s0 = sink@;
    proof {
        crate::program::lemma_instrs_view_from(instrs@, 0);
    }
    let n = instrs.len();
    for k in 0..n
        invariant
            n == instrs.len(),
            iv == instrs_view(instrs@),
            iv.len() == n,
            env.deep_view() == env0,
            run_instrs_from(iv, k as int, env0, sink@) == run_instrs_from(iv, 0, env0, s0),
    {
        proof {
            lemma_instrs_view_index(instrs@, k as int);
        }
        let ghost s_k = sink@;
        let res = run_instr_exec(&instrs[k], env, sink);
        proof {
            let o = run_instr(iv[k as int], env0, s_k);
            assert(run_instrs_from(iv, k as int, env0, s_k) == match o.err {
                Some(_) => o,
                None => run_instrs_from(iv, k as int + 1, env0, o.sink),
            });
        }
        match res {
            Ok(()) => {},
            Err(err) => {
                return Err(err);
            },
        }
    }
    Ok(())
}

impl Program {
    /// Runs the program against the given sink: each instruction in order,
    /// first failure — a sink failure or a rendering failure — returned
    /// verbatim, `Ok` when every instruction completed.
    pub fn run(&self, sink: &mut Sink) -> (r: Result<(), SinkError>)
        ensures
            ({
                let o = run_program(self.deep_view(), old(sink)@);
                final(sink)@ == o.sink && r == result_of(o)
            }),
    {
        let mut env: Vec<String> = Vec::new();
        proof {
            assert(env.deep_view() =~= Seq::<Seq<char>>::empty());
        }
        run_instrs_exec(&self.instrs, &mut env, sink)
    }
}

} // verus!
