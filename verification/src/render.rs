//! The builder that accumulates the instruction sequence for one lexical
//! scope.
//!
//! A [`Renderer`] is exclusively owned by the lowering routine of one scope
//! (one template body, one branch arm, one loop body).  It is mutated only
//! by append operations, and consumed exactly once by reification
//! ([`Renderer::into_expr`] or [`Renderer::into_stmts`]).  Forking creates
//! an independent builder that shares only the sink identity, never the
//! instruction list.

use vstd::prelude::*;

use crate::escape::{escape_apply, escape_str, Escape};
use crate::program::{
    instrs_view, lemma_instrs_view_concat, lemma_instrs_view_push, Cond, Expr, Instruction,
    InstrV, Iterable, Pat, Program,
};

verus! {

/// Mathematical model of a builder: the models of its pending
/// instructions, in append order, and the identity of the output sink the
/// emitted program will be bound to.
#[verifier::ext_equal]
pub struct RendererV {
    pub stmts: Seq<InstrV>,
    pub w: int,
}

/// The model of a fresh fork of a builder: no instructions of its own,
/// the parent's sink identity.
pub open spec fn forked(parent: RendererV) -> RendererV {
    RendererV { stmts: Seq::empty(), w: parent.w }
}

/// The model of a builder after a sequence of appends: the instructions
/// extended in order, the sink identity untouched.  Every append operation
/// extends the model this way.
pub open spec fn after_appends(r: RendererV, appended: Seq<InstrV>) -> RendererV {
    RendererV { stmts: r.stmts + appended, w: r.w }
}

/// The in-progress instruction accumulator for one scope.
pub struct Renderer {
    stmts: Vec<Instruction>,
    w: u64,
}

impl View for Renderer {
    type V = RendererV;

    closed spec fn view(&self) -> RendererV {
        RendererV { stmts: instrs_view(self.stmts@), w: self.w as int }
    }
}

impl Renderer {
    /// Creates a builder with no pending instructions, bound to the default
    /// output sink.
    pub fn new() -> (r: Renderer)
        ensures
            r@.stmts == Seq::<InstrV>::empty(),
            r@.w == 0,
    {
        let r = Renderer { stmts: Vec::new(), w: 0 };
        proof {
            crate::program::lemma_instrs_view_from(r.stmts@, 0);
            assert(r@.stmts =~= Seq::<InstrV>::empty());
        }
        r
    }

    /// Creates an independent builder for a nested scope.  It starts with
    /// no instructions of its own and shares only the sink identity with
    /// `self`; appending to either builder never affects the other.
    pub fn fork(&self) -> (r: Renderer)
        ensures
            r@ == forked(self@),
            r@.stmts == Seq::<InstrV>::empty(),
            r@.w == self@.w,
    {
        let r = Renderer { stmts: Vec::new(), w: self.w };
        proof {
            crate::program::lemma_instrs_view_from(r.stmts@, 0);
            assert(r@.stmts =~= Seq::<InstrV>::empty());
            assert(r@ =~= forked(self@));
        }
        r
    }

    /// Reifies the builder into a standalone runnable program holding
    /// exactly the accumulated instructions, in order.  Consumes the
    /// builder: a reified scope is never appended to again.
    pub fn into_expr(self) -> (p: Program)
        ensures
            p.deep_view() == self@.stmts,
    {
        Program { instrs: self.stmts }
    }

    /// Reifies the builder into its raw instruction sequence, for splicing
    /// into a parent scope.  Consumes the builder.
    pub fn into_stmts(self) -> (v: Vec<Instruction>)
        ensures
            instrs_view(v@) == self@.stmts,
    {
        self.stmts
    }

    /// Appends a whole instruction sequence, preserving its order, after
    /// the instructions already accumulated.
    pub fn push_stmts(&mut self, stmts: Vec<Instruction>)
        ensures
            final(self)@ == after_appends(old(self)@, instrs_view(stmts@)),
            final(self)@.stmts == old(self)@.stmts + instrs_view(stmts@),
            final(self)@.w == old(self)@.w,
    {
        let ghost s0 = self.stmts@;
        let ghost s1 = stmts@;
        let mut stmts = stmts;
        self.stmts.append(&mut stmts);
        proof {
            lemma_instrs_view_concat(s0, s1);
            assert(self@ =~= after_appends(old(self)@, instrs_view(s1)));
        }
    }

    /// Appends one instruction.
    fn push(&mut self, i: Instruction)
        ensures
            final(self)@.stmts == old(self)@.stmts.push(crate::program::instr_view(i)),
            final(self)@.w == old(self)@.w,
    {
        let ghost s0 = self.stmts@;
        let ghost gi = i;
        self.stmts.push(i);
        proof {
            lemma_instrs_view_push(s0, gi);
        }
    }

    /// Appends a literal write of text that is already escaped as far as it
    /// ever will be: the caller has decided and applied the escaping.
    fn write(&mut self, s: &str)
        ensures
            final(self)@.stmts == old(self)@.stmts.push(InstrV::WriteLiteral(s@)),
            final(self)@.w == old(self)@.w,
    {
        self.push(Instruction::WriteLiteral(s.to_owned()));
    }

    /// Appends a literal write of `s` under the given escaping mode: the
    /// text is escaped first iff the mode is `Escape`.
    pub fn string(&mut self, s: &str, escape: Escape)
        ensures
            final(self)@.stmts == old(self)@.stmts.push(
                InstrV::WriteLiteral(escape_apply(escape, s@)),
            ),
            final(self)@.w == old(self)@.w,
    {
        match escape {
            Escape::PassThru => self.write(s),
            Escape::Escape => {
                let escaped = escape_str(s);
                self.write(escaped.as_str());
            },
        }
    }

    /// Appends a runtime expression write.  The expression is threaded
    /// through opaquely; the escaping mode is applied during emission, when
    /// the program runs.
    pub fn splice(&mut self, expr: Expr, escape: Escape)
        ensures
            final(self)@.stmts == old(self)@.stmts.push(
                InstrV::WriteExpr(expr.deep_view(), escape),
            ),
            final(self)@.w == old(self)@.w,
    {
        self.push(Instruction::WriteExpr(expr, escape));
    }

    /// Appends the opening of a start tag: `<name`.
    pub fn element_open_start(&mut self, name: &str)
        ensures
            final(self)@.stmts == old(self)@.stmts + seq![
                InstrV::WriteLiteral("<"@),
                InstrV::WriteLiteral(name@),
            ],
            final(self)@.w == old(self)@.w,
    {
        self.write("<");
        self.write(name);
        proof {
            assert(self@.stmts =~= old(self)@.stmts + seq![
                InstrV::WriteLiteral("<"@),
                InstrV::WriteLiteral(name@),
            ]);
        }
    }

    /// Appends the opening of a valued attribute: ` name="`.
    pub fn attribute_start(&mut self, name: &str)
        ensures
            final(self)@.stmts == old(self)@.stmts + seq![
                InstrV::WriteLiteral(" "@),
                InstrV::WriteLiteral(name@),
                InstrV::WriteLiteral("=\""@),
            ],
            final(self)@.w == old(self)@.w,
    {
        self.write(" ");
        self.write(name);
        self.write("=\"");
        proof {
            assert(self@.stmts =~= old(self)@.stmts + seq![
                InstrV::WriteLiteral(" "@),
                InstrV::WriteLiteral(name@),
                InstrV::WriteLiteral("=\""@),
            ]);
        }
    }

    /// Appends a valueless attribute: ` name`.
    pub fn attribute_empty(&mut self, name: &str)
        ensures
            final(self)@.stmts == old(self)@.stmts + seq![
                InstrV::WriteLiteral(" "@),
                InstrV::WriteLiteral(name@),
            ],
            final(self)@.w == old(self)@.w,
    {
        self.write(" ");
        self.write(name);
        proof {
            assert(self@.stmts =~= old(self)@.stmts + seq![
                InstrV::WriteLiteral(" "@),
                InstrV::WriteLiteral(name@),
            ]);
        }
    }

    /// Appends the closing quote of a valued attribute: `"`.
    pub fn attribute_end(&mut self)
        ensures
            final(self)@.stmts == old(self)@.stmts.push(InstrV::WriteLiteral("\""@)),
            final(self)@.w == old(self)@.w,
    {
        self.write("\"");
    }

    /// Appends the end of a start tag: `>`.
    pub fn element_open_end(&mut self)
        ensures
            final(self)@.stmts == old(self)@.stmts.push(InstrV::WriteLiteral(">"@)),
            final(self)@.w == old(self)@.w,
    {
        self.write(">");
    }

    /// Appends a closing tag: `</name>`.
    pub fn element_close(&mut self, name: &str)
        ensures
            final(self)@.stmts == old(self)@.stmts + seq![
                InstrV::WriteLiteral("</"@),
                InstrV::WriteLiteral(name@),
                InstrV::WriteLiteral(">"@),
            ],
            final(self)@.w == old(self)@.w,
    {
        self.write("</");
        self.write(name);
        self.write(">");
        proof {
            assert(self@.stmts =~= old(self)@.stmts + seq![
                InstrV::WriteLiteral("</"@),
                InstrV::WriteLiteral(name@),
                InstrV::WriteLiteral(">"@),
            ]);
        }
    }

    /// Appends a single `If` instruction wrapping the already lowered
    /// branch programs.  An empty branch is legal and lowers to an empty
    /// program; an absent else-branch stays absent, it is not an implicit
    /// empty branch.
    pub fn emit_if(&mut self, if_cond: Cond, if_body: Vec<Instruction>, else_body: Option<
        Vec<Instruction>,
    >)
        ensures
            final(self)@.stmts == old(self)@.stmts.push(
                InstrV::If(
                    if_cond.value,
                    instrs_view(if_body@),
                    match else_body {
                        Some(e) => Some(instrs_view(e@)),
                        None => None,
                    },
                ),
            ),
            final(self)@.w == old(self)@.w,
    {
        let els = match else_body {
            Some(e) => Some(Program { instrs: e }),
            None => None,
        };
        self.push(Instruction::If(if_cond, Program { instrs: if_body }, els));
    }

    /// Appends a single `For` instruction wrapping the already lowered body
    /// program.  The body shares the output sink of the enclosing scope and
    /// will run once per item, in iteration order.
    pub fn emit_for(&mut self, pattern: Pat, iterable: Iterable, body: Vec<Instruction>)
        ensures
            final(self)@.stmts == old(self)@.stmts.push(
                InstrV::For(pattern.name@, iterable.items.deep_view(), instrs_view(body@)),
            ),
            final(self)@.w == old(self)@.w,
    {
        self.push(Instruction::For(pattern, iterable, Program { instrs: body }));
    }
}

} // verus!
