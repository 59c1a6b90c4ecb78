//! The instruction set and the lowered program.
//!
//! A [`Program`] is an ordered sequence of primitive instructions; order is
//! significant and equals document order.  The opaque fragments a template
//! threads through the lowering stage — expressions, conditions, patterns,
//! iterables — are modelled by the plain values the host's expression layer
//! evaluates them to, so that a finished program can be run and reasoned
//! about without interpreting the host language itself.

use vstd::prelude::*;

use crate::escape::Escape;

verus! {

broadcast use vstd::std_specs::vec::axiom_vec_decreases_to_view, vstd::seq::axiom_seq_index_decreases;

/// An opaque expression fragment, modelled by how the host renders it.
///
/// The lowering stage never inspects an expression; it only threads it
/// through to a `WriteExpr` instruction.  At execution time the host renders
/// it to text: a `Lit` renders as its own text, a `Var` renders as the text
/// bound by the `k`-th enclosing loop (`0` is the innermost; an unbound
/// variable renders as empty text), and a `FailRender` aborts the run with
/// the given code.
#[derive(Clone, PartialEq, Eq, Debug)]
pub enum Expr {
    Lit(String),
    Var(usize),
    FailRender(u64),
}

/// An opaque condition fragment, modelled by the boolean the host evaluates
/// it to.
#[derive(Clone, PartialEq, Eq, Debug)]
pub struct Cond {
    pub value: bool,
}

/// An opaque pattern fragment: the name the loop binds.  The lowering stage
/// threads it through without interpreting it; execution binds loop items by
/// position.
#[derive(Clone, PartialEq, Eq, Debug)]
pub struct Pat {
    pub name: String,
}

/// An opaque iterable fragment, modelled by the texts the host's iteration
/// yields, in iteration order.
#[derive(Clone, PartialEq, Eq, Debug)]
pub struct Iterable {
    pub items: Vec<String>,
}

/// One primitive output instruction.
#[derive(PartialEq, Eq, Debug)]
pub enum Instruction {
    /// Text fully known at lowering time, already escaped if that was
    /// required.
    WriteLiteral(String),
    /// A runtime-rendered fragment plus the escaping mode applied during
    /// emission.
    WriteExpr(Expr, Escape),
    /// A conditional: the branch taken is itself a fully lowered program.
    /// An absent else-program means: on a false condition, execute nothing.
    If(Cond, Program, Option<Program>),
    /// A loop: the body program runs once per item, in iteration order,
    /// against the same sink as the enclosing scope.
    For(Pat, Iterable, Program),
}

/// An ordered sequence of instructions for one document scope.  Output byte
/// order equals instruction order at execution; no reordering is ever
/// permitted.
#[derive(PartialEq, Eq, Debug)]
pub struct Program {
    pub instrs: Vec<Instruction>,
}

/// Mathematical model of an expression fragment.
pub enum ExprV {
    Lit(Seq<char>),
    Var(int),
    FailRender(u64),
}

/// Mathematical model of one instruction: text as `Seq<char>`, programs as
/// sequences of models.
pub enum InstrV {
    WriteLiteral(Seq<char>),
    WriteExpr(ExprV, Escape),
    If(bool, Seq<InstrV>, Option<Seq<InstrV>>),
    For(Seq<char>, Seq<Seq<char>>, Seq<InstrV>),
}

impl DeepView for Expr {
    type V = ExprV;

    open spec fn deep_view(&self) -> ExprV {
        match *self {
            Expr::Lit(ref s) => ExprV::Lit(s@),
            Expr::Var(k) => ExprV::Var(k as int),
            Expr::FailRender(c) => ExprV::FailRender(c),
        }
    }
}

/// The model of an instruction.
pub open spec fn instr_view(i: Instruction) -> InstrV
    decreases i, 0int,
{
    match i {
        Instruction::WriteLiteral(s) => InstrV::WriteLiteral(s@),
        Instruction::WriteExpr(e, mode) => InstrV::WriteExpr(e.deep_view(), mode),
        Instruction::If(c, thn, els) => InstrV::If(
            c.value,
            instrs_view_from(thn.instrs@, 0),
            match els {
                Some(p) => Some(instrs_view_from(p.instrs@, 0)),
                None => None,
            },
        ),
        Instruction::For(p, it, body) => InstrV::For(
            p.name@,
            it.items.deep_view(),
            instrs_view_from(body.instrs@, 0),
        ),
    }
}

/// The models of the instructions from position `k` on, in order.
pub open spec fn instrs_view_from(s: Seq<Instruction>, k: int) -> Seq<InstrV>
    decreases s, s.len() - k,
{
    if 0 <= k < s.len() {
        seq![instr_view(s[k])] + instrs_view_from(s, k + 1)
    } else {
        Seq::empty()
    }
}

/// The model of an instruction sequence.
pub open spec fn instrs_view(s: Seq<Instruction>) -> Seq<InstrV> {
    instrs_view_from(s, 0)
}

/// `instrs_view` models the sequence elementwise, in order.
pub proof fn lemma_instrs_view_from(s: Seq<Instruction>, k: int)
    requires
        0 <= k <= s.len(),
    ensures
        instrs_view_from(s, k).len() == s.len() - k,
        forall|j: int|
            0 <= j < s.len() - k ==> instrs_view_from(s, k)[j] == instr_view(s[k + j]),
    decreases s.len() - k,
{
    if k < s.len() {
        lemma_instrs_view_from(s, k + 1);
    }
}

/// The element at `j` of the model of a whole sequence.
pub proof fn lemma_instrs_view_index(s: Seq<Instruction>, j: int)
    requires
        0 <= j < s.len(),
    ensures
        instrs_view(s).len() == s.len(),
        instrs_view(s)[j] == instr_view(s[j]),
{
    lemma_instrs_view_from(s, 0);
}

/// Appending one instruction appends its model.
pub proof fn lemma_instrs_view_push(s: Seq<Instruction>, x: Instruction)
    ensures
        instrs_view(s.push(x)) == instrs_view(s).push(instr_view(x)),
{
    lemma_instrs_view_from(s, 0);
    lemma_instrs_view_from(s.push(x), 0);
    assert(instrs_view(s.push(x)) =~= instrs_view(s).push(instr_view(x)));
}

/// Concatenating instruction sequences concatenates their models.
pub proof fn lemma_instrs_view_concat(a: Seq<Instruction>, b: Seq<Instruction>)
    ensures
        instrs_view(a + b) == instrs_view(a) + instrs_view(b),
{
    lemma_instrs_view_from(a, 0);
    lemma_instrs_view_from(b, 0);
    lemma_instrs_view_from(a + b, 0);
    assert(instrs_view(a + b) =~= instrs_view(a) + instrs_view(b));
}

impl DeepView for Instruction {
    type V = InstrV;

    open spec fn deep_view(&self) -> InstrV {
        instr_view(*self)
    }
}

impl DeepView for Program {
    type V = Seq<InstrV>;

    open spec fn deep_view(&self) -> Seq<InstrV> {
        instrs_view(self.instrs@)
    }
}

} // verus!
