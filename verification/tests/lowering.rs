// Lowering: the builder appends instructions in call order, forks are
// independent, and reification hands back exactly what was accumulated.

use markup_lower::escape::Escape;
use markup_lower::program::{Cond, Expr, Instruction, Iterable, Pat, Program};
use markup_lower::render::Renderer;

#[test]
fn lowers_to_instructions_in_document_order() {
    let mut r = Renderer::new();
    r.string("<p>", Escape::PassThru);
    r.splice(Expr::Lit("Hi & bye".to_string()), Escape::Escape);
    r.string("</p>", Escape::PassThru);
    let p = r.into_expr();
    assert_eq!(
        p,
        Program {
            instrs: vec![
                Instruction::WriteLiteral("<p>".to_string()),
                Instruction::WriteExpr(Expr::Lit("Hi & bye".to_string()), Escape::Escape),
                Instruction::WriteLiteral("</p>".to_string()),
            ],
        }
    );
}

#[test]
fn string_with_escape_escapes_at_lowering_time() {
    let mut r = Renderer::new();
    r.string("a<b>&\"c", Escape::Escape);
    let v = r.into_stmts();
    assert_eq!(
        v,
        vec![Instruction::WriteLiteral("a&lt;b&gt;&amp;&quot;c".to_string())]
    );
}

#[test]
fn string_with_passthru_is_verbatim() {
    let mut r = Renderer::new();
    r.string("a<b>&\"c", Escape::PassThru);
    let v = r.into_stmts();
    assert_eq!(v, vec![Instruction::WriteLiteral("a<b>&\"c".to_string())]);
}

#[test]
fn structural_helpers_compose_the_tag_grammar() {
    let mut r = Renderer::new();
    r.element_open_start("p");
    r.attribute_start("class");
    r.string("x", Escape::Escape);
    r.attribute_end();
    r.attribute_empty("hidden");
    r.element_open_end();
    r.string("hi", Escape::Escape);
    r.element_close("p");
    let v = r.into_stmts();
    let lits: Vec<String> = v
        .iter()
        .map(|i| match i {
            Instruction::WriteLiteral(t) => t.clone(),
            _ => panic!("only literals expected"),
        })
        .collect();
    assert_eq!(
        lits.concat(),
        "<p class=\"x\" hidden>hi</p>".to_string()
    );
}

#[test]
fn fork_starts_empty_and_siblings_are_independent() {
    let mut parent = Renderer::new();
    parent.string("parent", Escape::PassThru);
    let mut f1 = parent.fork();
    let mut f2 = parent.fork();
    f1.string("one", Escape::PassThru);
    f2.string("two", Escape::PassThru);
    let v1 = f1.into_stmts();
    let v2 = f2.into_stmts();
    assert_eq!(v1, vec![Instruction::WriteLiteral("one".to_string())]);
    assert_eq!(v2, vec![Instruction::WriteLiteral("two".to_string())]);
    // the parent kept only its own instructions
    let vp = parent.into_stmts();
    assert_eq!(vp, vec![Instruction::WriteLiteral("parent".to_string())]);
}

#[test]
fn forked_programs_compose_into_an_if() {
    let parent = Renderer::new();
    let mut thn = parent.fork();
    let mut els = parent.fork();
    thn.string("T", Escape::PassThru);
    els.string("E", Escape::PassThru);
    let mut r = parent;
    r.emit_if(Cond { value: true }, thn.into_stmts(), Some(els.into_stmts()));
    let p = r.into_expr();
    assert_eq!(
        p,
        Program {
            instrs: vec![Instruction::If(
                Cond { value: true },
                Program { instrs: vec![Instruction::WriteLiteral("T".to_string())] },
                Some(Program { instrs: vec![Instruction::WriteLiteral("E".to_string())] }),
            )],
        }
    );
}

#[test]
fn emit_for_wraps_the_lowered_body() {
    let parent = Renderer::new();
    let mut body = parent.fork();
    body.splice(Expr::Var(0), Escape::PassThru);
    let mut r = parent;
    r.emit_for(
        Pat { name: "x".to_string() },
        Iterable { items: vec!["1".to_string(), "2".to_string()] },
        body.into_stmts(),
    );
    let p = r.into_expr();
    assert_eq!(
        p,
        Program {
            instrs: vec![Instruction::For(
                Pat { name: "x".to_string() },
                Iterable { items: vec!["1".to_string(), "2".to_string()] },
                Program {
                    instrs: vec![Instruction::WriteExpr(Expr::Var(0), Escape::PassThru)],
                },
            )],
        }
    );
}

#[test]
fn push_stmts_appends_in_order() {
    let mut r = Renderer::new();
    r.string("a", Escape::PassThru);
    let mut sub = r.fork();
    sub.string("b", Escape::PassThru);
    sub.string("c", Escape::PassThru);
    r.push_stmts(sub.into_stmts());
    r.string("d", Escape::PassThru);
    let v = r.into_stmts();
    assert_eq!(
        v,
        vec![
            Instruction::WriteLiteral("a".to_string()),
            Instruction::WriteLiteral("b".to_string()),
            Instruction::WriteLiteral("c".to_string()),
            Instruction::WriteLiteral("d".to_string()),
        ]
    );
}

#[test]
fn into_stmts_and_into_expr_agree() {
    let mut r1 = Renderer::new();
    let mut r2 = Renderer::new();
    r1.string("x", Escape::Escape);
    r2.string("x", Escape::Escape);
    let p = r1.into_expr();
    let v = r2.into_stmts();
    assert_eq!(p, Program { instrs: v });
}
