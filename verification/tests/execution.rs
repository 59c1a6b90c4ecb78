// Execution: running a reified program against a sink reproduces the
// document text in order, escapes exactly once where asked, and
// short-circuits on the first failure with the sink's own error.

use markup_lower::escape::Escape;
use markup_lower::program::{Cond, Expr, Iterable, Pat};
use markup_lower::render::Renderer;
use markup_lower::sink::{Sink, SinkError};

#[test]
fn end_to_end_escaped_splice() {
    let mut r = Renderer::new();
    r.string("<p>", Escape::PassThru);
    r.splice(Expr::Lit("Hi & bye".to_string()), Escape::Escape);
    r.string("</p>", Escape::PassThru);
    let p = r.into_expr();
    let mut sink = Sink::new();
    assert_eq!(p.run(&mut sink), Ok(()));
    assert_eq!(sink.output(), "<p>Hi &amp; bye</p>");
}

#[test]
fn end_to_end_for_loop() {
    let parent = Renderer::new();
    let mut body = parent.fork();
    body.splice(Expr::Var(0), Escape::PassThru);
    let mut r = parent;
    r.emit_for(
        Pat { name: "x".to_string() },
        Iterable { items: vec!["1".to_string(), "2".to_string()] },
        body.into_stmts(),
    );
    let p = r.into_expr();
    let mut sink = Sink::new();
    assert_eq!(p.run(&mut sink), Ok(()));
    assert_eq!(sink.output(), "12");
}

#[test]
fn nested_loops_bind_innermost_first() {
    let root = Renderer::new();
    let mut inner = root.fork();
    inner.splice(Expr::Var(0), Escape::PassThru);
    inner.splice(Expr::Var(1), Escape::PassThru);
    let mut outer = root.fork();
    outer.emit_for(
        Pat { name: "y".to_string() },
        Iterable { items: vec!["1".to_string(), "2".to_string()] },
        inner.into_stmts(),
    );
    let mut r = root;
    r.emit_for(
        Pat { name: "x".to_string() },
        Iterable { items: vec!["a".to_string(), "b".to_string()] },
        outer.into_stmts(),
    );
    let p = r.into_expr();
    let mut sink = Sink::new();
    assert_eq!(p.run(&mut sink), Ok(()));
    assert_eq!(sink.output(), "1a2a1b2b");
}

#[test]
fn emit_text_escape_yields_escaped_text() {
    let mut r = Renderer::new();
    r.string("a<b>&\"c", Escape::Escape);
    let p = r.into_expr();
    let mut sink = Sink::new();
    assert_eq!(p.run(&mut sink), Ok(()));
    assert_eq!(sink.output(), "a&lt;b&gt;&amp;&quot;c");
}

#[test]
fn emit_text_passthru_yields_text_unchanged() {
    let mut r = Renderer::new();
    r.string("a<b>&\"c", Escape::PassThru);
    let p = r.into_expr();
    let mut sink = Sink::new();
    assert_eq!(p.run(&mut sink), Ok(()));
    assert_eq!(sink.output(), "a<b>&\"c");
}

#[test]
fn splice_escapes_at_execution_time() {
    let mut r = Renderer::new();
    r.splice(Expr::Lit("<b>".to_string()), Escape::Escape);
    r.splice(Expr::Lit("<b>".to_string()), Escape::PassThru);
    let p = r.into_expr();
    let mut sink = Sink::new();
    assert_eq!(p.run(&mut sink), Ok(()));
    assert_eq!(sink.output(), "&lt;b&gt;<b>");
}

#[test]
fn fail_fast_on_third_write() {
    let mut r = Renderer::new();
    r.string("a", Escape::PassThru);
    r.string("b", Escape::PassThru);
    r.string("c", Escape::PassThru);
    r.string("d", Escape::PassThru);
    let p = r.into_expr();
    let mut sink = Sink::failing_at(3, 7);
    assert_eq!(p.run(&mut sink), Err(SinkError { code: 7 }));
    // exactly the two writes before the failing one happened
    assert_eq!(sink.output(), "ab");
}

#[test]
fn fail_fast_on_first_write() {
    let mut r = Renderer::new();
    r.string("a", Escape::PassThru);
    let p = r.into_expr();
    let mut sink = Sink::failing_at(1, 9);
    assert_eq!(p.run(&mut sink), Err(SinkError { code: 9 }));
    assert_eq!(sink.output(), "");
}

#[test]
fn failure_point_beyond_last_write_is_never_reached() {
    let mut r = Renderer::new();
    r.string("a", Escape::PassThru);
    r.string("b", Escape::PassThru);
    let p = r.into_expr();
    let mut sink = Sink::failing_at(5, 7);
    assert_eq!(p.run(&mut sink), Ok(()));
    assert_eq!(sink.output(), "ab");
    assert_eq!(sink.remaining_until_failure(), Some(3));
}

#[test]
fn escaped_splice_is_one_write() {
    let mut r = Renderer::new();
    r.string("a", Escape::PassThru);
    r.splice(Expr::Lit("x&y".to_string()), Escape::Escape);
    r.string("b", Escape::PassThru);
    let p = r.into_expr();
    let mut sink = Sink::failing_at(2, 3);
    assert_eq!(p.run(&mut sink), Err(SinkError { code: 3 }));
    assert_eq!(sink.output(), "a");
}

#[test]
fn render_failure_aborts_with_its_code() {
    let mut r = Renderer::new();
    r.string("a", Escape::PassThru);
    r.splice(Expr::FailRender(42), Escape::PassThru);
    r.string("b", Escape::PassThru);
    let p = r.into_expr();
    let mut sink = Sink::new();
    assert_eq!(p.run(&mut sink), Err(SinkError { code: 42 }));
    assert_eq!(sink.output(), "a");
}

#[test]
fn empty_branch_is_legal_and_writes_nothing() {
    let mut r = Renderer::new();
    r.emit_if(Cond { value: true }, vec![], None);
    let p = r.into_expr();
    let mut sink = Sink::new();
    assert_eq!(p.run(&mut sink), Ok(()));
    assert_eq!(sink.output(), "");
}

#[test]
fn false_condition_without_else_writes_nothing() {
    let parent = Renderer::new();
    let mut thn = parent.fork();
    thn.string("T", Escape::PassThru);
    let mut r = parent;
    r.emit_if(Cond { value: false }, thn.into_stmts(), None);
    let p = r.into_expr();
    let mut sink = Sink::new();
    assert_eq!(p.run(&mut sink), Ok(()));
    assert_eq!(sink.output(), "");
}

#[test]
fn condition_picks_the_branch() {
    for (cond, expected) in [(true, "T"), (false, "E")] {
        let parent = Renderer::new();
        let mut thn = parent.fork();
        let mut els = parent.fork();
        thn.string("T", Escape::PassThru);
        els.string("E", Escape::PassThru);
        let mut r = parent;
        r.emit_if(Cond { value: cond }, thn.into_stmts(), Some(els.into_stmts()));
        let p = r.into_expr();
        let mut sink = Sink::new();
        assert_eq!(p.run(&mut sink), Ok(()));
        assert_eq!(sink.output(), expected);
    }
}

#[test]
fn empty_program_writes_nothing() {
    let r = Renderer::new();
    let p = r.into_expr();
    let mut sink = Sink::new();
    assert_eq!(p.run(&mut sink), Ok(()));
    assert_eq!(sink.output(), "");
}

#[test]
fn empty_iterable_runs_body_zero_times() {
    let parent = Renderer::new();
    let mut body = parent.fork();
    body.string("never", Escape::PassThru);
    let mut r = parent;
    r.emit_for(
        Pat { name: "x".to_string() },
        Iterable { items: vec![] },
        body.into_stmts(),
    );
    let p = r.into_expr();
    let mut sink = Sink::new();
    assert_eq!(p.run(&mut sink), Ok(()));
    assert_eq!(sink.output(), "");
}

#[test]
fn unbound_variable_renders_as_empty_text() {
    let mut r = Renderer::new();
    r.string("[", Escape::PassThru);
    r.splice(Expr::Var(0), Escape::PassThru);
    r.string("]", Escape::PassThru);
    let p = r.into_expr();
    let mut sink = Sink::new();
    assert_eq!(p.run(&mut sink), Ok(()));
    assert_eq!(sink.output(), "[]");
}

#[test]
fn output_order_matches_document_order() {
    let mut r = Renderer::new();
    r.element_open_start("a");
    r.attribute_start("href");
    r.string("u", Escape::Escape);
    r.attribute_end();
    r.element_open_end();
    r.splice(Expr::Lit("go".to_string()), Escape::Escape);
    r.element_close("a");
    let p = r.into_expr();
    let mut sink = Sink::new();
    assert_eq!(p.run(&mut sink), Ok(()));
    assert_eq!(sink.output(), "<a href=\"u\">go</a>");
}

#[test]
fn failure_inside_loop_stops_remaining_iterations() {
    let parent = Renderer::new();
    let mut body = parent.fork();
    body.splice(Expr::Var(0), Escape::PassThru);
    let mut r = parent;
    r.emit_for(
        Pat { name: "x".to_string() },
        Iterable {
            items: vec!["a".to_string(), "b".to_string(), "c".to_string()],
        },
        body.into_stmts(),
    );
    let p = r.into_expr();
    let mut sink = Sink::failing_at(3, 11);
    assert_eq!(p.run(&mut sink), Err(SinkError { code: 11 }));
    assert_eq!(sink.output(), "ab");
}
