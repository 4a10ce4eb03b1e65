use ir_emit::constant::Constant;
use ir_emit::context::Context;
use ir_emit::decl::{Args, FunDef};
use ir_emit::expr::{add_counts, any_reads_callee, count_temps_each, Expr, Postfix};
use ir_emit::ops::{Binary, Prefix};
use ir_emit::types::TypeDef;

fn id(name: &str) -> Expr {
    Expr::Identifier(name.to_owned())
}

fn lowered(c: Expr) -> Expr {
    Expr::If(Box::new(c), vec![], vec![])
}

fn plain(c: Expr, t: Expr, e: Expr) -> Expr {
    Expr::If(Box::new(c), vec![t], vec![e])
}

#[test]
fn counts_add_up_or_give_out() {
    assert_eq!(add_counts(Some(2), Some(3)), Some(5));
    assert_eq!(add_counts(Some(0), Some(0)), Some(0));
    assert_eq!(add_counts(Some(usize::MAX), Some(0)), Some(usize::MAX));
    assert_eq!(add_counts(Some(usize::MAX), Some(1)), None);
    assert_eq!(add_counts(None, Some(1)), None);
    assert_eq!(add_counts(Some(1), None), None);
    assert_eq!(add_counts(None, None), None);
}

#[test]
fn leaves_need_no_temporary() {
    assert_eq!(id("x").count_temps(), Some(0));
    assert_eq!(Expr::Callee.count_temps(), Some(0));
    assert_eq!(Expr::Constant(Constant::Boolean(true)).count_temps(), Some(0));
    assert_eq!(plain(id("c"), id("a"), id("b")).count_temps(), Some(0));
}

#[test]
fn one_temporary_for_each_lowered_conditional() {
    assert_eq!(lowered(id("c")).count_temps(), Some(1));
    let nested = Expr::If(
        Box::new(lowered(id("p"))),
        vec![lowered(id("q")), id("a")],
        vec![plain(lowered(id("r")), id("b"), id("d"))],
    );
    assert_eq!(nested.count_temps(), Some(4));
    let sum = Expr::BinOp(Box::new(lowered(id("p"))), Binary::Add, Box::new(lowered(id("q"))));
    assert_eq!(sum.count_temps(), Some(2));
    let negated = Expr::PreOp(Box::new(lowered(id("p"))), Prefix::Neg);
    assert_eq!(negated.count_temps(), Some(1));
    let called = Expr::PostOp(
        Box::new(lowered(id("f"))),
        Postfix::FunCall(vec![lowered(id("a")), id("b"), lowered(id("c"))]),
    );
    assert_eq!(called.count_temps(), Some(3));
    let indexed = Postfix::Index(Box::new(lowered(id("i"))));
    assert_eq!(indexed.count_temps(), Some(1));
    assert_eq!(count_temps_each(&vec![lowered(id("a")), id("b"), lowered(id("c"))]), Some(2));
    assert_eq!(count_temps_each(&vec![]), Some(0));
}

#[test]
fn count_matches_what_rendering_allocates() {
    let e = Expr::If(
        Box::new(lowered(id("p"))),
        vec![lowered(id("q")), id("a")],
        vec![plain(lowered(id("r")), id("b"), id("d"))],
    );
    let mut ctx = Context::new();
    ctx.local_var.count = 3;
    let expected = e.count_temps().unwrap();
    e.emit(&mut ctx);
    assert_eq!(ctx.local_var.count, 3 + expected);
}

#[test]
fn function_literal_body_is_not_counted() {
    let e = Expr::FunTree(Args { args: vec![] }, vec![lowered(id("c")), Expr::Callee]);
    assert_eq!(e.count_temps(), Some(0));
    assert!(!e.reads_callee());
    assert!(e.can_emit(&Context::new()));
}

#[test]
fn self_call_is_found_wherever_it_is_rendered() {
    assert!(Expr::Callee.reads_callee());
    assert!(!id("x").reads_callee());
    assert!(!Expr::Constant(Constant::Integer(1)).reads_callee());
    assert!(Expr::BinOp(Box::new(id("a")), Binary::Add, Box::new(Expr::Callee)).reads_callee());
    assert!(Expr::PreOp(Box::new(Expr::Callee), Prefix::Neg).reads_callee());
    assert!(Expr::PostOp(Box::new(id("f")), Postfix::FunCall(vec![id("a"), Expr::Callee])).reads_callee());
    assert!(!Expr::PostOp(Box::new(id("f")), Postfix::FunCall(vec![id("a")])).reads_callee());
    assert!(Postfix::Index(Box::new(Expr::Callee)).reads_callee());
    assert!(Expr::If(Box::new(id("c")), vec![id("a"), Expr::Callee], vec![]).reads_callee());
    assert!(Expr::If(Box::new(id("c")), vec![], vec![Expr::Callee]).reads_callee());
    assert!(!plain(id("c"), id("a"), id("b")).reads_callee());
    assert!(any_reads_callee(&vec![id("a"), Expr::Callee]));
    assert!(!any_reads_callee(&vec![id("a"), id("b")]));
    assert!(!any_reads_callee(&vec![]));
}

#[test]
fn self_call_needs_an_enclosing_function() {
    let mut ctx = Context::new();
    assert!(!Expr::Callee.can_emit(&ctx));
    assert!(id("x").can_emit(&ctx));
    ctx.callee.push("f".to_owned());
    assert!(Expr::Callee.can_emit(&ctx));
}

#[test]
fn exhausted_counter_is_refused() {
    let mut ctx = Context::new();
    ctx.local_var.count = usize::MAX;
    assert!(id("x").can_emit(&ctx));
    assert!(!lowered(id("c")).can_emit(&ctx));
    ctx.local_var.count = usize::MAX - 1;
    assert!(lowered(id("c")).can_emit(&ctx));
    let two = Expr::BinOp(Box::new(lowered(id("p"))), Binary::Add, Box::new(lowered(id("q"))));
    assert!(!two.can_emit(&ctx));
    assert_eq!(lowered(id("c")).emit(&mut ctx), format!("(_{} ? nullptr : nullptr)", usize::MAX));
    assert_eq!(ctx.local_var.count, usize::MAX);
}

#[test]
fn function_is_ready_when_its_body_fits() {
    let f = FunDef {
        label: "f".to_owned(),
        ret: TypeDef::Void,
        args: Args { args: vec![] },
        procs: vec![lowered(id("c")), Expr::Callee],
    };
    let mut ctx = Context::new();
    assert!(f.can_emit(&ctx));
    ctx.local_var.count = usize::MAX;
    assert!(!f.can_emit(&ctx));
    ctx.local_var.count = usize::MAX - 1;
    assert!(f.can_emit(&ctx));
}
