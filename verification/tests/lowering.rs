use ir_emit::constant::Constant;
use ir_emit::context::Context;
use ir_emit::decl::{Args, FunDef};
use ir_emit::expr::{emit_each, if_block_string, ternary_string, Expr, Postfix};
use ir_emit::ops::{Binary, Prefix};
use ir_emit::text::{append_terminated, digit_char, join_strings, push_decimal};
use ir_emit::types::TypeDef;

fn id(name: &str) -> Expr {
    Expr::Identifier(name.to_owned())
}

fn num(v: i64) -> Expr {
    Expr::Constant(Constant::Integer(v))
}

fn bin(l: Expr, op: Binary, r: Expr) -> Expr {
    Expr::BinOp(Box::new(l), op, Box::new(r))
}

fn call(f: Expr, args: Vec<Expr>) -> Expr {
    Expr::PostOp(Box::new(f), Postfix::FunCall(args))
}

fn cond(c: Expr, t: Vec<Expr>, e: Vec<Expr>) -> Expr {
    Expr::If(Box::new(c), t, e)
}

fn fib() -> FunDef {
    FunDef {
        label: "fib".to_owned(),
        ret: TypeDef::Int32,
        args: Args { args: vec![("n".to_owned(), TypeDef::Int32)] },
        procs: vec![cond(
            bin(id("n"), Binary::LessEq, num(1)),
            vec![id("n")],
            vec![bin(
                call(Expr::Callee, vec![bin(id("n"), Binary::Sub, num(2))]),
                Binary::Add,
                call(Expr::Callee, vec![bin(id("n"), Binary::Sub, num(1))]),
            )],
        )],
    }
}

#[test]
fn fib_renders_as_one_return_statement() {
    let mut ctx = Context::new();
    let text = fib().emit(&mut ctx);
    assert_eq!(
        text,
        "int32_t _fn_fib(int32_t n) {\nreturn (n <= 1 ? n : fib(n - 2) + fib(n - 1));\n}\n"
    );
    assert!(ctx.callee.is_empty());
    assert_eq!(ctx.buf, "");
    assert_eq!(ctx.local_var.count, 0);
}

#[test]
fn caller_of_fib_renders_after_it_in_the_same_context() {
    let mut ctx = Context::new();
    let main = FunDef {
        label: "main".to_owned(),
        ret: TypeDef::Int32,
        args: Args { args: vec![] },
        procs: vec![call(id("fib"), vec![num(42)])],
    };
    let first = fib().emit(&mut ctx);
    let second = main.emit(&mut ctx);
    assert!(first.starts_with("int32_t _fn_fib(int32_t n) {\n"));
    assert_eq!(second, "int32_t _fn_main() {\nreturn fib(42);\n}\n");
    assert!(ctx.callee.is_empty());
}

#[test]
fn binary_operation_is_joined_by_single_spaces() {
    let mut ctx = Context::new();
    assert_eq!(bin(id("a"), Binary::Mul, id("b")).emit(&mut ctx), "a * b");
    let nested = bin(bin(id("a"), Binary::Add, id("b")), Binary::Mul, id("c"));
    assert_eq!(nested.emit(&mut ctx), "a + b * c");
    let right = bin(id("a"), Binary::ShiftLeft, bin(id("b"), Binary::BitXor, num(3)));
    assert_eq!(right.emit(&mut ctx), "a << b ^ 3");
}

#[test]
fn call_lists_its_arguments() {
    let mut ctx = Context::new();
    assert_eq!(call(id("f"), vec![]).emit(&mut ctx), "f()");
    assert_eq!(call(id("f"), vec![num(1)]).emit(&mut ctx), "f(1)");
    assert_eq!(
        call(id("f"), vec![num(1), id("x"), bin(id("y"), Binary::Div, num(2))]).emit(&mut ctx),
        "f(1, x, y / 2)"
    );
}

#[test]
fn postfix_renders_alone() {
    let mut ctx = Context::new();
    assert_eq!(Postfix::FunCall(vec![id("a"), id("b")]).emit(&mut ctx), "(a, b)");
    assert_eq!(Postfix::Index(Box::new(num(0))).emit(&mut ctx), "[0]");
}

#[test]
fn index_is_bracketed() {
    let mut ctx = Context::new();
    let e = Expr::PostOp(Box::new(id("xs")), Postfix::Index(Box::new(bin(id("i"), Binary::Add, num(1)))));
    assert_eq!(e.emit(&mut ctx), "xs[i + 1]");
}

#[test]
fn negation_is_prepended() {
    let mut ctx = Context::new();
    assert_eq!(Expr::PreOp(Box::new(id("x")), Prefix::Neg).emit(&mut ctx), "-x");
    assert_eq!(Expr::PreOp(Box::new(num(-3)), Prefix::Neg).emit(&mut ctx), "--3");
}

#[test]
fn identifier_and_constant_render_verbatim() {
    let mut ctx = Context::new();
    assert_eq!(id("some_name").emit(&mut ctx), "some_name");
    assert_eq!(Expr::Constant(Constant::Boolean(true)).emit(&mut ctx), "true");
    assert_eq!(ctx.buf, "");
    assert_eq!(ctx.local_var.count, 0);
}

#[test]
fn self_call_resolves_to_the_innermost_function() {
    let mut ctx = Context::new();
    ctx.callee.push("outer".to_owned());
    assert_eq!(Expr::Callee.emit(&mut ctx), "outer");
    ctx.callee.push("inner".to_owned());
    assert_eq!(call(Expr::Callee, vec![num(0)]).emit(&mut ctx), "inner(0)");
    assert_eq!(ctx.callee, vec!["outer".to_owned(), "inner".to_owned()]);
}

#[test]
fn function_literal_has_parameters_and_an_empty_body() {
    let mut ctx = Context::new();
    let e = Expr::FunTree(
        Args { args: vec![("x".to_owned(), TypeDef::Int64)] },
        vec![cond(id("c"), vec![id("a"), id("b")], vec![]), Expr::Callee],
    );
    assert_eq!(e.emit(&mut ctx), "[](int64_t x){\n}\n");
    assert_eq!(ctx.local_var.count, 0);
    assert_eq!(ctx.buf, "");
}

#[test]
fn single_branches_make_a_ternary() {
    let mut ctx = Context::new();
    let e = cond(bin(id("a"), Binary::Less, id("b")), vec![id("a")], vec![id("b")]);
    let c = bin(id("a"), Binary::Less, id("b")).emit(&mut ctx);
    let t = id("a").emit(&mut ctx);
    let f = id("b").emit(&mut ctx);
    assert_eq!(e.emit(&mut ctx), format!("({} ? {} : {})", c, t, f));
    assert_eq!(e.emit(&mut ctx), "(a < b ? a : b)");
    assert_eq!(ctx.local_var.count, 0);
    assert_eq!(ctx.buf, "");
}

#[test]
fn nested_ternaries_stay_expressions() {
    let mut ctx = Context::new();
    let inner = cond(id("q"), vec![num(1)], vec![num(2)]);
    let e = cond(id("p"), vec![inner], vec![num(3)]);
    assert_eq!(e.emit(&mut ctx), "(p ? (q ? 1 : 2) : 3)");
    assert_eq!(ctx.local_var.count, 0);
}

#[test]
fn statement_branches_are_lowered_to_a_block() {
    let mut ctx = Context::new();
    let e = cond(
        id("c"),
        vec![call(id("f"), vec![]), call(id("g"), vec![num(1)]), id("x")],
        vec![call(id("h"), vec![]), id("y")],
    );
    let value = e.emit(&mut ctx);
    assert_eq!(value, "(_1 ? nullptr : nullptr)");
    assert_eq!(
        ctx.buf,
        "bool _1;if (c) {\nf()\ng(1)\nx\n} else {\nh()\ny\n}\n"
    );
    assert_eq!(ctx.local_var.count, 1);
}

#[test]
fn block_holds_each_branch_statement_once_and_in_order() {
    let mut ctx = Context::new();
    let then_names = ["t0", "t1", "t2", "t3"];
    let else_names = ["e0", "e1", "e2"];
    let e = cond(
        id("c"),
        then_names.iter().map(|n| id(n)).collect(),
        else_names.iter().map(|n| id(n)).collect(),
    );
    e.emit(&mut ctx);
    let text = ctx.buf.clone();
    let open = text.find("if (c) {\n").unwrap() + "if (c) {\n".len();
    let close = text.find("} else {\n").unwrap();
    let then_lines: Vec<&str> = text[open..close].lines().collect();
    assert_eq!(then_lines, then_names);
    let rest = &text[close + "} else {\n".len()..];
    let else_lines: Vec<&str> = rest[..rest.len() - "}\n".len()].lines().collect();
    assert_eq!(else_lines, else_names);
}

#[test]
fn empty_else_leaves_the_else_block_out() {
    let mut ctx = Context::new();
    let e = cond(id("c"), vec![id("a")], vec![]);
    assert_eq!(e.emit(&mut ctx), "(_1 ? nullptr : nullptr)");
    assert_eq!(ctx.buf, "bool _1;if (c) {\na\n}");
}

#[test]
fn empty_then_with_an_else_keeps_both_blocks() {
    let mut ctx = Context::new();
    let e = cond(id("c"), vec![], vec![id("a")]);
    assert_eq!(e.emit(&mut ctx), "(_1 ? nullptr : nullptr)");
    assert_eq!(ctx.buf, "bool _1;if (c) {\n} else {\na\n}\n");
}

#[test]
fn both_branches_empty() {
    let mut ctx = Context::new();
    let e = cond(id("c"), vec![], vec![]);
    assert_eq!(e.emit(&mut ctx), "(_1 ? nullptr : nullptr)");
    assert_eq!(ctx.buf, "bool _1;if (c) {\n}");
    assert_eq!(ctx.local_var.count, 1);
}

#[test]
fn one_long_branch_is_enough_to_lower() {
    let mut ctx = Context::new();
    let e = cond(id("c"), vec![id("a")], vec![id("b"), id("d")]);
    assert_eq!(e.emit(&mut ctx), "(_1 ? nullptr : nullptr)");
    assert_eq!(ctx.buf, "bool _1;if (c) {\na\n} else {\nb\nd\n}\n");
}

#[test]
fn each_lowered_conditional_gets_its_own_temporary() {
    let mut ctx = Context::new();
    let first = cond(id("p"), vec![id("a"), id("b")], vec![]);
    let second = cond(id("q"), vec![id("c"), id("d")], vec![]);
    let e = bin(first, Binary::Add, second);
    assert_eq!(e.emit(&mut ctx), "(_1 ? nullptr : nullptr) + (_2 ? nullptr : nullptr)");
    assert_eq!(
        ctx.buf,
        "bool _1;if (p) {\na\nb\n}bool _2;if (q) {\nc\nd\n}"
    );
    assert_eq!(ctx.local_var.count, 2);
}

#[test]
fn temporaries_continue_from_the_context() {
    let mut ctx = Context::new();
    ctx.local_var.count = 9;
    ctx.buf.push_str("before;");
    let e = cond(id("p"), vec![], vec![]);
    assert_eq!(e.emit(&mut ctx), "(_10 ? nullptr : nullptr)");
    assert_eq!(ctx.buf, "before;bool _10;if (p) {\n}");
    assert_eq!(e.emit(&mut ctx), "(_11 ? nullptr : nullptr)");
    assert_eq!(ctx.local_var.count, 11);
}

#[test]
fn nested_lowering_puts_inner_statements_first() {
    let mut ctx = Context::new();
    let inner = cond(id("q"), vec![id("a"), id("b")], vec![]);
    let outer = cond(id("p"), vec![inner, id("c")], vec![id("d")]);
    assert_eq!(outer.emit(&mut ctx), "(_1 ? nullptr : nullptr)");
    assert_eq!(
        ctx.buf,
        "bool _1;bool _2;if (q) {\na\nb\n}if (p) {\n(_2 ? nullptr : nullptr)\nc\n} else {\nd\n}\n"
    );
    assert_eq!(ctx.local_var.count, 2);
}

#[test]
fn lowered_condition_inside_a_ternary() {
    let mut ctx = Context::new();
    let lowered = cond(id("q"), vec![], vec![]);
    let e = cond(lowered, vec![id("a")], vec![id("b")]);
    assert_eq!(e.emit(&mut ctx), "((_1 ? nullptr : nullptr) ? a : b)");
    assert_eq!(ctx.buf, "bool _1;if (q) {\n}");
}

#[test]
fn emit_each_renders_in_order() {
    let mut ctx = Context::new();
    let es = vec![id("a"), cond(id("p"), vec![], vec![]), cond(id("q"), vec![], vec![]), num(4)];
    let texts = emit_each(&es, &mut ctx);
    assert_eq!(
        texts,
        vec![
            "a".to_owned(),
            "(_1 ? nullptr : nullptr)".to_owned(),
            "(_2 ? nullptr : nullptr)".to_owned(),
            "4".to_owned()
        ]
    );
    assert_eq!(ctx.buf, "bool _1;if (p) {\n}bool _2;if (q) {\n}");
    assert_eq!(ctx.local_var.count, 2);
    assert!(emit_each(&vec![], &mut ctx).is_empty());
}

#[test]
fn only_the_last_body_expression_is_returned() {
    let mut ctx = Context::new();
    let f = FunDef {
        label: "work".to_owned(),
        ret: TypeDef::Void,
        args: Args { args: vec![("a".to_owned(), TypeDef::Int32), ("b".to_owned(), TypeDef::Int32)] },
        procs: vec![call(id("log"), vec![id("a")]), call(id("log"), vec![id("b")]), bin(id("a"), Binary::Add, id("b"))],
    };
    let text = f.emit(&mut ctx);
    assert_eq!(
        text,
        "void _fn_work(int32_t a, int32_t b) {\nlog(a);\nlog(b);\nreturn a + b;\n}\n"
    );
    assert_eq!(text.matches("return ").count(), 1);
    let last = bin(id("a"), Binary::Add, id("b")).emit(&mut ctx);
    assert!(text.contains(&format!("return {};\n", last)));
}

#[test]
fn function_without_body_has_no_return() {
    let mut ctx = Context::new();
    let f = FunDef {
        label: "nothing".to_owned(),
        ret: TypeDef::Void,
        args: Args { args: vec![] },
        procs: vec![],
    };
    assert_eq!(f.emit(&mut ctx), "void _fn_nothing() {\n}\n");
    assert!(ctx.callee.is_empty());
}

#[test]
fn lowered_statements_go_before_the_statement_that_uses_them() {
    let mut ctx = Context::new();
    let f = FunDef {
        label: "pick".to_owned(),
        ret: TypeDef::Int32,
        args: Args { args: vec![("c".to_owned(), TypeDef::Boolean)] },
        procs: vec![
            id("c"),
            cond(id("c"), vec![call(Expr::Callee, vec![]), num(1)], vec![num(2)]),
        ],
    };
    let text = f.emit(&mut ctx);
    assert_eq!(
        text,
        "int32_t _fn_pick(bool c) {\nc;\nbool _1;if (c) {\npick()\n1\n} else {\n2\n}\nreturn (_1 ? nullptr : nullptr);\n}\n"
    );
    assert_eq!(ctx.buf, "");
    assert_eq!(ctx.local_var.count, 1);
    assert!(ctx.callee.is_empty());
}

#[test]
fn function_render_keeps_stack_and_stream_of_the_caller() {
    let mut ctx = Context::new();
    ctx.callee.push("outer".to_owned());
    ctx.buf.push_str("kept;");
    let f = FunDef {
        label: "inner".to_owned(),
        ret: TypeDef::Int64,
        args: Args { args: vec![] },
        procs: vec![cond(id("c"), vec![], vec![]), Expr::Callee],
    };
    let text = f.emit(&mut ctx);
    assert_eq!(
        text,
        "int64_t _fn_inner() {\nbool _1;if (c) {\n}(_1 ? nullptr : nullptr);\nreturn inner;\n}\n"
    );
    assert_eq!(ctx.callee, vec!["outer".to_owned()]);
    assert_eq!(ctx.buf, "kept;");
    assert_eq!(Expr::Callee.emit(&mut ctx), "outer");
}

#[test]
fn temporaries_are_unique_across_functions_of_one_run() {
    let mut ctx = Context::new();
    let make = |name: &str| FunDef {
        label: name.to_owned(),
        ret: TypeDef::Void,
        args: Args { args: vec![] },
        procs: vec![cond(id("c"), vec![], vec![]), cond(id("d"), vec![], vec![])],
    };
    let a = make("a").emit(&mut ctx);
    let b = make("b").emit(&mut ctx);
    assert!(a.contains("bool _1;") && a.contains("bool _2;"));
    assert!(b.contains("bool _3;") && b.contains("bool _4;"));
    assert!(!b.contains("bool _1;") && !b.contains("bool _2;"));
    assert_eq!(ctx.local_var.count, 4);
}

#[test]
fn ternary_layout() {
    assert_eq!(ternary_string("c", "a", "b"), "(c ? a : b)");
    assert_eq!(ternary_string("", "", ""), "( ?  : )");
}

#[test]
fn block_layout() {
    let then_texts = vec!["a".to_owned(), "b".to_owned()];
    let else_texts = vec!["c".to_owned()];
    assert_eq!(
        if_block_string("x > 0", &then_texts, &else_texts),
        "if (x > 0) {\na\nb\n} else {\nc\n}\n"
    );
    assert_eq!(if_block_string("x", &then_texts, &vec![]), "if (x) {\na\nb\n}");
}

#[test]
fn joining_and_terminating() {
    let parts = vec!["a".to_owned(), "bc".to_owned(), "".to_owned(), "d".to_owned()];
    assert_eq!(join_strings(&parts, ", "), "a, bc, , d");
    assert_eq!(join_strings(&vec![], ", "), "");
    assert_eq!(join_strings(&vec!["x".to_owned()], ", "), "x");
    let mut out = "head:".to_owned();
    append_terminated(&mut out, &parts, ";");
    assert_eq!(out, "head:a;bc;;d;");
    append_terminated(&mut out, &vec![], ";");
    assert_eq!(out, "head:a;bc;;d;");
}

#[test]
fn decimal_numerals() {
    let mut out = "n=".to_owned();
    push_decimal(&mut out, 0);
    assert_eq!(out, "n=0");
    push_decimal(&mut out, 907);
    assert_eq!(out, "n=0907");
    let mut out = String::new();
    push_decimal(&mut out, u64::MAX);
    assert_eq!(out, "18446744073709551615");
    for d in 0..10u8 {
        assert_eq!(digit_char(d), (b'0' + d) as char);
    }
}

#[test]
fn temporaries_of_a_function_are_numbered_above_the_counter_at_entry() {
    let mut ctx = Context::new();
    ctx.local_var.count = 41;
    let f = FunDef {
        label: "f".to_owned(),
        ret: TypeDef::Void,
        args: Args { args: vec![] },
        procs: vec![
            cond(cond(id("p"), vec![], vec![]), vec![cond(id("q"), vec![], vec![]), id("a")], vec![]),
            bin(cond(id("r"), vec![], vec![]), Binary::Add, id("b")),
        ],
    };
    let text = f.emit(&mut ctx);
    assert_eq!(ctx.local_var.count, 45);
    let mut at = 0;
    for k in 42..=45usize {
        let declaration = format!("bool _{};", k);
        assert_eq!(text.matches(&declaration).count(), 1);
        let found = text.find(&declaration).unwrap();
        assert!(found >= at);
        at = found;
    }
    for k in [0usize, 1, 40, 41, 46] {
        assert!(!text.contains(&format!("bool _{};", k)));
    }
    let g = FunDef {
        label: "g".to_owned(),
        ret: TypeDef::Void,
        args: Args { args: vec![] },
        procs: vec![cond(id("s"), vec![], vec![])],
    };
    let later = g.emit(&mut ctx);
    assert!(later.contains("bool _46;"));
    assert!(ctx.local_var.count >= 45);
    assert_eq!(ctx.local_var.count, 46);
}
