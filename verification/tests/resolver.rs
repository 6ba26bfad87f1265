use fstring_rewrite::ast::{Expr, ExprKind, Constant, Operator, Keyword, Comprehension, UnsupportedExpression};
use fstring_rewrite::resolve::parse_formatted_value;

fn name(id: &str) -> Expr {
    Expr { line: 1, kind: ExprKind::Name { id: id.to_string() } }
}

fn constant(c: Constant) -> Expr {
    Expr { line: 1, kind: ExprKind::Constant { value: c } }
}

fn attr(base: Expr, a: &str) -> Expr {
    Expr { line: 1, kind: ExprKind::Attribute { value: Box::new(base), attr: a.to_string() } }
}

fn binop(l: Expr, op: Operator, r: Expr) -> Expr {
    Expr { line: 1, kind: ExprKind::BinOp { left: Box::new(l), op, right: Box::new(r) } }
}

fn call(func: Expr, args: Vec<Expr>, keywords: Vec<Keyword>) -> Expr {
    Expr { line: 1, kind: ExprKind::Call { func: Box::new(func), args, keywords } }
}

fn other(line: u64) -> Expr {
    Expr { line, kind: ExprKind::Other }
}

fn resolve(e: &Expr) -> Result<String, UnsupportedExpression> {
    parse_formatted_value(e, String::new(), false, '\'')
}

fn resolve_in_call(e: &Expr) -> Result<String, UnsupportedExpression> {
    parse_formatted_value(e, String::new(), true, '\'')
}

#[test]
fn bare_name_resolves_to_itself() {
    assert_eq!(resolve(&name("x")), Ok("x".to_string()));
}

#[test]
fn attribute_chain_resolves_dotted() {
    let e = attr(attr(name("x"), "y"), "z");
    assert_eq!(resolve(&e), Ok("x.y.z".to_string()));
}

#[test]
fn string_constant_quoted_in_call_context() {
    let e = constant(Constant::Str("hi".to_string()));
    assert_eq!(resolve_in_call(&e), Ok("'hi'".to_string()));
}

#[test]
fn string_constant_unquoted_outside_call() {
    let e = constant(Constant::Str("hi".to_string()));
    assert_eq!(resolve(&e), Ok("hi".to_string()));
}

#[test]
fn quote_character_setting_is_respected() {
    let e = constant(Constant::Str("hi".to_string()));
    assert_eq!(parse_formatted_value(&e, String::new(), true, '"'), Ok("\"hi\"".to_string()));
}

#[test]
fn name_call_without_trailing_comma() {
    let e = call(
        name("foo"),
        vec![constant(Constant::Int(1))],
        vec![Keyword { key: "bar".to_string(), value: constant(Constant::Int(2)) }],
    );
    assert_eq!(resolve(&e), Ok("foo(1, bar=2)".to_string()));
}

#[test]
fn attribute_call_keeps_trailing_commas() {
    let e = call(
        attr(name("obj"), "foo"),
        vec![constant(Constant::Int(1))],
        vec![Keyword { key: "bar".to_string(), value: constant(Constant::Int(2)) }],
    );
    assert_eq!(resolve(&e), Ok("obj.foo(1,bar=2,)".to_string()));
}

#[test]
fn name_call_empty_args() {
    assert_eq!(resolve(&call(name("foo"), vec![], vec![])), Ok("foo()".to_string()));
}

#[test]
fn name_call_keywords_only_keeps_separator() {
    let e = call(
        name("foo"),
        vec![],
        vec![Keyword { key: "bar".to_string(), value: constant(Constant::Int(2)) }],
    );
    assert_eq!(resolve(&e), Ok("foo(, bar=2)".to_string()));
}

#[test]
fn attribute_call_empty_args() {
    assert_eq!(resolve(&call(attr(name("obj"), "m"), vec![], vec![])), Ok("obj.m()".to_string()));
}

#[test]
fn name_call_two_positional_args() {
    let e = call(name("foo"), vec![name("a"), name("b")], vec![]);
    assert_eq!(resolve(&e), Ok("foo(a, b)".to_string()));
}

#[test]
fn keyword_value_resolves_unquoted() {
    let e = call(
        name("foo"),
        vec![],
        vec![Keyword { key: "bar".to_string(), value: constant(Constant::Str("x".to_string())) }],
    );
    assert_eq!(resolve(&e), Ok("foo(, bar=x)".to_string()));
}

#[test]
fn positional_string_argument_is_quoted() {
    let e = call(name("foo"), vec![constant(Constant::Str("x".to_string()))], vec![]);
    assert_eq!(resolve(&e), Ok("foo('x')".to_string()));
}

#[test]
fn nested_call_argument() {
    let e = call(name("foo"), vec![call(name("len"), vec![name("x")], vec![])], vec![]);
    assert_eq!(resolve(&e), Ok("foo(len(x))".to_string()));
}

#[test]
fn every_operator_maps_to_its_symbol() {
    let table = vec![
        (Operator::Add, "+"),
        (Operator::Sub, "-"),
        (Operator::Mult, "*"),
        (Operator::MatMult, "@"),
        (Operator::Div, "/"),
        (Operator::Mod, "%"),
        (Operator::Pow, "**"),
        (Operator::LShift, "<<"),
        (Operator::RShift, ">>"),
        (Operator::BitOr, "|"),
        (Operator::BitXor, "^"),
        (Operator::BitAnd, "&"),
        (Operator::FloorDiv, "//"),
    ];
    for (op, sym) in table {
        let e = binop(name("a"), op, name("b"));
        assert_eq!(resolve(&e), Ok(format!("a {} b", sym)));
    }
}

#[test]
fn list_comprehension_resolves() {
    let e = Expr {
        line: 1,
        kind: ExprKind::ListComp {
            elt: Box::new(name("i")),
            generators: vec![Comprehension { target: name("i"), iter: name("items") }],
        },
    };
    assert_eq!(resolve(&e), Ok("[i for i in items]".to_string()));
}

#[test]
fn dict_comprehension_resolves() {
    let e = Expr {
        line: 1,
        kind: ExprKind::DictComp {
            key: Box::new(name("k")),
            value: Box::new(name("v")),
            generators: vec![Comprehension { target: name("k"), iter: name("items") }],
        },
    };
    assert_eq!(resolve(&e), Ok("{k: v for k in items}".to_string()));
}

#[test]
fn subscript_quotes_slice() {
    let e = Expr {
        line: 1,
        kind: ExprKind::Subscript { value: Box::new(name("data")), slice: Box::new(name("key")) },
    };
    assert_eq!(resolve(&e), Ok("data['key']".to_string()));
}

#[test]
fn postfix_flows_into_subscript_base_and_slice() {
    let sub = Expr {
        line: 1,
        kind: ExprKind::Subscript { value: Box::new(name("a")), slice: Box::new(name("b")) },
    };
    let e = attr(sub, "c");
    assert_eq!(resolve(&e), Ok("a.c['b.c']".to_string()));
}

#[test]
fn numeric_boolean_none_constants_never_quoted() {
    assert_eq!(resolve_in_call(&constant(Constant::Int(1))), Ok("1".to_string()));
    assert_eq!(resolve_in_call(&constant(Constant::Bool(true))), Ok("True".to_string()));
    assert_eq!(resolve_in_call(&constant(Constant::Bool(false))), Ok("False".to_string()));
    assert_eq!(resolve_in_call(&constant(Constant::NoneLit)), Ok("None".to_string()));
    assert_eq!(resolve_in_call(&constant(Constant::Float("1.5".to_string()))), Ok("1.5".to_string()));
}

#[test]
fn negative_int_renders_minus() {
    assert_eq!(resolve(&constant(Constant::Int(-123))), Ok("-123".to_string()));
}

#[test]
fn unsupported_node_reports_line() {
    assert_eq!(resolve(&other(7)), Err(UnsupportedExpression { line: 7 }));
}

#[test]
fn binop_reports_first_failing_side() {
    let e = binop(other(3), Operator::Add, other(9));
    assert_eq!(resolve(&e), Err(UnsupportedExpression { line: 3 }));
    let e2 = binop(name("a"), Operator::Add, other(9));
    assert_eq!(resolve(&e2), Err(UnsupportedExpression { line: 9 }));
}

#[test]
fn call_arguments_fail_before_callee() {
    let e = call(other(7), vec![other(9)], vec![]);
    assert_eq!(resolve(&e), Err(UnsupportedExpression { line: 9 }));
}

#[test]
fn call_with_unsupported_callee_reports_callee_line() {
    let callee = Expr { line: 7, kind: ExprKind::Constant { value: Constant::Int(1) } };
    let e = call(callee, vec![name("a")], vec![]);
    assert_eq!(resolve(&e), Err(UnsupportedExpression { line: 7 }));
}

#[test]
fn keyword_value_failure_reports_its_line() {
    let e = call(
        name("foo"),
        vec![],
        vec![Keyword { key: "bar".to_string(), value: other(11) }],
    );
    assert_eq!(resolve(&e), Err(UnsupportedExpression { line: 11 }));
}

#[test]
fn list_comprehension_with_two_generators() {
    let e = Expr {
        line: 1,
        kind: ExprKind::ListComp {
            elt: Box::new(name("i")),
            generators: vec![
                Comprehension { target: name("i"), iter: name("a") },
                Comprehension { target: name("j"), iter: name("b") },
            ],
        },
    };
    assert_eq!(resolve(&e), Ok("[i for i in a for j in b]".to_string()));
}

#[test]
fn subscript_quotes_even_numeric_slices() {
    let e = Expr {
        line: 1,
        kind: ExprKind::Subscript {
            value: Box::new(name("data")),
            slice: Box::new(constant(Constant::Int(1))),
        },
    };
    assert_eq!(resolve(&e), Ok("data['1']".to_string()));
}

#[test]
fn attribute_call_with_dotted_base() {
    let e = call(attr(attr(name("x"), "y"), "z"), vec![], vec![]);
    assert_eq!(resolve(&e), Ok("x.y.z()".to_string()));
}

#[test]
fn nested_interpolation_is_unsupported() {
    let inner = Expr {
        line: 6,
        kind: ExprKind::FormattedValue { value: Box::new(name("x")) },
    };
    assert_eq!(resolve(&inner), Err(UnsupportedExpression { line: 6 }));
}

#[test]
fn resolution_is_deterministic() {
    let e = call(
        attr(name("obj"), "foo"),
        vec![name("a"), constant(Constant::Str("s".to_string()))],
        vec![Keyword { key: "k".to_string(), value: constant(Constant::NoneLit) }],
    );
    let r1 = resolve(&e);
    let r2 = resolve(&e);
    assert_eq!(r1, r2);
}
