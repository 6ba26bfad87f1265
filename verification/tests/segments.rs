use fstring_rewrite::ast::{Expr, ExprKind, Constant, UnsupportedExpression};
use fstring_rewrite::fstring::{convert_segments, fix_fstring, parse_fstring};

fn text(s: &str) -> Expr {
    Expr { line: 1, kind: ExprKind::Constant { value: Constant::Str(s.to_string()) } }
}

fn interp(e: Expr) -> Expr {
    Expr { line: 1, kind: ExprKind::FormattedValue { value: Box::new(e) } }
}

fn name(id: &str) -> Expr {
    Expr { line: 1, kind: ExprKind::Name { id: id.to_string() } }
}

fn attr(base: Expr, a: &str) -> Expr {
    Expr { line: 1, kind: ExprKind::Attribute { value: Box::new(base), attr: a.to_string() } }
}

#[test]
fn template_and_arguments_from_segments() {
    let segments = vec![text("count="), interp(attr(name("x"), "y")), text(" items")];
    let r = fix_fstring(&segments, '\'');
    assert_eq!(r, Some(("count=%s items".to_string(), vec!["x.y".to_string()])));
}

#[test]
fn empty_literal_converts_to_empty_template() {
    let segments: Vec<Expr> = vec![];
    assert_eq!(fix_fstring(&segments, '\''), Some((String::new(), vec![])));
}

#[test]
fn placeholders_match_arguments() {
    let segments = vec![
        text("a="),
        interp(name("a")),
        text(" b="),
        interp(attr(name("b"), "c")),
    ];
    let (template, args) = fix_fstring(&segments, '\'').unwrap();
    assert_eq!(template.matches("%s").count(), args.len());
    assert_eq!(args, vec!["a".to_string(), "b.c".to_string()]);
}

#[test]
fn arguments_keep_source_order() {
    let segments = vec![interp(name("first")), interp(name("second")), interp(name("third"))];
    let (template, args) = fix_fstring(&segments, '\'').unwrap();
    assert_eq!(template, "%s%s%s".to_string());
    assert_eq!(args, vec!["first".to_string(), "second".to_string(), "third".to_string()]);
}

#[test]
fn unsupported_segment_gives_no_conversion() {
    let segments = vec![text("x"), Expr { line: 5, kind: ExprKind::Other }];
    assert_eq!(fix_fstring(&segments, '\''), None);
    assert_eq!(convert_segments(&segments, '\'').unwrap_err(), UnsupportedExpression { line: 5 });
}

#[test]
fn unsupported_interpolation_gives_no_conversion() {
    let segments = vec![text("x"), interp(Expr { line: 4, kind: ExprKind::Other })];
    assert_eq!(fix_fstring(&segments, '\''), None);
    assert_eq!(convert_segments(&segments, '\'').unwrap_err(), UnsupportedExpression { line: 4 });
}

#[test]
fn literal_segments_render_unquoted() {
    let segments = vec![
        Expr { line: 1, kind: ExprKind::Constant { value: Constant::Int(42) } },
        Expr { line: 1, kind: ExprKind::Constant { value: Constant::Bool(true) } },
        Expr { line: 1, kind: ExprKind::Constant { value: Constant::NoneLit } },
    ];
    assert_eq!(fix_fstring(&segments, '\''), Some(("42TrueNone".to_string(), vec![])));
}

#[test]
fn literal_percent_text_kept_verbatim() {
    let segments = vec![text("100%s")];
    assert_eq!(fix_fstring(&segments, '\''), Some(("100%s".to_string(), vec![])));
}

#[test]
fn parse_fstring_appends_segment() {
    let mut template = String::from("pre");
    let mut args = vec!["a0".to_string()];
    let r = parse_fstring(&interp(name("x")), &mut template, &mut args, '\'');
    assert!(r.is_ok());
    assert_eq!(template, "pre%s".to_string());
    assert_eq!(args, vec!["a0".to_string(), "x".to_string()]);
}

#[test]
fn parse_fstring_failure_leaves_accumulators_untouched() {
    let mut template = String::from("pre");
    let mut args = vec!["a0".to_string()];
    let r = parse_fstring(&interp(Expr { line: 9, kind: ExprKind::Other }), &mut template, &mut args, '\'');
    assert_eq!(r, Err(UnsupportedExpression { line: 9 }));
    assert_eq!(template, "pre".to_string());
    assert_eq!(args, vec!["a0".to_string()]);
}

#[test]
fn conversion_is_deterministic() {
    let segments = vec![text("v="), interp(attr(name("a"), "b"))];
    assert_eq!(fix_fstring(&segments, '\''), fix_fstring(&segments, '\''));
}
