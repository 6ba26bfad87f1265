use vstd::prelude::*;
use vstd::string::StringExecFns;
use crate::ast::{Expr, ExprKind, Keyword, Comprehension, UnsupportedExpression, op_symbol};
use crate::ast::operator_to_string;
use crate::render::{spec_render_constant, constant_to_string, push_char};

verus! {

/// The views of a list of strings.
pub open spec fn views_of(v: Seq<String>) -> Seq<Seq<char>> {
    v.map_values(|s: String| s@)
}

/// `items` joined by `sep`.
pub open spec fn join_sep(items: Seq<Seq<char>>, sep: Seq<char>) -> Seq<char>
    decreases items.len(),
{
    if items.len() == 0 {
        Seq::empty()
    } else if items.len() == 1 {
        items[0]
    } else {
        join_sep(items.drop_last(), sep) + sep + items.last()
    }
}

/// Each item followed by one comma, with no separators in between.
pub open spec fn trail_commas(items: Seq<Seq<char>>) -> Seq<char>
    decreases items.len(),
{
    if items.len() == 0 {
        Seq::empty()
    } else {
        trail_commas(items.drop_last()) + items.last() + ","@
    }
}

/// A keyword argument split into its identifier and its resolved value text.
pub struct NamedArg {
    pub key: String,
    pub value: String,
}

/// The key and value texts of a list of keyword pairs.
pub open spec fn pair_views(v: Seq<NamedArg>) -> Seq<(Seq<char>, Seq<char>)> {
    v.map_values(|a: NamedArg| (a.key@, a.value@))
}

/// A keyword pair rendered as `key=value`.
pub open spec fn render_pair(p: (Seq<char>, Seq<char>)) -> Seq<char> {
    p.0 + "="@ + p.1
}

pub open spec fn render_pairs(pairs: Seq<(Seq<char>, Seq<char>)>) -> Seq<Seq<char>> {
    pairs.map_values(|p: (Seq<char>, Seq<char>)| render_pair(p))
}

/// The keyword segment of a reconstructed `name(...)` call: empty when there
/// are no keyword arguments, otherwise `, ` followed by the pairs joined by
/// `, `.
pub open spec fn named_tail(pairs: Seq<(Seq<char>, Seq<char>)>) -> Seq<char> {
    if pairs.len() == 0 {
        Seq::empty()
    } else {
        ", "@ + join_sep(render_pairs(pairs), ", "@)
    }
}

/// What resolving one expression yields: the reconstructed source text, or
/// the line of the first offending node, in evaluation order.
///
/// `postfix` is the dotted attribute suffix accumulated while unwinding a
/// chain of attribute accesses; `in_call` says whether the result will stand
/// inside a reconstructed call argument list, which decides whether a string
/// constant is quoted with the quote character `q`.
///
/// The two call shapes render their argument lists differently, and the
/// asymmetry is deliberate: a call through a plain name joins its arguments
/// with `, ` and has no trailing comma, while a call through an attribute
/// renders every argument with its own trailing comma.
pub open spec fn spec_resolve(e: Expr, postfix: Seq<char>, in_call: bool, q: char) -> Result<
    Seq<char>,
    int,
>
    decreases e,
{
    match e.kind {
        ExprKind::Name { id } => Ok(
            if postfix.len() == 0 {
                id@
            } else {
                id@ + "."@ + postfix
            },
        ),
        ExprKind::Attribute { value, attr } => spec_resolve(
            *value,
            if postfix.len() == 0 {
                attr@
            } else {
                attr@ + "."@ + postfix
            },
            false,
            q,
        ),
        ExprKind::Constant { value } => Ok(spec_render_constant(value, in_call, q)),
        ExprKind::Call { func, args, keywords } => match spec_resolve_args(args@, q) {
            Err(l) => Err(l),
            Ok(fa) => match spec_resolve_kwpairs(keywords@, q) {
                Err(l) => Err(l),
                Ok(pairs) => match (*func).kind {
                    ExprKind::Name { id } => Ok(
                        id@ + "("@ + join_sep(fa, ", "@) + named_tail(pairs) + ")"@,
                    ),
                    ExprKind::Attribute { value: fbase, attr: fattr } => match spec_resolve(
                        *fbase,
                        postfix,
                        true,
                        q,
                    ) {
                        Err(l) => Err(l),
                        Ok(b) => Ok(
                            b + "."@ + fattr@ + "("@ + trail_commas(fa) + trail_commas(
                                render_pairs(pairs),
                            ) + ")"@,
                        ),
                    },
                    _ => Err((*func).line as int),
                },
            },
        },
        ExprKind::BinOp { left, op, right } => match spec_resolve(*left, postfix, false, q) {
            Err(l) => Err(l),
            Ok(lt) => match spec_resolve(*right, postfix, false, q) {
                Err(l) => Err(l),
                Ok(rt) => Ok(lt + " "@ + op_symbol(op) + " "@ + rt),
            },
        },
        ExprKind::Subscript { value, slice } => match spec_resolve(*value, postfix, false, q) {
            Err(l) => Err(l),
            Ok(b) => match spec_resolve(*slice, postfix, false, q) {
                Err(l) => Err(l),
                Ok(sl) => Ok(b + "["@ + seq![q] + sl + seq![q] + "]"@),
            },
        },
        ExprKind::ListComp { elt, generators } => match spec_resolve(*elt, postfix, true, q) {
            Err(l) => Err(l),
            Ok(et) => match spec_generators(generators@, postfix, q) {
                Err(l) => Err(l),
                Ok(gt) => Ok("["@ + et + gt + "]"@),
            },
        },
        ExprKind::DictComp { key, value, generators } => match spec_resolve(*key, postfix, true, q) {
            Err(l) => Err(l),
            Ok(kt) => match spec_resolve(*value, postfix, true, q) {
                Err(l) => Err(l),
                Ok(vt) => match spec_generators(generators@, postfix, q) {
                    Err(l) => Err(l),
                    Ok(gt) => Ok("{"@ + kt + ": "@ + vt + gt + "}"@),
                },
            },
        },
        _ => Err(e.line as int),
    }
}

/// The positional arguments of a call, each resolved with an empty postfix in
/// call-argument context, or the line of the first offending node.
pub open spec fn spec_resolve_args(args: Seq<Expr>, q: char) -> Result<Seq<Seq<char>>, int>
    decreases args,
{
    if args.len() == 0 {
        Ok(Seq::empty())
    } else {
        match spec_resolve(args[0], Seq::empty(), true, q) {
            Err(l) => Err(l),
            Ok(s) => match spec_resolve_args(args.subrange(1, args.len() as int), q) {
                Err(l) => Err(l),
                Ok(rest) => Ok(seq![s] + rest),
            },
        }
    }
}

/// The keyword arguments of a call as (key, resolved value text) pairs, the
/// values resolved with an empty postfix outside call-argument context, or
/// the line of the first offending node.
pub open spec fn spec_resolve_kwpairs(kws: Seq<Keyword>, q: char) -> Result<
    Seq<(Seq<char>, Seq<char>)>,
    int,
>
    decreases kws,
{
    if kws.len() == 0 {
        Ok(Seq::empty())
    } else {
        match spec_resolve(kws[0].value, Seq::empty(), false, q) {
            Err(l) => Err(l),
            Ok(v) => match spec_resolve_kwpairs(kws.subrange(1, kws.len() as int), q) {
                Err(l) => Err(l),
                Ok(rest) => Ok(seq![(kws[0].key@, v)] + rest),
            },
        }
    }
}

/// The text contributed by the `for ... in ...` clauses of a comprehension,
/// each target and iterator resolved in call-argument context with the given
/// postfix, or the line of the first offending node.
pub open spec fn spec_generators(gens: Seq<Comprehension>, postfix: Seq<char>, q: char) -> Result<
    Seq<char>,
    int,
>
    decreases gens,
{
    if gens.len() == 0 {
        Ok(Seq::empty())
    } else {
        match spec_resolve(gens[0].target, postfix, true, q) {
            Err(l) => Err(l),
            Ok(t) => match spec_resolve(gens[0].iter, postfix, true, q) {
                Err(l) => Err(l),
                Ok(it) => match spec_generators(gens.subrange(1, gens.len() as int), postfix, q) {
                    Err(l) => Err(l),
                    Ok(rest) => Ok(" for "@ + t + " in "@ + it + rest),
                },
            },
        }
    }
}

/// How an executable resolution result relates to the specification: on
/// success the text is exactly the specified one, on failure the reported
/// line is exactly the specified one.
pub open spec fn resolve_matches(
    e: Expr,
    postfix: Seq<char>,
    in_call: bool,
    q: char,
    r: Result<String, UnsupportedExpression>,
) -> bool {
    match r {
        Ok(s) => spec_resolve(e, postfix, in_call, q) == Ok::<Seq<char>, int>(s@),
        Err(er) => spec_resolve(e, postfix, in_call, q) == Err::<Seq<char>, int>(er.line as int),
    }
}

/// Joins the strings with the separator.
fn join_with(items: &Vec<String>, sep: &str) -> (r: String)
    ensures
        r@ == join_sep(views_of(items@), sep@),
{
    let mut s = String::new();
    let mut i: usize = 0;
    while i < items.len()
        invariant
            i <= items.len(),
            s@ == join_sep(views_of(items@).take(i as int), sep@),
        decreases items.len() - i,
    {
        if i > 0 {
            s.append(sep);
        }
        s.append(items[i].as_str());
        proof {
            let vs = views_of(items@);
            assert(vs.take(i as int + 1).drop_last() =~= vs.take(i as int));
            assert(vs.take(i as int + 1).last() == items@[i as int]@);
            assert(s@ =~= join_sep(vs.take(i as int + 1), sep@));
        }
        i += 1;
    }
    proof {
        assert(views_of(items@).take(items@.len() as int) =~= views_of(items@));
    }
    s
}

/// Appends each item followed by a comma.
fn append_trailing(s: &mut String, items: &Vec<String>)
    ensures
        final(s)@ == old(s)@ + trail_commas(views_of(items@)),
{
    let ghost base = s@;
    let mut i: usize = 0;
    proof {
        assert(base + trail_commas(views_of(items@).take(0)) =~= base);
    }
    while i < items.len()
        invariant
            i <= items.len(),
            s@ == base + trail_commas(views_of(items@).take(i as int)),
        decreases items.len() - i,
    {
        s.append(items[i].as_str());
        s.append(",");
        proof {
            let vs = views_of(items@);
            assert(vs.take(i as int + 1).drop_last() =~= vs.take(i as int));
            assert(vs.take(i as int + 1).last() == items@[i as int]@);
            assert(s@ =~= base + trail_commas(vs.take(i as int + 1)));
        }
        i += 1;
    }
    proof {
        assert(views_of(items@).take(items@.len() as int) =~= views_of(items@));
    }
}

/// Appends each pair as `key=value,`.
fn append_trailing_pairs(s: &mut String, named: &Vec<NamedArg>)
    ensures
        final(s)@ == old(s)@ + trail_commas(render_pairs(pair_views(named@))),
{
    let ghost base = s@;
    let mut i: usize = 0;
    proof {
        assert(base + trail_commas(render_pairs(pair_views(named@)).take(0)) =~= base);
    }
    while i < named.len()
        invariant
            i <= named.len(),
            s@ == base + trail_commas(render_pairs(pair_views(named@)).take(i as int)),
        decreases named.len() - i,
    {
        s.append(named[i].key.as_str());
        s.append("=");
        s.append(named[i].value.as_str());
        s.append(",");
        proof {
            let vs = render_pairs(pair_views(named@));
            assert(vs.take(i as int + 1).drop_last() =~= vs.take(i as int));
            assert(vs.take(i as int + 1).last() == named@[i as int].key@ + "="@ + named@[
                i as int
            ].value@);
            assert(s@ =~= base + trail_commas(vs.take(i as int + 1)));
        }
        i += 1;
    }
    proof {
        assert(render_pairs(pair_views(named@)).take(named@.len() as int) =~= render_pairs(
            pair_views(named@),
        ));
    }
}

/// Renders each pair as one `key=value` string.
fn render_named(named: &Vec<NamedArg>) -> (r: Vec<String>)
    ensures
        views_of(r@) == render_pairs(pair_views(named@)),
{
    let mut out: Vec<String> = Vec::new();
    let mut i: usize = 0;
    proof {
        assert(views_of(out@) =~= render_pairs(pair_views(named@)).take(0));
    }
    while i < named.len()
        invariant
            i <= named.len(),
            out@.len() == i as int,
            views_of(out@) == render_pairs(pair_views(named@)).take(i as int),
        decreases named.len() - i,
    {
        let mut p = named[i].key.clone();
        p.append("=");
        p.append(named[i].value.as_str());
        let ghost pv = p@;
        let ghost prev = out@;
        out.push(p);
        proof {
            let vs = render_pairs(pair_views(named@));
            assert(pv == named@[i as int].key@ + "="@ + named@[i as int].value@);
            assert(vs[i as int] == named@[i as int].key@ + "="@ + named@[i as int].value@);
            assert forall|j: int| 0 <= j < views_of(out@).len() implies views_of(out@)[j] == vs.take(
                i as int + 1,
            )[j] by {
                if j < i as int {
                    assert(views_of(prev)[j] == vs.take(i as int)[j]);
                } else {
                    assert(views_of(out@)[j] == pv);
                }
            }
            assert(views_of(out@) =~~= vs.take(i as int + 1));
        }
        i += 1;
    }
    proof {
        assert(render_pairs(pair_views(named@)).take(named@.len() as int) =~= render_pairs(
            pair_views(named@),
        ));
    }
    out
}

/// Resolves the positional arguments of a call, each with an empty postfix in
/// call-argument context.
fn resolve_args(args: &Vec<Expr>, q: char) -> (r: Result<Vec<String>, UnsupportedExpression>)
    ensures
        (match r {
            Ok(v) => spec_resolve_args(args@, q) == Ok::<Seq<Seq<char>>, int>(views_of(v@)),
            Err(er) => spec_resolve_args(args@, q) == Err::<Seq<Seq<char>>, int>(er.line as int),
        }),
    decreases args@,
{
    let mut out: Vec<String> = Vec::new();
    let mut i: usize = 0;
    proof {
        assert(args@.subrange(0, args@.len() as int) =~= args@);
        match spec_resolve_args(args@, q) {
            Ok(rest) => {
                assert(views_of(out@) + rest =~= rest);
            },
            Err(_) => {},
        }
    }
    while i < args.len()
        invariant
            i <= args.len(),
            (match spec_resolve_args(args@.subrange(i as int, args@.len() as int), q) {
                Ok(rest) => spec_resolve_args(args@, q) == Ok::<Seq<Seq<char>>, int>(
                    views_of(out@) + rest,
                ),
                Err(l) => spec_resolve_args(args@, q) == Err::<Seq<Seq<char>>, int>(l),
            }),
        decreases args.len() - i,
    {
        let ghost suf = args@.subrange(i as int, args@.len() as int);
        proof {
            assert(suf[0] == args@[i as int]);
            assert(suf.subrange(1, suf.len() as int) =~= args@.subrange(
                i as int + 1,
                args@.len() as int,
            ));
        }
        match parse_formatted_value(&args[i], String::new(), true, q) {
            Ok(s) => {
                let ghost prev = out@;
                out.push(s);
                proof {
                    match spec_resolve_args(args@.subrange(i as int + 1, args@.len() as int), q) {
                        Ok(rest) => {
                            assert(views_of(out@) + rest =~= views_of(prev) + (seq![s@] + rest));
                        },
                        Err(_) => {},
                    }
                }
            },
            Err(e) => {
                return Err(e);
            },
        }
        i += 1;
    }
    proof {
        assert(args@.subrange(args@.len() as int, args@.len() as int) =~= Seq::<Expr>::empty());
        assert(views_of(out@) + Seq::<Seq<char>>::empty() =~= views_of(out@));
    }
    Ok(out)
}

/// Resolves the keyword arguments of a call into (key, value text) pairs,
/// each value with an empty postfix outside call-argument context.
fn resolve_keywords(keywords: &Vec<Keyword>, q: char) -> (r: Result<
    Vec<NamedArg>,
    UnsupportedExpression,
>)
    ensures
        (match r {
            Ok(v) => spec_resolve_kwpairs(keywords@, q) == Ok::<Seq<(Seq<char>, Seq<char>)>, int>(
                pair_views(v@),
            ),
            Err(er) => spec_resolve_kwpairs(keywords@, q) == Err::<Seq<(Seq<char>, Seq<char>)>, int>(
                er.line as int,
            ),
        }),
    decreases keywords@,
{
    let mut out: Vec<NamedArg> = Vec::new();
    let mut i: usize = 0;
    proof {
        assert(keywords@.subrange(0, keywords@.len() as int) =~= keywords@);
        match spec_resolve_kwpairs(keywords@, q) {
            Ok(rest) => {
                assert(pair_views(out@) + rest =~= rest);
            },
            Err(_) => {},
        }
    }
    while i < keywords.len()
        invariant
            i <= keywords.len(),
            (match spec_resolve_kwpairs(keywords@.subrange(i as int, keywords@.len() as int), q) {
                Ok(rest) => spec_resolve_kwpairs(keywords@, q) == Ok::<
                    Seq<(Seq<char>, Seq<char>)>,
                    int,
                >(pair_views(out@) + rest),
                Err(l) => spec_resolve_kwpairs(keywords@, q) == Err::<
                    Seq<(Seq<char>, Seq<char>)>,
                    int,
                >(l),
            }),
        decreases keywords.len() - i,
    {
        let ghost suf = keywords@.subrange(i as int, keywords@.len() as int);
        proof {
            assert(suf[0] == keywords@[i as int]);
            assert(suf.subrange(1, suf.len() as int) =~= keywords@.subrange(
                i as int + 1,
                keywords@.len() as int,
            ));
        }
        match parse_formatted_value(&keywords[i].value, String::new(), false, q) {
            Ok(v) => {
                let key = keywords[i].key.clone();
                let ghost prev = out@;
                out.push(NamedArg { key, value: v });
                proof {
                    match spec_resolve_kwpairs(
                        keywords@.subrange(i as int + 1, keywords@.len() as int),
                        q,
                    ) {
                        Ok(rest) => {
                            assert(pair_views(out@) + rest =~= pair_views(prev) + (seq![
                                (keywords@[i as int].key@, v@)
                            ] + rest));
                        },
                        Err(_) => {},
                    }
                }
            },
            Err(e) => {
                return Err(e);
            },
        }
        i += 1;
    }
    proof {
        assert(keywords@.subrange(keywords@.len() as int, keywords@.len() as int) =~= Seq::<
            Keyword,
        >::empty());
        assert(pair_views(out@) + Seq::<(Seq<char>, Seq<char>)>::empty() =~= pair_views(out@));
    }
    Ok(out)
}

/// The Argument Splitter: separates a call's arguments into the resolved
/// positional texts and the keyword pairs.
pub fn get_args_and_keywords(args: &Vec<Expr>, keywords: &Vec<Keyword>, q: char) -> (r: Result<
    (Vec<String>, Vec<NamedArg>),
    UnsupportedExpression,
>)
    ensures
        (match r {
            Ok(p) => spec_resolve_args(args@, q) == Ok::<Seq<Seq<char>>, int>(views_of(p.0@))
                && spec_resolve_kwpairs(keywords@, q) == Ok::<Seq<(Seq<char>, Seq<char>)>, int>(
                pair_views(p.1@),
            ),
            Err(er) => (match spec_resolve_args(args@, q) {
                Err(l) => l == er.line as int,
                Ok(_) => spec_resolve_kwpairs(keywords@, q) == Err::<
                    Seq<(Seq<char>, Seq<char>)>,
                    int,
                >(er.line as int),
            }),
        }),
{
    let f_args = match resolve_args(args, q) {
        Ok(v) => v,
        Err(e) => {
            return Err(e);
        },
    };
    let f_named = match resolve_keywords(keywords, q) {
        Ok(v) => v,
        Err(e) => {
            return Err(e);
        },
    };
    Ok((f_args, f_named))
}

/// Renders the `for ... in ...` clauses of a comprehension.
fn render_generators(generators: &Vec<Comprehension>, postfix: &String, q: char) -> (r: Result<
    String,
    UnsupportedExpression,
>)
    ensures
        (match r {
            Ok(s) => spec_generators(generators@, postfix@, q) == Ok::<Seq<char>, int>(s@),
            Err(er) => spec_generators(generators@, postfix@, q) == Err::<Seq<char>, int>(
                er.line as int,
            ),
        }),
    decreases generators@,
{
    let mut s = String::new();
    let mut i: usize = 0;
    proof {
        assert(generators@.subrange(0, generators@.len() as int) =~= generators@);
        match spec_generators(generators@, postfix@, q) {
            Ok(rest) => {
                assert(s@ + rest =~= rest);
            },
            Err(_) => {},
        }
    }
    while i < generators.len()
        invariant
            i <= generators.len(),
            (match spec_generators(
                generators@.subrange(i as int, generators@.len() as int),
                postfix@,
                q,
            ) {
                Ok(rest) => spec_generators(generators@, postfix@, q) == Ok::<Seq<char>, int>(
                    s@ + rest,
                ),
                Err(l) => spec_generators(generators@, postfix@, q) == Err::<Seq<char>, int>(l),
            }),
        decreases generators.len() - i,
    {
        let ghost suf = generators@.subrange(i as int, generators@.len() as int);
        proof {
            assert(suf[0] == generators@[i as int]);
            assert(suf.subrange(1, suf.len() as int) =~= generators@.subrange(
                i as int + 1,
                generators@.len() as int,
            ));
        }
        let t = match parse_formatted_value(&generators[i].target, postfix.clone(), true, q) {
            Ok(v) => v,
            Err(e) => {
                return Err(e);
            },
        };
        let it = match parse_formatted_value(&generators[i].iter, postfix.clone(), true, q) {
            Ok(v) => v,
            Err(e) => {
                return Err(e);
            },
        };
        let ghost before = s@;
        s.append(" for ");
        s.append(t.as_str());
        s.append(" in ");
        s.append(it.as_str());
        proof {
            match spec_generators(
                generators@.subrange(i as int + 1, generators@.len() as int),
                postfix@,
                q,
            ) {
                Ok(rest) => {
                    assert(s@ + rest =~= before + (" for "@ + t@ + " in "@ + it@ + rest));
                },
                Err(_) => {},
            }
        }
        i += 1;
    }
    proof {
        assert(generators@.subrange(generators@.len() as int, generators@.len() as int) =~= Seq::<
            Comprehension,
        >::empty());
        assert(s@ + Seq::<char>::empty() =~= s@);
    }
    Ok(s)
}

/// The Expression Resolver: reconstructs the source text of one expression,
/// or reports the line of the first construct outside the supported subset.
/// The result is exactly `spec_resolve` of the inputs.
pub fn parse_formatted_value(value: &Expr, postfix: String, in_call: bool, q: char) -> (r: Result<
    String,
    UnsupportedExpression,
>)
    ensures
        resolve_matches(*value, postfix@, in_call, q, r),
    decreases *value,
{
    match &value.kind {
        ExprKind::Name { id } => {
            if postfix.as_str().is_empty() {
                Ok(id.clone())
            } else {
                let mut s = id.clone();
                s.append(".");
                s.append(postfix.as_str());
                Ok(s)
            }
        },
        ExprKind::Attribute { value: base, attr } => {
            if postfix.as_str().is_empty() {
                parse_formatted_value(&**base, attr.clone(), false, q)
            } else {
                let mut p = attr.clone();
                p.append(".");
                p.append(postfix.as_str());
                parse_formatted_value(&**base, p, false, q)
            }
        },
        ExprKind::Constant { value: c } => Ok(constant_to_string(c, in_call, q)),
        ExprKind::Call { func, args, keywords } => {
            let f_args = match resolve_args(args, q) {
                Ok(v) => v,
                Err(e) => {
                    return Err(e);
                },
            };
            let f_named = match resolve_keywords(keywords, q) {
                Ok(v) => v,
                Err(e) => {
                    return Err(e);
                },
            };
            match &func.kind {
                ExprKind::Name { id } => {
                    let mut s = id.clone();
                    s.append("(");
                    let j = join_with(&f_args, ", ");
                    s.append(j.as_str());
                    if f_named.len() > 0 {
                        let rendered = render_named(&f_named);
                        s.append(", ");
                        let j2 = join_with(&rendered, ", ");
                        s.append(j2.as_str());
                    }
                    s.append(")");
                    proof {
                        assert(s@ =~= id@ + "("@ + join_sep(views_of(f_args@), ", "@) + named_tail(
                            pair_views(f_named@),
                        ) + ")"@);
                    }
                    Ok(s)
                },
                ExprKind::Attribute { value: fbase, attr: fattr } => {
                    let b = match parse_formatted_value(&**fbase, postfix, true, q) {
                        Ok(v) => v,
                        Err(e) => {
                            return Err(e);
                        },
                    };
                    let mut s = b;
                    s.append(".");
                    s.append(fattr.as_str());
                    s.append("(");
                    append_trailing(&mut s, &f_args);
                    append_trailing_pairs(&mut s, &f_named);
                    s.append(")");
                    Ok(s)
                },
                _ => Err(UnsupportedExpression { line: func.line }),
            }
        },
        ExprKind::BinOp { left, op, right } => {
            let lt = match parse_formatted_value(&**left, postfix.clone(), false, q) {
                Ok(v) => v,
                Err(e) => {
                    return Err(e);
                },
            };
            let rt = match parse_formatted_value(&**right, postfix, false, q) {
                Ok(v) => v,
                Err(e) => {
                    return Err(e);
                },
            };
            let mut s = lt;
            s.append(" ");
            s.append(operator_to_string(op));
            s.append(" ");
            s.append(rt.as_str());
            Ok(s)
        },
        ExprKind::Subscript { value: base, slice } => {
            let bt = match parse_formatted_value(&**base, postfix.clone(), false, q) {
                Ok(v) => v,
                Err(e) => {
                    return Err(e);
                },
            };
            let st = match parse_formatted_value(&**slice, postfix, false, q) {
                Ok(v) => v,
                Err(e) => {
                    return Err(e);
                },
            };
            let mut s = bt;
            s.append("[");
            push_char(&mut s, q);
            s.append(st.as_str());
            push_char(&mut s, q);
            s.append("]");
            Ok(s)
        },
        ExprKind::ListComp { elt, generators } => {
            let et = match parse_formatted_value(&**elt, postfix.clone(), true, q) {
                Ok(v) => v,
                Err(e) => {
                    return Err(e);
                },
            };
            let gt = match render_generators(generators, &postfix, q) {
                Ok(v) => v,
                Err(e) => {
                    return Err(e);
                },
            };
            let mut s = String::from_str("[");
            s.append(et.as_str());
            s.append(gt.as_str());
            s.append("]");
            Ok(s)
        },
        ExprKind::DictComp { key, value: dval, generators } => {
            let kt = match parse_formatted_value(&**key, postfix.clone(), true, q) {
                Ok(v) => v,
                Err(e) => {
                    return Err(e);
                },
            };
            let vt = match parse_formatted_value(&**dval, postfix.clone(), true, q) {
                Ok(v) => v,
                Err(e) => {
                    return Err(e);
                },
            };
            let gt = match render_generators(generators, &postfix, q) {
                Ok(v) => v,
                Err(e) => {
                    return Err(e);
                },
            };
            let mut s = String::from_str("{");
            s.append(kt.as_str());
            s.append(": ");
            s.append(vt.as_str());
            s.append(gt.as_str());
            s.append("}");
            Ok(s)
        },
        _ => Err(UnsupportedExpression { line: value.line }),
    }
}

} // verus!
