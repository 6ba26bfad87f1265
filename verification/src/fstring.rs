use vstd::prelude::*;
use vstd::string::StringExecFns;
use crate::ast::{Expr, ExprKind, UnsupportedExpression};
use crate::render::{spec_render_constant, constant_to_string, dec_rep, u64_to_string};
use crate::resolve::{spec_resolve, parse_formatted_value, views_of};

verus! {

/// What one segment of an interpolated literal contributes: text appended to
/// the template, and the arguments appended to the argument list. A constant
/// segment contributes its unquoted text and no argument; an interpolation
/// segment contributes one `%s` placeholder and one resolved argument.
pub open spec fn spec_segment(e: Expr, q: char) -> Result<(Seq<char>, Seq<Seq<char>>), int> {
    match e.kind {
        ExprKind::Constant { value } => Ok(
            (spec_render_constant(value, false, q), Seq::<Seq<char>>::empty()),
        ),
        ExprKind::FormattedValue { value } => match spec_resolve(*value, Seq::empty(), false, q) {
            Err(l) => Err(l),
            Ok(s) => Ok(("%s"@, seq![s])),
        },
        _ => Err(e.line as int),
    }
}

/// The Segment Walker over a whole literal: the assembled template and the
/// argument list in source order, or the line of the first unsupported node.
pub open spec fn spec_walk(values: Seq<Expr>, q: char) -> Result<(Seq<char>, Seq<Seq<char>>), int>
    decreases values.len(),
{
    if values.len() == 0 {
        Ok((Seq::<char>::empty(), Seq::<Seq<char>>::empty()))
    } else {
        match spec_segment(values[0], q) {
            Err(l) => Err(l),
            Ok(first) => match spec_walk(values.subrange(1, values.len() as int), q) {
                Err(l) => Err(l),
                Ok(rest) => Ok((first.0 + rest.0, first.1 + rest.1)),
            },
        }
    }
}

/// Handles one segment of an interpolated literal, extending the template and
/// the argument list. On failure nothing is appended, so that no partial
/// result of an aborted walk can be observed.
pub fn parse_fstring(value: &Expr, string: &mut String, args: &mut Vec<String>, q: char) -> (r:
    Result<(), UnsupportedExpression>)
    ensures
        (match r {
            Ok(_) => (match spec_segment(*value, q) {
                Ok(seg) => final(string)@ == old(string)@ + seg.0 && views_of(final(args)@)
                    == views_of(old(args)@) + seg.1,
                Err(_) => false,
            }),
            Err(er) => spec_segment(*value, q) == Err::<(Seq<char>, Seq<Seq<char>>), int>(
                er.line as int,
            ) && final(string)@ == old(string)@ && final(args)@ == old(args)@,
        }),
{
    match &value.kind {
        ExprKind::Constant { value: c } => {
            let t = constant_to_string(c, false, q);
            string.append(t.as_str());
            proof {
                assert(views_of(args@) =~= views_of(args@) + Seq::<Seq<char>>::empty());
            }
            Ok(())
        },
        ExprKind::FormattedValue { value: inner } => {
            match parse_formatted_value(&**inner, String::new(), false, q) {
                Ok(a) => {
                    string.append("%s");
                    let ghost prev = args@;
                    let ghost av = a@;
                    args.push(a);
                    proof {
                        assert(views_of(args@) =~~= views_of(prev) + seq![av]);
                    }
                    Ok(())
                },
                Err(e) => Err(e),
            }
        },
        _ => Err(UnsupportedExpression { line: value.line }),
    }
}

/// The Segment Walker: builds the template and the argument list for a whole
/// literal, or reports the line of the first unsupported node.
pub fn convert_segments(values: &[Expr], q: char) -> (r: Result<
    (String, Vec<String>),
    UnsupportedExpression,
>)
    ensures
        (match r {
            Ok(p) => spec_walk(values@, q) == Ok::<(Seq<char>, Seq<Seq<char>>), int>(
                (p.0@, views_of(p.1@)),
            ),
            Err(er) => spec_walk(values@, q) == Err::<(Seq<char>, Seq<Seq<char>>), int>(
                er.line as int,
            ),
        }),
{
    let mut string = String::new();
    let mut args: Vec<String> = Vec::new();
    let mut i: usize = 0;
    proof {
        assert(values@.subrange(0, values@.len() as int) =~= values@);
        match spec_walk(values@, q) {
            Ok(rest) => {
                assert(string@ + rest.0 =~= rest.0);
                assert(views_of(args@) + rest.1 =~= rest.1);
            },
            Err(_) => {},
        }
    }
    while i < values.len()
        invariant
            i <= values.len(),
            (match spec_walk(values@.subrange(i as int, values@.len() as int), q) {
                Ok(rest) => spec_walk(values@, q) == Ok::<(Seq<char>, Seq<Seq<char>>), int>(
                    (string@ + rest.0, views_of(args@) + rest.1),
                ),
                Err(l) => spec_walk(values@, q) == Err::<(Seq<char>, Seq<Seq<char>>), int>(l),
            }),
        decreases values.len() - i,
    {
        let ghost suf = values@.subrange(i as int, values@.len() as int);
        proof {
            assert(suf[0] == values@[i as int]);
            assert(suf.subrange(1, suf.len() as int) =~= values@.subrange(
                i as int + 1,
                values@.len() as int,
            ));
        }
        let ghost s_before = string@;
        let ghost a_before = args@;
        match parse_fstring(&values[i], &mut string, &mut args, q) {
            Ok(_) => {},
            Err(e) => {
                return Err(e);
            },
        }
        proof {
            match spec_walk(values@.subrange(i as int + 1, values@.len() as int), q) {
                Ok(rest) => {
                    match spec_segment(values@[i as int], q) {
                        Ok(seg) => {
                            assert(string@ + rest.0 =~= s_before + (seg.0 + rest.0));
                            assert(views_of(args@) + rest.1 =~~= views_of(a_before) + (seg.1
                                + rest.1));
                        },
                        Err(_) => {},
                    }
                },
                Err(_) => {},
            }
        }
        i += 1;
    }
    proof {
        assert(values@.subrange(values@.len() as int, values@.len() as int) =~= Seq::<
            Expr,
        >::empty());
        assert(string@ + Seq::<char>::empty() =~= string@);
        assert(views_of(args@) + Seq::<Seq<char>>::empty() =~= views_of(args@));
    }
    Ok((string, args))
}

/// The Conversion Entry Point: converts one interpolated literal, and on any
/// failure returns no conversion, so that the caller leaves the original
/// literal untouched.
pub fn fix_fstring(values: &[Expr], q: char) -> (r: Option<(String, Vec<String>)>)
    ensures
        (match r {
            Some(p) => spec_walk(values@, q) == Ok::<(Seq<char>, Seq<Seq<char>>), int>(
                (p.0@, views_of(p.1@)),
            ),
            None => spec_walk(values@, q) is Err,
        }),
{
    match convert_segments(values, q) {
        Ok(p) => Some(p),
        Err(_) => None,
    }
}

/// The diagnostic line reported for a literal that could not be converted,
/// naming the file and line of the offending node and where to report it.
pub open spec fn spec_diagnostic(filename: Seq<char>, line: int, tracker: Seq<char>) -> Seq<char> {
    "Failed to parse `"@ + filename + "` line "@ + dec_rep(line) + ". Please open an issue at "@
        + tracker
}

/// Formats the diagnostic line for a failed conversion.
pub fn diagnostic_message(filename: &str, line: u64, tracker: &str) -> (r: String)
    ensures
        r@ == spec_diagnostic(filename@, line as int, tracker@),
{
    let mut s = String::from_str("Failed to parse `");
    s.append(filename);
    s.append("` line ");
    let d = u64_to_string(line);
    s.append(d.as_str());
    s.append(". Please open an issue at ");
    s.append(tracker);
    s
}

} // verus!
