use vstd::prelude::*;
use crate::ast::{Expr, ExprKind, UnsupportedExpression};
use crate::render::spec_render_constant;
use crate::resolve::resolve_matches;
use crate::fstring::{spec_segment, spec_walk};

verus! {

/// The number of `%s` placeholders in a template, counted left to right.
pub open spec fn count_placeholders(s: Seq<char>) -> nat
    decreases s.len(),
{
    if s.len() < 2 {
        0
    } else if s[0] == '%' && s[1] == 's' {
        1 + count_placeholders(s.subrange(2, s.len() as int))
    } else {
        count_placeholders(s.subrange(1, s.len() as int))
    }
}

/// Whether the text contains no percent character.
pub open spec fn percent_free(s: Seq<char>) -> bool {
    forall|j: int| 0 <= j < s.len() ==> s[j] != '%'
}

/// Whether a segment contributes template text free of percent characters: a
/// literal-text segment must render without `%`; an interpolation segment
/// contributes exactly one placeholder and is always fine.
pub open spec fn segment_percent_free(e: Expr, q: char) -> bool {
    match e.kind {
        ExprKind::Constant { value } => percent_free(spec_render_constant(value, false, q)),
        _ => true,
    }
}

/// Whether every literal-text segment of the literal renders without `%`.
pub open spec fn literal_texts_percent_free(values: Seq<Expr>, q: char) -> bool {
    forall|i: int| 0 <= i < values.len() ==> segment_percent_free(#[trigger] values[i], q)
}

proof fn lemma_count_percent_free(s: Seq<char>)
    requires
        percent_free(s),
    ensures
        count_placeholders(s) == 0,
    decreases s.len(),
{
    if s.len() < 2 {
    } else {
        assert(s[0] != '%');
        let s1 = s.subrange(1, s.len() as int);
        assert(percent_free(s1)) by {
            assert(forall|j: int| 0 <= j < s1.len() ==> s1[j] == s[j + 1]);
        }
        lemma_count_percent_free(s1);
    }
}

proof fn lemma_count_split(a: Seq<char>, b: Seq<char>)
    requires
        a.len() == 0 || a.last() != '%',
    ensures
        count_placeholders(a + b) == count_placeholders(a) + count_placeholders(b),
    decreases a.len(),
{
    let ab = a + b;
    if a.len() == 0 {
        assert(ab =~= b);
    } else if a.len() == 1 {
        if b.len() == 0 {
            assert(ab =~= a);
        } else {
            assert(ab[0] == a[0]);
            assert(a[0] != '%');
            assert(ab.subrange(1, ab.len() as int) =~= b);
            assert(count_placeholders(a) == 0);
        }
    } else {
        assert(ab[0] == a[0] && ab[1] == a[1]);
        if a[0] == '%' && a[1] == 's' {
            let a2 = a.subrange(2, a.len() as int);
            assert(ab.subrange(2, ab.len() as int) =~= a2 + b);
            assert(a2.len() == 0 || a2.last() != '%');
            lemma_count_split(a2, b);
        } else {
            let a1 = a.subrange(1, a.len() as int);
            assert(ab.subrange(1, ab.len() as int) =~= a1 + b);
            assert(a1.last() != '%');
            lemma_count_split(a1, b);
        }
    }
}

proof fn lemma_count_placeholder_literal()
    ensures
        count_placeholders("%s"@) == 1,
        "%s"@.len() == 2 && "%s"@.last() == 's',
{
    reveal_strlit("%s");
    assert("%s"@.len() == 2);
    assert("%s"@[0] == '%');
    assert("%s"@[1] == 's');
    assert("%s"@.subrange(2, 2) =~= Seq::<char>::empty());
    assert(count_placeholders(Seq::<char>::empty()) == 0);
}

/// Placeholder/argument correspondence: a conversion that succeeds yields a
/// template holding exactly one `%s` placeholder per argument, as long as no
/// literal-text segment itself renders a percent character (a literal
/// containing `%s` as plain text would be counted as a placeholder too).
pub proof fn lemma_placeholder_count(values: Seq<Expr>, q: char, t: Seq<char>, args: Seq<Seq<char>>)
    requires
        spec_walk(values, q) == Ok::<(Seq<char>, Seq<Seq<char>>), int>((t, args)),
        literal_texts_percent_free(values, q),
    ensures
        count_placeholders(t) == args.len(),
    decreases values.len(),
{
    if values.len() == 0 {
        assert(t =~= Seq::<char>::empty());
    } else {
        let rest = values.subrange(1, values.len() as int);
        match spec_segment(values[0], q) {
            Ok(seg) => {
                match spec_walk(rest, q) {
                    Ok(r2) => {
                        assert(t == seg.0 + r2.0);
                        assert(args == seg.1 + r2.1);
                        assert(literal_texts_percent_free(rest, q)) by {
                            assert forall|i: int| 0 <= i < rest.len() implies segment_percent_free(
                                #[trigger] rest[i],
                                q,
                            ) by {
                                assert(rest[i] == values[i + 1]);
                                assert(segment_percent_free(values[i + 1], q));
                            }
                        }
                        lemma_placeholder_count(rest, q, r2.0, r2.1);
                        match values[0].kind {
                            ExprKind::Constant { value } => {
                                assert(segment_percent_free(values[0], q));
                                assert(percent_free(seg.0));
                                if seg.0.len() > 0 {
                                    assert(seg.0.last() != '%');
                                }
                                lemma_count_split(seg.0, r2.0);
                                lemma_count_percent_free(seg.0);
                                assert(seg.1.len() == 0);
                            },
                            ExprKind::FormattedValue { value } => {
                                lemma_count_placeholder_literal();
                                lemma_count_split(seg.0, r2.0);
                                assert(seg.1.len() == 1);
                            },
                            _ => {
                                assert(false);
                            },
                        }
                    },
                    Err(_) => {
                        assert(false);
                    },
                }
            },
            Err(_) => {
                assert(false);
            },
        }
    }
}

/// Determinism of resolution: any two results that satisfy the resolver's
/// contract for the same expression, postfix, context flag and quote
/// character carry the same text, or report the same line.
pub proof fn lemma_resolution_deterministic(
    e: Expr,
    postfix: Seq<char>,
    in_call: bool,
    q: char,
    r1: Result<String, UnsupportedExpression>,
    r2: Result<String, UnsupportedExpression>,
)
    requires
        resolve_matches(e, postfix, in_call, q, r1),
        resolve_matches(e, postfix, in_call, q, r2),
    ensures
        (match (r1, r2) {
            (Ok(a), Ok(b)) => a@ == b@,
            (Err(a), Err(b)) => a.line == b.line,
            _ => false,
        }),
{
}

} // verus!
