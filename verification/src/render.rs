use vstd::prelude::*;
use vstd::string::StringExecFns;
use crate::ast::Constant;

verus! {

/// The decimal digit character for `d`, which must lie in `0 ..= 9`.
pub open spec fn digit_char(d: int) -> char {
    if d == 0 {
        '0'
    } else if d == 1 {
        '1'
    } else if d == 2 {
        '2'
    } else if d == 3 {
        '3'
    } else if d == 4 {
        '4'
    } else if d == 5 {
        '5'
    } else if d == 6 {
        '6'
    } else if d == 7 {
        '7'
    } else if d == 8 {
        '8'
    } else {
        '9'
    }
}

/// The decimal source text of an integer: a minus sign for negative values,
/// then the digits most significant first, with no leading zeros.
pub open spec fn dec_rep(n: int) -> Seq<char>
    decreases (if n < 0 { 1int } else { 0int }), (if n < 0 { -n } else { n }),
{
    if n < 0 {
        seq!['-'] + dec_rep(-n)
    } else if n < 10 {
        seq![digit_char(n)]
    } else {
        dec_rep(n / 10) + seq![digit_char(n % 10)]
    }
}

/// Relies on `String::push`, which the std documentation states appends the
/// given `char` to the end of the string.
#[verifier::external_body]
pub(crate) fn push_char(s: &mut String, c: char)
    ensures
        final(s)@ == old(s)@ + seq![c],
{
    s.push(c);
}

fn digit_char_exec(d: u8) -> (c: char)
    requires
        d < 10,
    ensures
        c == digit_char(d as int),
{
    match d {
        0 => '0',
        1 => '1',
        2 => '2',
        3 => '3',
        4 => '4',
        5 => '5',
        6 => '6',
        7 => '7',
        8 => '8',
        _ => '9',
    }
}

/// Renders an unsigned integer in decimal.
pub fn u64_to_string(n: u64) -> (s: String)
    ensures
        s@ == dec_rep(n as int),
    decreases n,
{
    if n < 10 {
        let mut s = String::new();
        push_char(&mut s, digit_char_exec(n as u8));
        proof {
            assert(s@ =~= seq![digit_char(n as int)]);
        }
        s
    } else {
        let mut s = u64_to_string(n / 10);
        push_char(&mut s, digit_char_exec((n % 10) as u8));
        s
    }
}

/// Renders a signed integer in decimal.
pub fn int_to_string(n: i64) -> (s: String)
    ensures
        s@ == dec_rep(n as int),
{
    if n >= 0 {
        u64_to_string(n as u64)
    } else {
        let big: i128 = n as i128;
        let m: u64 = (-big) as u64;
        let mut s = String::new();
        push_char(&mut s, '-');
        let digits = u64_to_string(m);
        s.append(digits.as_str());
        proof {
            assert(s@ =~= seq!['-'] + dec_rep(-(n as int)));
        }
        s
    }
}

/// The canonical source text of a constant. Only a string constant is
/// quote-sensitive: when `quoted` is set it is wrapped in the configured quote
/// character `q`; numbers, booleans and `None` are never quoted.
pub open spec fn spec_render_constant(c: Constant, quoted: bool, q: char) -> Seq<char> {
    match c {
        Constant::Str(s) => if quoted {
            seq![q] + s@ + seq![q]
        } else {
            s@
        },
        Constant::Int(n) => dec_rep(n as int),
        Constant::Float(t) => t@,
        Constant::Bool(b) => if b {
            "True"@
        } else {
            "False"@
        },
        Constant::NoneLit => "None"@,
    }
}

/// The Text Renderer: turns a constant into its textual source form, wrapping
/// string constants in the quote character `q` when `quoted` is set.
pub fn constant_to_string(c: &Constant, quoted: bool, q: char) -> (r: String)
    ensures
        r@ == spec_render_constant(*c, quoted, q),
{
    match c {
        Constant::Str(s) => {
            if quoted {
                let mut out = String::new();
                push_char(&mut out, q);
                out.append(s.as_str());
                push_char(&mut out, q);
                proof {
                    assert(out@ =~= seq![q] + s@ + seq![q]);
                }
                out
            } else {
                s.clone()
            }
        },
        Constant::Int(n) => int_to_string(*n),
        Constant::Float(t) => t.clone(),
        Constant::Bool(b) => if *b {
            String::from_str("True")
        } else {
            String::from_str("False")
        },
        Constant::NoneLit => String::from_str("None"),
    }
}

} // verus!
