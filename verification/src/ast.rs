use vstd::prelude::*;

verus! {

/// One parsed Python expression, together with the source line it came from.
/// The line is carried only so that a failed conversion can point at the
/// offending node.
pub struct Expr {
    pub line: u64,
    pub kind: ExprKind,
}

/// The expression shapes the converter understands. Any node outside this
/// subset is handed over as `Other` and makes the conversion of the whole
/// literal fail.
#[allow(inconsistent_fields)]
pub enum ExprKind {
    Name { id: String },
    Attribute { value: Box<Expr>, attr: String },
    Constant { value: Constant },
    Call { func: Box<Expr>, args: Vec<Expr>, keywords: Vec<Keyword> },
    BinOp { left: Box<Expr>, op: Operator, right: Box<Expr> },
    Subscript { value: Box<Expr>, slice: Box<Expr> },
    ListComp { elt: Box<Expr>, generators: Vec<Comprehension> },
    DictComp { key: Box<Expr>, value: Box<Expr>, generators: Vec<Comprehension> },
    FormattedValue { value: Box<Expr> },
    Other,
}

/// A constant value as the parser hands it over. A floating-point constant is
/// carried as its already-rendered source text, since the converter only ever
/// reproduces that text.
pub enum Constant {
    Str(String),
    Int(i64),
    Float(String),
    Bool(bool),
    NoneLit,
}

/// A keyword argument of a call, `key=value`.
pub struct Keyword {
    pub key: String,
    pub value: Expr,
}

/// One `for <target> in <iter>` clause of a comprehension.
pub struct Comprehension {
    pub target: Expr,
    pub iter: Expr,
}

/// A binary operator between two sub-expressions.
pub enum Operator {
    Add,
    Sub,
    Mult,
    MatMult,
    Div,
    Mod,
    Pow,
    LShift,
    RShift,
    BitOr,
    BitXor,
    BitAnd,
    FloorDiv,
}

/// The one error of the converter: the expression at `line` lies outside the
/// supported grammar subset.
#[derive(Debug, PartialEq, Eq, Clone, Copy)]
pub struct UnsupportedExpression {
    pub line: u64,
}

/// The infix source symbol of each supported binary operator.
pub open spec fn op_symbol(op: Operator) -> Seq<char> {
    match op {
        Operator::Add => "+"@,
        Operator::Sub => "-"@,
        Operator::Mult => "*"@,
        Operator::MatMult => "@"@,
        Operator::Div => "/"@,
        Operator::Mod => "%"@,
        Operator::Pow => "**"@,
        Operator::LShift => "<<"@,
        Operator::RShift => ">>"@,
        Operator::BitOr => "|"@,
        Operator::BitXor => "^"@,
        Operator::BitAnd => "&"@,
        Operator::FloorDiv => "//"@,
    }
}

/// Maps a binary operator to its textual infix symbol.
pub fn operator_to_string(op: &Operator) -> (r: &'static str)
    ensures
        r@ == op_symbol(*op),
{
    match op {
        Operator::Add => "+",
        Operator::Sub => "-",
        Operator::Mult => "*",
        Operator::MatMult => "@",
        Operator::Div => "/",
        Operator::Mod => "%",
        Operator::Pow => "**",
        Operator::LShift => "<<",
        Operator::RShift => ">>",
        Operator::BitOr => "|",
        Operator::BitXor => "^",
        Operator::BitAnd => "&",
        Operator::FloorDiv => "//",
    }
}

} // verus!
