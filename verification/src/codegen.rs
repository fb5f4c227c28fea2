//! The common shape of the three code generators, and rendering helpers they
//! share: operator texts, literal rendering, and trailing-semicolon trimming
//! for `for`-loop increments.

use vstd::prelude::*;

use crate::ast::AstNode;
use crate::ast::BinaryOperator;
use crate::ast::FloatLit;
use crate::ast::UnaryOperator;
use crate::strutil::i64_string;
use crate::strutil::int_str;
use crate::strutil::nat_str;
use crate::strutil::u64_string;
use vstd::string::StringExecFns;

verus! {

/// A walker that renders a whole syntax tree as text.  Each implementor fixes
/// its output by the spec function `gen_spec`; `generate` must produce exactly
/// that text for every tree, so generation has no failure mode.
pub trait CodeGenerator {
    /// The exact text this generator emits for the given tree.
    spec fn gen_spec(&self, ast: &AstNode) -> Seq<char>;

    /// Renders the tree.
    fn generate(&self, ast: &AstNode) -> (out: String)
        ensures
            out@ == self.gen_spec(ast),
    ;
}

/// The source text of a binary operator, shared by the Metal-like and the
/// WGSL-like targets.
pub open spec fn op_str(op: BinaryOperator) -> Seq<char> {
    match op {
        BinaryOperator::Add => "+"@,
        BinaryOperator::Sub => "-"@,
        BinaryOperator::Mul => "*"@,
        BinaryOperator::Div => "/"@,
        BinaryOperator::Equal => "=="@,
        BinaryOperator::Less => "<"@,
        BinaryOperator::Greater => ">"@,
        BinaryOperator::LessEqual => "<="@,
        BinaryOperator::GreaterEqual => ">="@,
    }
}

/// The source text of a prefix operator.
pub open spec fn unop_str(op: UnaryOperator) -> Seq<char> {
    match op {
        UnaryOperator::Negate => "-"@,
        UnaryOperator::Not => "!"@,
    }
}

/// Renders a binary operator.
pub fn op_text(op: &BinaryOperator) -> (s: &'static str)
    ensures
        s@ == op_str(*op),
{
    match op {
        BinaryOperator::Add => "+",
        BinaryOperator::Sub => "-",
        BinaryOperator::Mul => "*",
        BinaryOperator::Div => "/",
        BinaryOperator::Equal => "==",
        BinaryOperator::Less => "<",
        BinaryOperator::Greater => ">",
        BinaryOperator::LessEqual => "<=",
        BinaryOperator::GreaterEqual => ">=",
    }
}

/// Renders a prefix operator.
pub fn unop_text(op: &UnaryOperator) -> (s: &'static str)
    ensures
        s@ == unop_str(*op),
{
    match op {
        UnaryOperator::Negate => "-",
        UnaryOperator::Not => "!",
    }
}

/// The decimal rendering of a float literal: an integral value gets one
/// decimal place (`N.0`), any other value keeps its fractional digits.
pub open spec fn float_str(whole: nat, frac: Seq<char>) -> Seq<char> {
    if frac.len() == 0 {
        nat_str(whole) + ".0"@
    } else {
        nat_str(whole) + "."@ + frac
    }
}

/// The decimal rendering of an integer literal.
pub open spec fn int_lit_str(i: int) -> Seq<char> {
    int_str(i)
}

/// Renders a float literal.
pub fn float_text(f: &FloatLit) -> (out: String)
    ensures
        out@ == float_str(f.whole as nat, f.frac@),
{
    let mut out = u64_string(f.whole);
    if f.frac.as_str().unicode_len() == 0 {
        out.append(".0");
        assert(out@ =~= float_str(f.whole as nat, f.frac@));
    } else {
        out.append(".");
        out.append(f.frac.as_str());
        assert(out@ =~= float_str(f.whole as nat, f.frac@));
    }
    out
}

/// Renders an integer literal.
pub fn int_text(i: i64) -> (out: String)
    ensures
        out@ == int_lit_str(i as int),
{
    i64_string(i)
}

/// The text with every trailing semicolon removed, as the generators do to a
/// `for`-loop increment before splicing it into the loop head.
pub open spec fn strip_semis(s: Seq<char>) -> Seq<char>
    decreases s.len(),
{
    if s.len() > 0 && s[s.len() - 1] == ';' {
        strip_semis(s.drop_last())
    } else {
        s
    }
}

/// Removes every trailing semicolon.
pub fn trim_semis(s: &String) -> (out: String)
    ensures
        out@ == strip_semis(s@),
{
    let text = s.as_str();
    let n = text.unicode_len();
    let mut keep: usize = n;
    proof {
        assert(s@.subrange(0, n as int) =~= s@);
    }
    while keep > 0 && text.get_char(keep - 1) == ';'
        invariant
            keep <= n,
            n == s@.len(),
            text@ == s@,
            strip_semis(s@) == strip_semis(s@.subrange(0, keep as int)),
        decreases keep,
    {
        proof {
            assert(s@.subrange(0, keep as int).drop_last() =~= s@.subrange(0, keep as int - 1));
        }
        keep = keep - 1;
    }
    let mut out = String::new();
    let mut i: usize = 0;
    while i < keep
        invariant
            i <= keep <= n,
            n == s@.len(),
            text@ == s@,
            out@ == s@.subrange(0, i as int),
        decreases keep - i,
    {
        out.push(text.get_char(i));
        proof {
            assert(s@.subrange(0, i as int).push(s@[i as int]) =~= s@.subrange(0, i as int + 1));
        }
        i = i + 1;
    }
    proof {
        if keep > 0 {
            assert(s@.subrange(0, keep as int)[keep as int - 1] != ';');
        }
        assert(strip_semis(s@.subrange(0, keep as int)) == s@.subrange(0, keep as int));
    }
    out
}

} // verus!
