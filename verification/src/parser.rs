//! The recursive-descent parser: two surface grammars (the `fn`-style one
//! and the legacy C-style one) built into one tree shape.  The first grammar
//! violation aborts parsing with a single `Expected ..., got ...` message;
//! there is no recovery.

use vstd::prelude::*;

use crate::ast::AstNode;
use crate::ast::AstView;
use crate::ast::BinaryOperator;
use crate::ast::FloatLit;
use crate::ast::UnaryOperator;
use crate::lexer::clamp_pos;
use crate::lexer::is_digit;
use crate::lexer::Token;
use crate::lexer::TokenView;
use crate::strutil::str_chars;
use crate::strutil::str_equal;
use crate::strutil::seg_string;
use vstd::string::StringExecFns;

verus! {


/// The outcome of one specification-level parsing step: the parsed value or
/// the error message, and the cursor position after the step.
pub struct PStep<T> {
    pub out: Result<T, Seq<char>>,
    pub next: int,
}

/// A sequencing position: never before `lo`, and never past `len` when `lo`
/// itself lies within the input.
pub open spec fn at_least(len: int, lo: int, j: int) -> int {
    if j < lo {
        lo
    } else if j > len {
        if lo > len {
            lo
        } else {
            len
        }
    } else {
        j
    }
}

/// The printed shape of a token in an error message.
pub open spec fn tok_desc(t: TokenView) -> Seq<char> {
    match t {
        TokenView::Struct => "Struct"@,
        TokenView::Fn => "Fn"@,
        TokenView::Return => "Return"@,
        TokenView::If => "If"@,
        TokenView::Else => "Else"@,
        TokenView::For => "For"@,
        TokenView::Break => "Break"@,
        TokenView::Bang => "Bang"@,
        TokenView::LParen => "LParen"@,
        TokenView::RParen => "RParen"@,
        TokenView::LBrace => "LBrace"@,
        TokenView::RBrace => "RBrace"@,
        TokenView::LBracket => "LBracket"@,
        TokenView::RBracket => "RBracket"@,
        TokenView::Semicolon => "Semicolon"@,
        TokenView::Colon => "Colon"@,
        TokenView::Comma => "Comma"@,
        TokenView::Dot => "Dot"@,
        TokenView::Equals => "Equals"@,
        TokenView::Plus => "Plus"@,
        TokenView::Minus => "Minus"@,
        TokenView::Star => "Star"@,
        TokenView::Slash => "Slash"@,
        TokenView::Greater => "Greater"@,
        TokenView::Less => "Less"@,
        TokenView::DoubleEquals => "DoubleEquals"@,
        TokenView::LessEquals => "LessEquals"@,
        TokenView::GreaterEquals => "GreaterEquals"@,
        TokenView::Identifier(s) => "Identifier("@ + s + ")"@,
        TokenView::Number(s) => "Number("@ + s + ")"@,
        TokenView::DocComment(s) => "DocComment("@ + s + ")"@,
    }
}

/// The printed shape of whatever stands at a position: a token, or `EOF`.
pub open spec fn got_desc(ts: Seq<Token>, i: int) -> Seq<char> {
    if 0 <= i < ts.len() {
        tok_desc(ts[i]@)
    } else {
        "EOF"@
    }
}

/// The message of a failed expectation.
pub open spec fn expect_msg(exp: TokenView, ts: Seq<Token>, i: int) -> Seq<char> {
    "Expected "@ + tok_desc(exp) + ", got "@ + got_desc(ts, i)
}

/// Consuming one expected token: one step forward on a match, the
/// expectation message and an unmoved cursor otherwise.
pub open spec fn sp_consume(ts: Seq<Token>, i: int, exp: TokenView) -> PStep<()> {
    if 0 <= i < ts.len() && ts[i]@ == exp {
        PStep { out: Ok(()), next: i + 1 }
    } else {
        PStep { out: Err(expect_msg(exp, ts, i)), next: i }
    }
}

/// The model of a node-or-message result.
pub open spec fn node_res(r: Result<AstNode, String>) -> Result<AstView, Seq<char>> {
    match r {
        Ok(n) => Ok(n@),
        Err(e) => Err(e@),
    }
}

/// The model of a unit-or-message result.
pub open spec fn unit_res(r: Result<(), String>) -> Result<(), Seq<char>> {
    match r {
        Ok(u) => Ok(u),
        Err(e) => Err(e@),
    }
}

// --- Numeric literal conversion ------------------------------------------
//
// Numeric lexemes are stored as raw text by the lexer; the parser converts
// them here and silently falls back to zero on malformed or oversized input.

/// Every character is a decimal digit.
pub open spec fn all_digits(s: Seq<char>) -> bool {
    forall|k: int| 0 <= k < s.len() ==> is_digit(#[trigger] s[k])
}

/// The value of a digit string, most significant first.
pub open spec fn digits_val(s: Seq<char>) -> nat
    decreases s.len(),
{
    if s.len() == 0 {
        0
    } else {
        digits_val(s.drop_last()) * 10 + (s[s.len() - 1] as u32 - 48) as nat
    }
}

/// The number a digit string denotes, or zero when it is not a plain digit
/// string or its value does not fit below the cap.
pub open spec fn capped_val(s: Seq<char>, cap: nat) -> nat {
    if s.len() > 0 && all_digits(s) && digits_val(s) <= cap {
        digits_val(s)
    } else {
        0
    }
}

/// The position of the first `.` in a lexeme, or its length.
pub open spec fn dot_pos(s: Seq<char>, i: int) -> int
    decreases s.len() - i,
{
    if i < s.len() && s[i] != '.' {
        dot_pos(s, i + 1)
    } else {
        i
    }
}

/// Drops trailing zero digits from a fraction.
pub open spec fn strip_zeros(t: Seq<char>) -> Seq<char>
    decreases t.len(),
{
    if t.len() > 0 && t[t.len() - 1] == '0' {
        strip_zeros(t.drop_last())
    } else {
        t
    }
}

/// The decimal parts a float lexeme denotes: the digits before the first
/// `.` and the digits after it with trailing zeros stripped; zero when the
/// lexeme is not of that shape or its integer part does not fit.
pub open spec fn float_of_lexeme(s: Seq<char>) -> (nat, Seq<char>) {
    let d = at_least(s.len() as int, 0, dot_pos(s, 0));
    let left = s.subrange(0, d);
    let right = if d < s.len() {
        s.subrange(d + 1, s.len() as int)
    } else {
        Seq::<char>::empty()
    };
    if left.len() > 0 && all_digits(left) && all_digits(right) && digits_val(left)
        <= u64::MAX as nat {
        (digits_val(left), strip_zeros(right))
    } else {
        (0, Seq::<char>::empty())
    }
}

/// Extending a digit prefix never lowers its value.
proof fn lemma_digits_val_mono(s: Seq<char>, k: int)
    requires
        0 <= k <= s.len(),
        all_digits(s),
    ensures
        digits_val(s) >= digits_val(s.subrange(0, k)),
    decreases s.len() - k,
{
    if k < s.len() {
        assert(s.subrange(0, k + 1).drop_last() =~= s.subrange(0, k));
        assert(digits_val(s.subrange(0, k + 1)) == digits_val(s.subrange(0, k)) * 10 + (s[k] as u32
            - 48));
        lemma_digits_val_mono(s, k + 1);
    } else {
        assert(s.subrange(0, k) =~= s);
    }
}

/// Reads a nonempty digit string whose value fits in 64 bits; anything else
/// is `None`.
fn digits_value_checked(v: &Vec<char>, a: usize, b: usize) -> (r: Option<u64>)
    requires
        a <= b <= v@.len(),
    ensures
        ({
            let s = v@.subrange(a as int, b as int);
            if s.len() > 0 && all_digits(s) && digits_val(s) <= u64::MAX as nat {
                r == Some(digits_val(s) as u64)
            } else {
                r is None
            }
        }),
{
    let ghost s = v@.subrange(a as int, b as int);
    if a == b {
        return None;
    }
    let mut i: usize = a;
    let mut acc: u64 = 0;
    while i < b
        invariant
            a <= i <= b <= v@.len(),
            s == v@.subrange(a as int, b as int),
            all_digits(s.subrange(0, i - a)),
            acc as nat == digits_val(s.subrange(0, i - a)),
        decreases b - i,
    {
        let c = v[i];
        let u = c as u32;
        proof {
            assert(s.subrange(0, i - a + 1).drop_last() =~= s.subrange(0, i - a));
            assert(s.subrange(0, i - a + 1)[i - a] == v@[i as int]);
        }
        if !(48 <= u && u <= 57) {
            proof {
                assert(!is_digit(s[i - a]));
            }
            return None;
        }
        let d = (u - 48) as u64;
        if acc > (u64::MAX - d) / 10 {
            proof {
                assert(digits_val(s.subrange(0, i - a + 1)) == acc as nat * 10 + d as nat);
                assert(acc as nat * 10 + d as nat > u64::MAX as nat) by (nonlinear_arith)
                    requires
                        acc as nat > ((u64::MAX - d) / 10) as nat,
                        d <= 9,
                        ((u64::MAX - d) / 10) as nat == ((u64::MAX as nat - d as nat) / 10),
                {
                }
                if all_digits(s) {
                    lemma_digits_val_mono(s, i - a + 1);
                }
            }
            return None;
        }
        acc = acc * 10 + d;
        i = i + 1;
    }
    proof {
        assert(s.subrange(0, (b - a) as int) =~= s);
    }
    Some(acc)
}

/// Converts an integer lexeme; malformed or oversized input falls back to
/// zero.
pub fn int_of_lexeme_exec(lex: &str) -> (r: i64)
    ensures
        r as int == capped_val(lex@, i64::MAX as nat),
{
    let v = str_chars(lex);
    let n = v.len();
    proof {
        assert(v@.subrange(0, n as int) =~= v@);
    }
    match digits_value_checked(&v, 0, n) {
        Some(x) => {
            if x <= 9223372036854775807u64 {
                x as i64
            } else {
                0
            }
        },
        None => 0,
    }
}

/// Converts a size lexeme; malformed or oversized input falls back to zero.
pub fn usize_of_lexeme_exec(lex: &str) -> (r: usize)
    ensures
        r as nat == capped_val(lex@, usize::MAX as nat),
{
    let v = str_chars(lex);
    let n = v.len();
    proof {
        assert(v@.subrange(0, n as int) =~= v@);
    }
    match digits_value_checked(&v, 0, n) {
        Some(x) => {
            if x <= usize::MAX as u64 {
                x as usize
            } else {
                0
            }
        },
        None => 0,
    }
}

/// Converts a float lexeme into its decimal parts; malformed input falls
/// back to zero.
pub fn float_of_lexeme_exec(lex: &str) -> (f: FloatLit)
    ensures
        f.whole as nat == float_of_lexeme(lex@).0,
        f.frac@ == float_of_lexeme(lex@).1,
{
    let v = str_chars(lex);
    let n = v.len();
    let mut d: usize = 0;
    while d < n && v[d] != '.'
        invariant
            d <= n,
            n == v@.len(),
            dot_pos(v@, 0) == dot_pos(v@, d as int),
        decreases n - d,
    {
        d = d + 1;
    }
    proof {
        assert(dot_pos(v@, 0) == d as int);
        assert(at_least(n as int, 0, d as int) == d as int);
    }
    let fs = if d < n {
        d + 1
    } else {
        n
    };
    let ghost left = v@.subrange(0, d as int);
    let ghost right = v@.subrange(fs as int, n as int);
    proof {
        if (d as int) < n as int {
            assert(right =~= v@.subrange(d as int + 1, n as int));
        } else {
            assert(right =~= Seq::<char>::empty());
        }
    }
    let whole_checked = digits_value_checked(&v, 0, d);
    let mut frac_ok = true;
    let mut j: usize = fs;
    while j < n
        invariant
            fs <= j <= n,
            n == v@.len(),
            right == v@.subrange(fs as int, n as int),
            frac_ok == all_digits(v@.subrange(fs as int, j as int)),
        decreases n - j,
    {
        let u = v[j] as u32;
        let digit_here = 48 <= u && u <= 57;
        proof {
            assert(v@.subrange(fs as int, j as int + 1).drop_last() =~= v@.subrange(
                fs as int,
                j as int,
            ));
            assert(v@.subrange(fs as int, j as int + 1)[j as int - fs as int] == v@[j as int]);
            if !digit_here {
                assert(!is_digit(v@.subrange(fs as int, j as int + 1)[j - fs]));
            }
        }
        frac_ok = frac_ok && digit_here;
        j = j + 1;
    }
    proof {
        assert(v@.subrange(fs as int, n as int) == right);
    }
    let whole = match whole_checked {
        Some(w) => {
            if !frac_ok {
                return FloatLit { whole: 0, frac: String::new() };
            }
            w
        },
        None => {
            proof {
                if left.len() > 0 && all_digits(left) && digits_val(left) <= u64::MAX as nat {
                    assert(whole_checked is Some);
                }
            }
            return FloatLit { whole: 0, frac: String::new() };
        },
    };
    let mut e: usize = n;
    while e > fs && v[e - 1] == '0'
        invariant
            fs <= e <= n,
            n == v@.len(),
            right == v@.subrange(fs as int, n as int),
            strip_zeros(right) == strip_zeros(v@.subrange(fs as int, e as int)),
        decreases e,
    {
        proof {
            assert(v@.subrange(fs as int, e as int).drop_last() =~= v@.subrange(
                fs as int,
                e as int - 1,
            ));
        }
        e = e - 1;
    }
    proof {
        assert(strip_zeros(v@.subrange(fs as int, e as int)) == v@.subrange(fs as int, e as int));
    }
    let frac = seg_string(&v, fs, e);
    FloatLit { whole, frac }
}



// --- Expression grammar, specification level -----------------------------

/// The comparison operator a token denotes, if any.
pub open spec fn cmp_op_of(t: TokenView) -> Option<BinaryOperator> {
    match t {
        TokenView::Greater => Some(BinaryOperator::Greater),
        TokenView::Less => Some(BinaryOperator::Less),
        TokenView::DoubleEquals => Some(BinaryOperator::Equal),
        TokenView::LessEquals => Some(BinaryOperator::LessEqual),
        TokenView::GreaterEquals => Some(BinaryOperator::GreaterEqual),
        _ => None,
    }
}

/// The additive operator a token denotes, if any.
pub open spec fn add_op_of(t: TokenView) -> Option<BinaryOperator> {
    match t {
        TokenView::Plus => Some(BinaryOperator::Add),
        TokenView::Minus => Some(BinaryOperator::Sub),
        _ => None,
    }
}

/// The multiplicative operator a token denotes, if any.
pub open spec fn mul_op_of(t: TokenView) -> Option<BinaryOperator> {
    match t {
        TokenView::Star => Some(BinaryOperator::Mul),
        TokenView::Slash => Some(BinaryOperator::Div),
        _ => None,
    }
}

/// A primary expression: a number, an identifier, or a parenthesized
/// expression, which adds no node of its own.
pub open spec fn sp_primary(ts: Seq<Token>, i: int) -> PStep<AstView>
    decreases ts.len() - i, 2int,
{
    if 0 <= i < ts.len() {
        match ts[i] {
            Token::Number(s) => if dot_pos(s@, 0) < s@.len() {
                PStep {
                    out: Ok(
                        AstView::LiteralFloat {
                            whole: float_of_lexeme(s@).0,
                            frac: float_of_lexeme(s@).1,
                        },
                    ),
                    next: i + 1,
                }
            } else {
                PStep {
                    out: Ok(AstView::LiteralInt(capped_val(s@, i64::MAX as nat) as int)),
                    next: i + 1,
                }
            },
            Token::Identifier(s) => PStep { out: Ok(AstView::Variable(s@)), next: i + 1 },
            Token::LParen => {
                let e = sp_expression(ts, i + 1);
                match e.out {
                    Err(m) => PStep { out: Err(m), next: e.next },
                    Ok(v) => {
                        let c = sp_consume(
                            ts,
                            at_least(ts.len() as int, i + 1, e.next),
                            TokenView::RParen,
                        );
                        match c.out {
                            Err(m) => PStep { out: Err(m), next: c.next },
                            Ok(u) => PStep { out: Ok(v), next: c.next },
                        }
                    },
                }
            },
            _ => PStep { out: Err("Unexpected token: "@ + tok_desc(ts[i]@)), next: i },
        }
    } else {
        PStep { out: Err("Unexpected EOF"@), next: i }
    }
}

/// The postfix chain after a parsed base: calls, subscripts and member
/// accesses, left to right.
pub open spec fn sp_postfix_more(ts: Seq<Token>, i: int, base: AstView) -> PStep<AstView>
    decreases ts.len() - i, 2int,
{
    if 0 <= i < ts.len() {
        if ts[i] is LParen {
            let args = sp_call_args(ts, i + 1);
            match args.out {
                Err(m) => PStep { out: Err(m), next: args.next },
                Ok(avs) => {
                    let c = sp_consume(
                        ts,
                        at_least(ts.len() as int, i + 1, args.next),
                        TokenView::RParen,
                    );
                    match c.out {
                        Err(m) => PStep { out: Err(m), next: c.next },
                        Ok(u) => match base {
                            AstView::Variable(name) => sp_postfix_more(
                                ts,
                                clamp_pos(ts.len() as int, i, c.next),
                                AstView::Call { func_name: name, args: avs },
                            ),
                            _ => PStep {
                                out: Err("Expected identifier before call"@),
                                next: c.next,
                            },
                        },
                    }
                },
            }
        } else if ts[i] is LBracket {
            let e = sp_expression(ts, i + 1);
            match e.out {
                Err(m) => PStep { out: Err(m), next: e.next },
                Ok(ix) => {
                    let c = sp_consume(
                        ts,
                        at_least(ts.len() as int, i + 1, e.next),
                        TokenView::RBracket,
                    );
                    match c.out {
                        Err(m) => PStep { out: Err(m), next: c.next },
                        Ok(u) => sp_postfix_more(
                            ts,
                            clamp_pos(ts.len() as int, i, c.next),
                            AstView::SubscriptAccess {
                                base: Box::new(base),
                                index: Box::new(ix),
                            },
                        ),
                    }
                },
            }
        } else if ts[i] is Dot {
            if i + 1 < ts.len() && ts[i + 1] is Identifier {
                sp_postfix_more(
                    ts,
                    i + 2,
                    AstView::MemberAccess { base: Box::new(base), member: ts[i + 1]->Identifier_0@ },
                )
            } else {
                PStep { out: Err("Expected member name"@), next: i + 1 }
            }
        } else {
            PStep { out: Ok(base), next: i }
        }
    } else {
        PStep { out: Ok(base), next: i }
    }
}

/// The comma-separated arguments of a call, up to the closing parenthesis.
pub open spec fn sp_call_args(ts: Seq<Token>, i: int) -> PStep<Seq<AstView>>
    decreases ts.len() - i, 10int,
{
    if 0 <= i < ts.len() && ts[i] is RParen {
        PStep { out: Ok(Seq::empty()), next: i }
    } else if 0 <= i < ts.len() {
        let e = sp_expression(ts, i);
        match e.out {
            Err(m) => PStep { out: Err(m), next: e.next },
            Ok(v) => {
                let p = at_least(ts.len() as int, i, e.next);
                let p2 = if p < ts.len() && ts[p] is Comma {
                    p + 1
                } else {
                    p
                };
                let rest = sp_call_args(ts, clamp_pos(ts.len() as int, i, p2));
                match rest.out {
                    Err(m) => PStep { out: Err(m), next: rest.next },
                    Ok(vs) => PStep { out: Ok(seq![v] + vs), next: rest.next },
                }
            },
        }
    } else {
        PStep { out: Err("Unexpected EOF"@), next: i }
    }
}

/// A postfix expression: a primary followed by its postfix chain.
pub open spec fn sp_postfix(ts: Seq<Token>, i: int) -> PStep<AstView>
    decreases ts.len() - i, 3int,
{
    let p = sp_primary(ts, i);
    match p.out {
        Err(m) => PStep { out: Err(m), next: p.next },
        Ok(base) => sp_postfix_more(ts, at_least(ts.len() as int, i, p.next), base),
    }
}

/// A unary expression: prefix `-` and `!`, right-recursive.
pub open spec fn sp_unary(ts: Seq<Token>, i: int) -> PStep<AstView>
    decreases ts.len() - i, 4int,
{
    if 0 <= i < ts.len() && (ts[i] is Minus || ts[i] is Bang) {
        let op = if ts[i] is Minus {
            UnaryOperator::Negate
        } else {
            UnaryOperator::Not
        };
        let r = sp_unary(ts, i + 1);
        match r.out {
            Err(m) => PStep { out: Err(m), next: r.next },
            Ok(v) => PStep { out: Ok(AstView::UnaryOp { op, right: Box::new(v) }), next: r.next },
        }
    } else {
        sp_postfix(ts, i)
    }
}

/// The multiplicative chain after a parsed left operand.
pub open spec fn sp_term_more(ts: Seq<Token>, i: int, left: AstView) -> PStep<AstView>
    decreases ts.len() - i, 4int,
{
    if 0 <= i < ts.len() && mul_op_of(ts[i]@) is Some {
        let op = mul_op_of(ts[i]@)->0;
        let r = sp_unary(ts, i + 1);
        match r.out {
            Err(m) => PStep { out: Err(m), next: r.next },
            Ok(rv) => sp_term_more(
                ts,
                clamp_pos(ts.len() as int, i, r.next),
                AstView::BinaryOp { left: Box::new(left), op, right: Box::new(rv) },
            ),
        }
    } else {
        PStep { out: Ok(left), next: i }
    }
}

/// A multiplicative expression, left to right.
pub open spec fn sp_term(ts: Seq<Token>, i: int) -> PStep<AstView>
    decreases ts.len() - i, 5int,
{
    let u = sp_unary(ts, i);
    match u.out {
        Err(m) => PStep { out: Err(m), next: u.next },
        Ok(l) => sp_term_more(ts, at_least(ts.len() as int, i, u.next), l),
    }
}

/// The additive chain after a parsed left operand.
pub open spec fn sp_math_more(ts: Seq<Token>, i: int, left: AstView) -> PStep<AstView>
    decreases ts.len() - i, 5int,
{
    if 0 <= i < ts.len() && add_op_of(ts[i]@) is Some {
        let op = add_op_of(ts[i]@)->0;
        let r = sp_term(ts, i + 1);
        match r.out {
            Err(m) => PStep { out: Err(m), next: r.next },
            Ok(rv) => sp_math_more(
                ts,
                clamp_pos(ts.len() as int, i, r.next),
                AstView::BinaryOp { left: Box::new(left), op, right: Box::new(rv) },
            ),
        }
    } else {
        PStep { out: Ok(left), next: i }
    }
}

/// An additive expression, left to right.
pub open spec fn sp_math(ts: Seq<Token>, i: int) -> PStep<AstView>
    decreases ts.len() - i, 6int,
{
    let l = sp_term(ts, i);
    match l.out {
        Err(m) => PStep { out: Err(m), next: l.next },
        Ok(lv) => sp_math_more(ts, at_least(ts.len() as int, i, l.next), lv),
    }
}

/// The comparison chain after a parsed left operand: non-associative
/// chaining by iteration.
pub open spec fn sp_comparison_more(ts: Seq<Token>, i: int, left: AstView) -> PStep<AstView>
    decreases ts.len() - i, 6int,
{
    if 0 <= i < ts.len() && cmp_op_of(ts[i]@) is Some {
        let op = cmp_op_of(ts[i]@)->0;
        let r = sp_math(ts, i + 1);
        match r.out {
            Err(m) => PStep { out: Err(m), next: r.next },
            Ok(rv) => sp_comparison_more(
                ts,
                clamp_pos(ts.len() as int, i, r.next),
                AstView::BinaryOp { left: Box::new(left), op, right: Box::new(rv) },
            ),
        }
    } else {
        PStep { out: Ok(left), next: i }
    }
}

/// A comparison expression, left to right.
pub open spec fn sp_comparison(ts: Seq<Token>, i: int) -> PStep<AstView>
    decreases ts.len() - i, 7int,
{
    let l = sp_math(ts, i);
    match l.out {
        Err(m) => PStep { out: Err(m), next: l.next },
        Ok(lv) => sp_comparison_more(ts, at_least(ts.len() as int, i, l.next), lv),
    }
}

/// A full expression: the lowest-precedence level is comparison.
pub open spec fn sp_expression(ts: Seq<Token>, i: int) -> PStep<AstView>
    decreases ts.len() - i, 8int,
{
    sp_comparison(ts, i)
}


// --- Statement and declaration grammar, specification level --------------

/// Collected documentation lines before a declaration, joined with
/// newlines, and the position after them.
pub struct PDocs {
    pub doc: Option<Seq<char>>,
    pub next: int,
}

/// Consecutive documentation tokens join, newline-separated, into one
/// documentation string for the declaration that follows.
pub open spec fn sp_docs(ts: Seq<Token>, i: int) -> PDocs
    decreases ts.len() - i, 13int,
{
    if 0 <= i < ts.len() && ts[i] is DocComment {
        let d0 = ts[i]->DocComment_0@;
        let rest = sp_docs(ts, i + 1);
        match rest.doc {
            Some(r) => PDocs { doc: Some(d0 + "\n"@ + r), next: rest.next },
            None => PDocs { doc: Some(d0), next: rest.next },
        }
    } else {
        PDocs { doc: None, next: i }
    }
}

/// The comma-separated values of an array initializer, up to the closing
/// brace.
pub open spec fn sp_array_vals(ts: Seq<Token>, i: int) -> PStep<Seq<AstView>>
    decreases ts.len() - i, 10int,
{
    if 0 <= i < ts.len() && ts[i] is RBrace {
        PStep { out: Ok(Seq::empty()), next: i }
    } else if 0 <= i < ts.len() {
        let e = sp_expression(ts, i);
        match e.out {
            Err(m) => PStep { out: Err(m), next: e.next },
            Ok(v) => {
                let p = at_least(ts.len() as int, i, e.next);
                let p2 = if p < ts.len() && ts[p] is Comma {
                    p + 1
                } else {
                    p
                };
                let rest = sp_array_vals(ts, clamp_pos(ts.len() as int, i, p2));
                match rest.out {
                    Err(m) => PStep { out: Err(m), next: rest.next },
                    Ok(vs) => PStep { out: Ok(seq![v] + vs), next: rest.next },
                }
            },
        }
    } else {
        PStep { out: Err("Unexpected EOF"@), next: i }
    }
}

/// A `for`-loop increment: a bare expression or assignment, with no
/// trailing semicolon.
pub open spec fn sp_increment(ts: Seq<Token>, i: int) -> PStep<AstView>
    decreases ts.len() - i, 10int,
{
    let e = sp_expression(ts, i);
    match e.out {
        Err(m) => PStep { out: Err(m), next: e.next },
        Ok(target) => {
            let p = at_least(ts.len() as int, i, e.next);
            if p < ts.len() && ts[p] is Equals {
                let v = sp_expression(ts, p + 1);
                match v.out {
                    Err(m) => PStep { out: Err(m), next: v.next },
                    Ok(value) => PStep {
                        out: Ok(
                            AstView::Assignment {
                                target: Box::new(target),
                                value: Box::new(value),
                            },
                        ),
                        next: at_least(ts.len() as int, p + 1, v.next),
                    },
                }
            } else {
                PStep { out: Ok(target), next: p }
            }
        },
    }
}

/// The statements of a block, up to and including the closing brace.
pub open spec fn sp_stmt_list(ts: Seq<Token>, i: int) -> PStep<Seq<AstView>>
    decreases ts.len() - i, 12int,
{
    if 0 <= i < ts.len() && !(ts[i] is RBrace) {
        let st = sp_statement(ts, i);
        match st.out {
            Err(m) => PStep { out: Err(m), next: st.next },
            Ok(v) => {
                let rest = sp_stmt_list(ts, clamp_pos(ts.len() as int, i, st.next));
                match rest.out {
                    Err(m) => PStep { out: Err(m), next: rest.next },
                    Ok(vs) => PStep { out: Ok(seq![v] + vs), next: rest.next },
                }
            },
        }
    } else {
        let c = sp_consume(ts, i, TokenView::RBrace);
        match c.out {
            Err(m) => PStep { out: Err(m), next: c.next },
            Ok(u) => PStep { out: Ok(Seq::empty()), next: c.next },
        }
    }
}

/// A block body, entered after its opening brace.
pub open spec fn sp_block(ts: Seq<Token>, i: int) -> PStep<AstView>
    decreases ts.len() - i, 13int,
{
    let s = sp_stmt_list(ts, i);
    match s.out {
        Err(m) => PStep { out: Err(m), next: s.next },
        Ok(vs) => PStep { out: Ok(AstView::Block(vs)), next: s.next },
    }
}

/// An `if` statement, entered at its `if` token: parenthesized condition,
/// then-branch, and an optional `else` that binds to this nearest `if`.
pub open spec fn sp_if_stmt(ts: Seq<Token>, i: int) -> PStep<AstView>
    decreases ts.len() - i, 10int,
{
    let lp = sp_consume(ts, i + 1, TokenView::LParen);
    match lp.out {
        Err(m) => PStep { out: Err(m), next: lp.next },
        Ok(u0) => {
            let cond = sp_expression(ts, i + 2);
            match cond.out {
                Err(m) => PStep { out: Err(m), next: cond.next },
                Ok(cv) => {
                    let rp = sp_consume(
                        ts,
                        at_least(ts.len() as int, i + 2, cond.next),
                        TokenView::RParen,
                    );
                    match rp.out {
                        Err(m) => PStep { out: Err(m), next: rp.next },
                        Ok(u1) => {
                            let tb = sp_statement(ts, rp.next);
                            match tb.out {
                                Err(m) => PStep { out: Err(m), next: tb.next },
                                Ok(tv) => {
                                    let p = at_least(ts.len() as int, rp.next, tb.next);
                                    if p < ts.len() && ts[p] is Else {
                                        let eb = sp_statement(ts, p + 1);
                                        match eb.out {
                                            Err(m) => PStep { out: Err(m), next: eb.next },
                                            Ok(ev) => PStep {
                                                out: Ok(
                                                    AstView::IfStmt {
                                                        condition: Box::new(cv),
                                                        then_branch: Box::new(tv),
                                                        else_branch: Some(Box::new(ev)),
                                                    },
                                                ),
                                                next: at_least(ts.len() as int, p + 1, eb.next),
                                            },
                                        }
                                    } else {
                                        PStep {
                                            out: Ok(
                                                AstView::IfStmt {
                                                    condition: Box::new(cv),
                                                    then_branch: Box::new(tv),
                                                    else_branch: None,
                                                },
                                            ),
                                            next: p,
                                        }
                                    }
                                },
                            }
                        },
                    }
                },
            }
        },
    }
}

/// A `return` statement, entered at its `return` token.
pub open spec fn sp_return_stmt(ts: Seq<Token>, i: int) -> PStep<AstView>
    decreases ts.len() - i, 10int,
{
    let e = sp_expression(ts, i + 1);
    match e.out {
        Err(m) => PStep { out: Err(m), next: e.next },
        Ok(v) => {
            let c = sp_consume(ts, at_least(ts.len() as int, i + 1, e.next), TokenView::Semicolon);
            match c.out {
                Err(m) => PStep { out: Err(m), next: c.next },
                Ok(u) => PStep { out: Ok(AstView::ReturnStmt(Box::new(v))), next: c.next },
            }
        },
    }
}

/// A C-style `for` statement, entered at its `for` token: the initializer
/// is a full statement with its own semicolon, the increment a bare
/// expression or assignment without one.
pub open spec fn sp_for_stmt(ts: Seq<Token>, i: int) -> PStep<AstView>
    decreases ts.len() - i, 10int,
{
    let lp = sp_consume(ts, i + 1, TokenView::LParen);
    match lp.out {
        Err(m) => PStep { out: Err(m), next: lp.next },
        Ok(u0) => {
            let ini = sp_statement(ts, i + 2);
            match ini.out {
                Err(m) => PStep { out: Err(m), next: ini.next },
                Ok(iv) => {
                    let p1 = at_least(ts.len() as int, i + 2, ini.next);
                    let cond = sp_expression(ts, p1);
                    match cond.out {
                        Err(m) => PStep { out: Err(m), next: cond.next },
                        Ok(cv) => {
                            let semi = sp_consume(
                                ts,
                                at_least(ts.len() as int, p1, cond.next),
                                TokenView::Semicolon,
                            );
                            match semi.out {
                                Err(m) => PStep { out: Err(m), next: semi.next },
                                Ok(u1) => {
                                    let inc = sp_increment(ts, semi.next);
                                    match inc.out {
                                        Err(m) => PStep { out: Err(m), next: inc.next },
                                        Ok(nv) => {
                                            let rp = sp_consume(
                                                ts,
                                                at_least(ts.len() as int, semi.next, inc.next),
                                                TokenView::RParen,
                                            );
                                            match rp.out {
                                                Err(m) => PStep { out: Err(m), next: rp.next },
                                                Ok(u2) => {
                                                    let body = sp_statement(ts, rp.next);
                                                    match body.out {
                                                        Err(m) => PStep {
                                                            out: Err(m),
                                                            next: body.next,
                                                        },
                                                        Ok(bv) => PStep {
                                                            out: Ok(
                                                                AstView::ForStmt {
                                                                    init: Box::new(iv),
                                                                    condition: Box::new(cv),
                                                                    increment: Box::new(nv),
                                                                    body: Box::new(bv),
                                                                },
                                                            ),
                                                            next: at_least(
                                                                ts.len() as int,
                                                                rp.next,
                                                                body.next,
                                                            ),
                                                        },
                                                    }
                                                },
                                            }
                                        },
                                    }
                                },
                            }
                        },
                    }
                },
            }
        },
    }
}

/// A bare expression statement, or an assignment to an already-parsed
/// place expression, with its terminating semicolon.
pub open spec fn sp_expr_stmt(ts: Seq<Token>, i: int) -> PStep<AstView>
    decreases ts.len() - i, 10int,
{
    let e = sp_expression(ts, i);
    match e.out {
        Err(m) => PStep { out: Err(m), next: e.next },
        Ok(target) => {
            let p = at_least(ts.len() as int, i, e.next);
            if p < ts.len() && ts[p] is Equals {
                let v = sp_expression(ts, p + 1);
                match v.out {
                    Err(m) => PStep { out: Err(m), next: v.next },
                    Ok(value) => {
                        let c = sp_consume(
                            ts,
                            at_least(ts.len() as int, p + 1, v.next),
                            TokenView::Semicolon,
                        );
                        match c.out {
                            Err(m) => PStep { out: Err(m), next: c.next },
                            Ok(u) => PStep {
                                out: Ok(
                                    AstView::Assignment {
                                        target: Box::new(target),
                                        value: Box::new(value),
                                    },
                                ),
                                next: c.next,
                            },
                        }
                    },
                }
            } else {
                let c = sp_consume(ts, p, TokenView::Semicolon);
                match c.out {
                    Err(m) => PStep { out: Err(m), next: c.next },
                    Ok(u) => PStep { out: Ok(target), next: c.next },
                }
            }
        },
    }
}

/// One statement: a nested block, `if`, `return`, `for`, `break`, a
/// variable or array declaration by the two-identifier rule, or a bare
/// expression or assignment.
pub open spec fn sp_statement(ts: Seq<Token>, i: int) -> PStep<AstView>
    decreases ts.len() - i, 11int,
{
    if 0 <= i < ts.len() && ts[i] is LBrace {
        sp_block(ts, i + 1)
    } else if 0 <= i < ts.len() && ts[i] is If {
        sp_if_stmt(ts, i)
    } else if 0 <= i < ts.len() && ts[i] is Return {
        sp_return_stmt(ts, i)
    } else if 0 <= i < ts.len() && ts[i] is For {
        sp_for_stmt(ts, i)
    } else if 0 <= i < ts.len() && ts[i] is Break {
        let c = sp_consume(ts, i + 1, TokenView::Semicolon);
        match c.out {
            Err(m) => PStep { out: Err(m), next: c.next },
            Ok(u) => PStep { out: Ok(AstView::BreakStmt), next: c.next },
        }
    } else if 0 <= i < ts.len() && ts[i] is Identifier && i + 1 < ts.len() && ts[i + 1]
        is Identifier {
        sp_declaration(ts, i)
    } else {
        sp_expr_stmt(ts, i)
    }
}

/// A `var name: Type [= expr];` declaration, entered at the `var` token.
pub open spec fn sp_var_s2l(ts: Seq<Token>, i: int) -> PStep<AstView>
    decreases ts.len() - i, 9int,
{
    if 0 <= i && i + 1 < ts.len() && ts[i + 1] is Identifier {
        let v0 = ts[i + 1]->Identifier_0@;
        if i + 3 < ts.len() && ts[i + 3] is Identifier {
            let tyn = ts[i + 3]->Identifier_0@;
            if i + 4 < ts.len() && ts[i + 4] is Equals {
                let v = sp_expression(ts, i + 5);
                match v.out {
                    Err(m) => PStep { out: Err(m), next: v.next },
                    Ok(value) => {
                        let c = sp_consume(
                            ts,
                            at_least(ts.len() as int, i + 5, v.next),
                            TokenView::Semicolon,
                        );
                        match c.out {
                            Err(m) => PStep { out: Err(m), next: c.next },
                            Ok(u) => PStep {
                                out: Ok(
                                    AstView::VarDecl {
                                        ty_name: tyn,
                                        name: v0,
                                        value: Some(Box::new(value)),
                                    },
                                ),
                                next: c.next,
                            },
                        }
                    },
                }
            } else {
                let c = sp_consume(ts, i + 4, TokenView::Semicolon);
                match c.out {
                    Err(m) => PStep { out: Err(m), next: c.next },
                    Ok(u) => PStep {
                        out: Ok(AstView::VarDecl { ty_name: tyn, name: v0, value: None }),
                        next: c.next,
                    },
                }
            }
        } else {
            PStep { out: Err("Expected type after colon"@), next: i + 3 }
        }
    } else {
        PStep { out: Err("Unexpected EOF"@), next: i }
    }
}

/// A legacy `Type name[N] [= { ... }];` array declaration, entered at the
/// type token.  The size must be a numeric literal; anything else counts as
/// zero, and the token after the bracket is stepped over either way.
pub open spec fn sp_array_decl(ts: Seq<Token>, i: int) -> PStep<AstView>
    decreases ts.len() - i, 9int,
{
    if 0 <= i && i + 1 < ts.len() && ts[i] is Identifier && ts[i + 1] is Identifier {
        let t0 = ts[i]->Identifier_0@;
        let v0 = ts[i + 1]->Identifier_0@;
        let q = i + 3;
        let size = if q < ts.len() && ts[q] is Number {
            capped_val(ts[q]->Number_0@, usize::MAX as nat)
        } else {
            0
        };
        let q2 = if q < ts.len() {
            q + 1
        } else {
            q
        };
        let rb = sp_consume(ts, q2, TokenView::RBracket);
        match rb.out {
            Err(m) => PStep { out: Err(m), next: rb.next },
            Ok(u0) => {
                if rb.next < ts.len() && ts[rb.next] is Equals {
                    let lb = sp_consume(ts, rb.next + 1, TokenView::LBrace);
                    match lb.out {
                        Err(m) => PStep { out: Err(m), next: lb.next },
                        Ok(u1) => {
                            let vals = sp_array_vals(ts, lb.next);
                            match vals.out {
                                Err(m) => PStep { out: Err(m), next: vals.next },
                                Ok(vs) => {
                                    let rb2 = sp_consume(
                                        ts,
                                        at_least(ts.len() as int, lb.next, vals.next),
                                        TokenView::RBrace,
                                    );
                                    match rb2.out {
                                        Err(m) => PStep { out: Err(m), next: rb2.next },
                                        Ok(u2) => {
                                            let semi = sp_consume(
                                                ts,
                                                rb2.next,
                                                TokenView::Semicolon,
                                            );
                                            match semi.out {
                                                Err(m) => PStep { out: Err(m), next: semi.next },
                                                Ok(u3) => PStep {
                                                    out: Ok(
                                                        AstView::ArrayDecl {
                                                            ty_name: t0,
                                                            name: v0,
                                                            size,
                                                            values: Some(vs),
                                                        },
                                                    ),
                                                    next: semi.next,
                                                },
                                            }
                                        },
                                    }
                                },
                            }
                        },
                    }
                } else {
                    let semi = sp_consume(ts, rb.next, TokenView::Semicolon);
                    match semi.out {
                        Err(m) => PStep { out: Err(m), next: semi.next },
                        Ok(u1) => PStep {
                            out: Ok(
                                AstView::ArrayDecl { ty_name: t0, name: v0, size, values: None },
                            ),
                            next: semi.next,
                        },
                    }
                }
            },
        }
    } else {
        PStep { out: Err("Unexpected EOF"@), next: i }
    }
}

/// A legacy `Type name [= expr];` declaration, entered at the type token.
pub open spec fn sp_var_legacy(ts: Seq<Token>, i: int) -> PStep<AstView>
    decreases ts.len() - i, 9int,
{
    if 0 <= i && i + 1 < ts.len() && ts[i] is Identifier && ts[i + 1] is Identifier {
        let t0 = ts[i]->Identifier_0@;
        let v0 = ts[i + 1]->Identifier_0@;
        if i + 2 < ts.len() && ts[i + 2] is Equals {
            let v = sp_expression(ts, i + 3);
            match v.out {
                Err(m) => PStep { out: Err(m), next: v.next },
                Ok(value) => {
                    let c = sp_consume(
                        ts,
                        at_least(ts.len() as int, i + 3, v.next),
                        TokenView::Semicolon,
                    );
                    match c.out {
                        Err(m) => PStep { out: Err(m), next: c.next },
                        Ok(u) => PStep {
                            out: Ok(
                                AstView::VarDecl {
                                    ty_name: t0,
                                    name: v0,
                                    value: Some(Box::new(value)),
                                },
                            ),
                            next: c.next,
                        },
                    }
                },
            }
        } else {
            let c = sp_consume(ts, i + 2, TokenView::Semicolon);
            match c.out {
                Err(m) => PStep { out: Err(m), next: c.next },
                Ok(u) => PStep {
                    out: Ok(AstView::VarDecl { ty_name: t0, name: v0, value: None }),
                    next: c.next,
                },
            }
        }
    } else {
        PStep { out: Err("Unexpected EOF"@), next: i }
    }
}

/// A statement opening with two identifiers: a variable or array
/// declaration.  `var name: Type` is the `fn`-dialect form; `Type name` the
/// legacy form.
pub open spec fn sp_declaration(ts: Seq<Token>, i: int) -> PStep<AstView>
    decreases ts.len() - i, 10int,
{
    if 0 <= i && i + 1 < ts.len() && ts[i] is Identifier && ts[i + 1] is Identifier {
        let t0 = ts[i]->Identifier_0@;
        if t0 == "var"@ && i + 2 < ts.len() && ts[i + 2] is Colon {
            sp_var_s2l(ts, i)
        } else if i + 2 < ts.len() && ts[i + 2] is LBracket {
            sp_array_decl(ts, i)
        } else {
            sp_var_legacy(ts, i)
        }
    } else {
        PStep { out: Err("Unexpected EOF"@), next: i }
    }
}

/// The parameter list of a function, in either dialect: `name: Type` or
/// `Type name`, with GLSL qualifiers skipped and a legacy array suffix
/// folded into the name.
pub open spec fn sp_args(ts: Seq<Token>, i: int) -> PStep<Seq<(Seq<char>, Seq<char>)>>
    decreases ts.len() - i, 12int,
{
    if 0 <= i < ts.len() && ts[i] is RParen {
        PStep { out: Ok(Seq::empty()), next: i }
    } else if 0 <= i {
        let i1 = if i < ts.len() && ts[i] is Identifier && (ts[i]->Identifier_0@ == "in"@
            || ts[i]->Identifier_0@ == "out"@ || ts[i]->Identifier_0@ == "inout"@) {
            i + 1
        } else {
            i
        };
        if i1 < ts.len() && ts[i1] is Identifier {
            let f = ts[i1]->Identifier_0@;
            let p = i1 + 1;
            if p < ts.len() && ts[p] is Colon {
                if p + 1 < ts.len() && ts[p + 1] is Identifier {
                    let tyn = ts[p + 1]->Identifier_0@;
                    let q = p + 2;
                    let q2 = if q < ts.len() && ts[q] is Comma {
                        q + 1
                    } else {
                        q
                    };
                    let rest = sp_args(ts, clamp_pos(ts.len() as int, i, q2));
                    match rest.out {
                        Err(m) => PStep { out: Err(m), next: rest.next },
                        Ok(vs) => PStep { out: Ok(seq![(tyn, f)] + vs), next: rest.next },
                    }
                } else {
                    PStep { out: Err("Expected type after colon"@), next: p + 1 }
                }
            } else if p < ts.len() && ts[p] is Identifier {
                let nm = ts[p]->Identifier_0@;
                let q = p + 1;
                if q < ts.len() && ts[q] is LBracket {
                    let q1 = q + 1;
                    let q2 = if q1 < ts.len() && ts[q1] is Number {
                        q1 + 1
                    } else {
                        q1
                    };
                    let rb = sp_consume(ts, q2, TokenView::RBracket);
                    match rb.out {
                        Err(m) => PStep { out: Err(m), next: rb.next },
                        Ok(u) => {
                            let q3 = if rb.next < ts.len() && ts[rb.next] is Comma {
                                rb.next + 1
                            } else {
                                rb.next
                            };
                            let rest = sp_args(ts, clamp_pos(ts.len() as int, i, q3));
                            match rest.out {
                                Err(m) => PStep { out: Err(m), next: rest.next },
                                Ok(vs) => PStep {
                                    out: Ok(seq![(f, nm + "[]"@)] + vs),
                                    next: rest.next,
                                },
                            }
                        },
                    }
                } else {
                    let q3 = if q < ts.len() && ts[q] is Comma {
                        q + 1
                    } else {
                        q
                    };
                    let rest = sp_args(ts, clamp_pos(ts.len() as int, i, q3));
                    match rest.out {
                        Err(m) => PStep { out: Err(m), next: rest.next },
                        Ok(vs) => PStep { out: Ok(seq![(f, nm)] + vs), next: rest.next },
                    }
                }
            } else {
                PStep { out: Err("Expected arg name"@), next: p }
            }
        } else {
            PStep { out: Err("Expected argument identifier"@), next: i1 }
        }
    } else {
        PStep { out: Err("Expected argument identifier"@), next: i }
    }
}

/// The fields of a struct body: `Type name;` lines up to the closing brace,
/// which is left for the struct rule to consume.
pub open spec fn sp_fields(ts: Seq<Token>, i: int) -> PStep<Seq<(Seq<char>, Seq<char>)>>
    decreases ts.len() - i, 12int,
{
    if 0 <= i < ts.len() && !(ts[i] is RBrace) {
        if ts[i] is Identifier {
            let tyn = ts[i]->Identifier_0@;
            if i + 1 < ts.len() && ts[i + 1] is Identifier {
                let nm = ts[i + 1]->Identifier_0@;
                let c = sp_consume(ts, i + 2, TokenView::Semicolon);
                match c.out {
                    Err(m) => PStep { out: Err(m), next: c.next },
                    Ok(u) => {
                        let rest = sp_fields(ts, i + 3);
                        match rest.out {
                            Err(m) => PStep { out: Err(m), next: rest.next },
                            Ok(vs) => PStep { out: Ok(seq![(tyn, nm)] + vs), next: rest.next },
                        }
                    },
                }
            } else {
                PStep { out: Err("Expected field name"@), next: i + 1 }
            }
        } else {
            PStep { out: Err("Expected field type"@), next: i }
        }
    } else {
        PStep { out: Ok(Seq::empty()), next: i }
    }
}

/// A struct declaration: `struct Name { Type field; ... };` with the
/// trailing semicolon mandatory, carrying its collected documentation.
pub open spec fn sp_struct(ts: Seq<Token>, i: int, doc: Option<Seq<char>>) -> PStep<AstView>
    decreases ts.len() - i, 13int,
{
    let c = sp_consume(ts, i, TokenView::Struct);
    match c.out {
        Err(m) => PStep { out: Err(m), next: c.next },
        Ok(u0) => {
            if c.next < ts.len() && ts[c.next] is Identifier {
                let nm = ts[c.next]->Identifier_0@;
                let lb = sp_consume(ts, c.next + 1, TokenView::LBrace);
                match lb.out {
                    Err(m) => PStep { out: Err(m), next: lb.next },
                    Ok(u1) => {
                        let flds = sp_fields(ts, lb.next);
                        match flds.out {
                            Err(m) => PStep { out: Err(m), next: flds.next },
                            Ok(fs) => {
                                let rb = sp_consume(
                                    ts,
                                    at_least(ts.len() as int, lb.next, flds.next),
                                    TokenView::RBrace,
                                );
                                match rb.out {
                                    Err(m) => PStep { out: Err(m), next: rb.next },
                                    Ok(u2) => {
                                        let semi = sp_consume(ts, rb.next, TokenView::Semicolon);
                                        match semi.out {
                                            Err(m) => PStep { out: Err(m), next: semi.next },
                                            Ok(u3) => PStep {
                                                out: Ok(
                                                    AstView::StructDecl {
                                                        name: nm,
                                                        fields: fs,
                                                        doc_string: doc,
                                                    },
                                                ),
                                                next: semi.next,
                                            },
                                        }
                                    },
                                }
                            },
                        }
                    },
                }
            } else {
                PStep { out: Err("Expected struct name"@), next: c.next }
            }
        },
    }
}

/// One top-level declaration: leading documentation lines, then a struct or
/// a function in either dialect; a function without a written return type
/// gets the implicit `void`.
pub open spec fn sp_top_level(ts: Seq<Token>, i: int) -> PStep<AstView>
    decreases ts.len() - i, 14int,
{
    let ds = sp_docs(ts, i);
    let p = at_least(ts.len() as int, i, ds.next);
    if p < ts.len() && ts[p] is Struct {
        sp_struct(ts, p, ds.doc)
    } else if p < ts.len() && ts[p] is Fn {
        if p + 1 < ts.len() && ts[p + 1] is Identifier {
            let nm = ts[p + 1]->Identifier_0@;
            let lp = sp_consume(ts, p + 2, TokenView::LParen);
            match lp.out {
                Err(m) => PStep { out: Err(m), next: lp.next },
                Ok(u0) => {
                    let args = sp_args(ts, p + 3);
                    match args.out {
                        Err(m) => PStep { out: Err(m), next: args.next },
                        Ok(avs) => {
                            let rp = sp_consume(
                                ts,
                                at_least(ts.len() as int, p + 3, args.next),
                                TokenView::RParen,
                            );
                            match rp.out {
                                Err(m) => PStep { out: Err(m), next: rp.next },
                                Ok(u1) => {
                                    let q = rp.next;
                                    if q < ts.len() && ts[q] is Identifier {
                                        sp_fn_body(
                                            ts,
                                            q + 1,
                                            ts[q]->Identifier_0@,
                                            nm,
                                            avs,
                                            ds.doc,
                                        )
                                    } else if q < ts.len() && ts[q] is LBrace {
                                        sp_fn_body(ts, q, "void"@, nm, avs, ds.doc)
                                    } else {
                                        PStep { out: Err("Expected Return Type or Body"@), next: q }
                                    }
                                },
                            }
                        },
                    }
                },
            }
        } else {
            PStep { out: Err("Expected Function Name after 'fn'"@), next: p + 1 }
        }
    } else if p < ts.len() && ts[p] is Identifier {
        let tyn = ts[p]->Identifier_0@;
        if p + 1 < ts.len() && ts[p + 1] is Identifier {
            let nm = ts[p + 1]->Identifier_0@;
            let lp = sp_consume(ts, p + 2, TokenView::LParen);
            match lp.out {
                Err(m) => PStep { out: Err(m), next: lp.next },
                Ok(u0) => {
                    let args = sp_args(ts, p + 3);
                    match args.out {
                        Err(m) => PStep { out: Err(m), next: args.next },
                        Ok(avs) => {
                            let rp = sp_consume(
                                ts,
                                at_least(ts.len() as int, p + 3, args.next),
                                TokenView::RParen,
                            );
                            match rp.out {
                                Err(m) => PStep { out: Err(m), next: rp.next },
                                Ok(u1) => sp_fn_body(ts, rp.next, tyn, nm, avs, ds.doc),
                            }
                        },
                    }
                },
            }
        } else {
            PStep { out: Err("Expected Function Name"@), next: p + 1 }
        }
    } else {
        PStep { out: Err("Expected Function Return Type or Struct"@), next: p }
    }
}

/// The brace-enclosed body of a function declaration, with everything else
/// already read.
pub open spec fn sp_fn_body(
    ts: Seq<Token>,
    i: int,
    return_type: Seq<char>,
    name: Seq<char>,
    args: Seq<(Seq<char>, Seq<char>)>,
    doc: Option<Seq<char>>,
) -> PStep<AstView>
    decreases ts.len() - i, 15int,
{
    let lb = sp_consume(ts, i, TokenView::LBrace);
    match lb.out {
        Err(m) => PStep { out: Err(m), next: lb.next },
        Ok(u) => {
            let body = sp_block(ts, lb.next);
            match body.out {
                Err(m) => PStep { out: Err(m), next: body.next },
                Ok(bv) => PStep {
                    out: Ok(
                        AstView::FunctionDecl {
                            return_type,
                            name,
                            args,
                            body: Box::new(bv),
                            doc_string: doc,
                        },
                    ),
                    next: body.next,
                },
            }
        },
    }
}

/// The whole token stream: top-level declarations until the input ends.
pub open spec fn sp_program(ts: Seq<Token>, i: int) -> PStep<Seq<AstView>>
    decreases ts.len() - i, 16int,
{
    if 0 <= i < ts.len() {
        let d = sp_top_level(ts, i);
        match d.out {
            Err(m) => PStep { out: Err(m), next: d.next },
            Ok(v) => {
                let rest = sp_program(ts, clamp_pos(ts.len() as int, i, d.next));
                match rest.out {
                    Err(m) => PStep { out: Err(m), next: rest.next },
                    Ok(vs) => PStep { out: Ok(seq![v] + vs), next: rest.next },
                }
            },
        }
    } else {
        PStep { out: Ok(Seq::empty()), next: i }
    }
}

/// The parse of a whole buffer: the program node, or the first error.
pub open spec fn sp_parse(ts: Seq<Token>) -> Result<AstView, Seq<char>> {
    match sp_program(ts, 0).out {
        Ok(vs) => Ok(AstView::Program(vs)),
        Err(m) => Err(m),
    }
}

// --- The parser ----------------------------------------------------------

/// The parser state: an immutable token buffer and a mutable cursor with one
/// token of lookahead beyond the current one.
pub struct Parser {
    pub tokens: Vec<Token>,
    pub cursor: usize,
}

/// Compares two tokens, payloads included.
fn token_eq(a: &Token, b: &Token) -> (r: bool)
    ensures
        r == (a@ == b@),
{
    match (a, b) {
        (Token::Struct, Token::Struct) => true,
        (Token::Fn, Token::Fn) => true,
        (Token::Return, Token::Return) => true,
        (Token::If, Token::If) => true,
        (Token::Else, Token::Else) => true,
        (Token::For, Token::For) => true,
        (Token::Break, Token::Break) => true,
        (Token::Bang, Token::Bang) => true,
        (Token::LParen, Token::LParen) => true,
        (Token::RParen, Token::RParen) => true,
        (Token::LBrace, Token::LBrace) => true,
        (Token::RBrace, Token::RBrace) => true,
        (Token::LBracket, Token::LBracket) => true,
        (Token::RBracket, Token::RBracket) => true,
        (Token::Semicolon, Token::Semicolon) => true,
        (Token::Colon, Token::Colon) => true,
        (Token::Comma, Token::Comma) => true,
        (Token::Dot, Token::Dot) => true,
        (Token::Equals, Token::Equals) => true,
        (Token::Plus, Token::Plus) => true,
        (Token::Minus, Token::Minus) => true,
        (Token::Star, Token::Star) => true,
        (Token::Slash, Token::Slash) => true,
        (Token::Greater, Token::Greater) => true,
        (Token::Less, Token::Less) => true,
        (Token::DoubleEquals, Token::DoubleEquals) => true,
        (Token::LessEquals, Token::LessEquals) => true,
        (Token::GreaterEquals, Token::GreaterEquals) => true,
        (Token::Identifier(x), Token::Identifier(y)) => str_equal(x.as_str(), y.as_str()),
        (Token::Number(x), Token::Number(y)) => str_equal(x.as_str(), y.as_str()),
        (Token::DocComment(x), Token::DocComment(y)) => str_equal(x.as_str(), y.as_str()),
        _ => false,
    }
}

/// Renders a token for an error message.
fn tok_desc_exec(t: &Token) -> (out: String)
    ensures
        out@ == tok_desc(t@),
{
    match t {
        Token::Struct => String::from_str("Struct"),
        Token::Fn => String::from_str("Fn"),
        Token::Return => String::from_str("Return"),
        Token::If => String::from_str("If"),
        Token::Else => String::from_str("Else"),
        Token::For => String::from_str("For"),
        Token::Break => String::from_str("Break"),
        Token::Bang => String::from_str("Bang"),
        Token::LParen => String::from_str("LParen"),
        Token::RParen => String::from_str("RParen"),
        Token::LBrace => String::from_str("LBrace"),
        Token::RBrace => String::from_str("RBrace"),
        Token::LBracket => String::from_str("LBracket"),
        Token::RBracket => String::from_str("RBracket"),
        Token::Semicolon => String::from_str("Semicolon"),
        Token::Colon => String::from_str("Colon"),
        Token::Comma => String::from_str("Comma"),
        Token::Dot => String::from_str("Dot"),
        Token::Equals => String::from_str("Equals"),
        Token::Plus => String::from_str("Plus"),
        Token::Minus => String::from_str("Minus"),
        Token::Star => String::from_str("Star"),
        Token::Slash => String::from_str("Slash"),
        Token::Greater => String::from_str("Greater"),
        Token::Less => String::from_str("Less"),
        Token::DoubleEquals => String::from_str("DoubleEquals"),
        Token::LessEquals => String::from_str("LessEquals"),
        Token::GreaterEquals => String::from_str("GreaterEquals"),
        Token::Identifier(s) => {
            let mut out = String::from_str("Identifier(");
            out.append(s.as_str());
            out.append(")");
            out
        },
        Token::Number(s) => {
            let mut out = String::from_str("Number(");
            out.append(s.as_str());
            out.append(")");
            out
        },
        Token::DocComment(s) => {
            let mut out = String::from_str("DocComment(");
            out.append(s.as_str());
            out.append(")");
            out
        },
    }
}

impl Parser {
    /// The cursor never passes the end of the buffer.
    pub open spec fn wf(&self) -> bool {
        self.cursor <= self.tokens@.len()
    }

    /// The token buffer.
    pub open spec fn toks(&self) -> Seq<Token> {
        self.tokens@
    }

    /// The cursor position.
    pub open spec fn pos(&self) -> int {
        self.cursor as int
    }

    /// A parser over a finished token buffer, at its start.
    pub fn new(tokens: Vec<Token>) -> (p: Self)
        ensures
            p.toks() == tokens@,
            p.pos() == 0,
            p.wf(),
    {
        Self { tokens, cursor: 0 }
    }

    /// The token under the cursor, if any.
    pub fn current(&self) -> (r: Option<&Token>)
        ensures
            (match r {
                Some(t) => self.pos() < self.toks().len() && *t == self.toks()[self.pos()],
                None => self.pos() >= self.toks().len(),
            }),
    {
        if self.cursor < self.tokens.len() {
            Some(&self.tokens[self.cursor])
        } else {
            None
        }
    }

    /// The token one past the cursor, if any.
    pub fn peek(&self) -> (r: Option<&Token>)
        ensures
            (match r {
                Some(t) => self.pos() + 1 < self.toks().len() && *t == self.toks()[self.pos() + 1],
                None => self.pos() + 1 >= self.toks().len(),
            }),
    {
        if self.cursor < self.tokens.len() {
            if self.cursor + 1 < self.tokens.len() {
                Some(&self.tokens[self.cursor + 1])
            } else {
                None
            }
        } else {
            None
        }
    }

    /// Moves one token forward, stopping at the end of the buffer.
    pub fn advance(&mut self)
        ensures
            final(self).tokens == old(self).tokens,
            final(self).cursor as int == if old(self).pos() < old(self).toks().len() {
                old(self).pos() + 1
            } else {
                old(self).pos()
            },
    {
        if self.cursor < self.tokens.len() {
            self.cursor = self.cursor + 1;
        }
    }

    /// Whether the token under the cursor equals the given one.
    pub fn check(&self, token: &Token) -> (r: bool)
        ensures
            r == (self.pos() < self.toks().len() && self.toks()[self.pos()]@ == token@),
    {
        match self.current() {
            Some(t) => token_eq(t, token),
            None => false,
        }
    }

    /// Consumes the expected token, or reports what stood in its place.
    pub fn consume(&mut self, expected: Token) -> (r: Result<(), String>)
        requires
            old(self).wf(),
        ensures
            final(self).tokens == old(self).tokens,
            final(self).wf(),
            ({
                let st = sp_consume(old(self).toks(), old(self).pos(), expected@);
                unit_res(r) == st.out && final(self).pos() == st.next
            }),
    {
        if self.check(&expected) {
            self.advance();
            Ok(())
        } else {
            let mut msg = String::from_str("Expected ");
            let de = tok_desc_exec(&expected);
            msg.append(de.as_str());
            msg.append(", got ");
            match self.current() {
                Some(t) => {
                    let dg = tok_desc_exec(t);
                    msg.append(dg.as_str());
                },
                None => {
                    msg.append("EOF");
                },
            }
            Err(msg)
        }
    }
}


/// The model of a node-list-or-message result.
pub open spec fn nodes_res(r: Result<Vec<AstNode>, String>) -> Result<Seq<AstView>, Seq<char>> {
    match r {
        Ok(v) => Ok(crate::ast::ast_views(v@)),
        Err(e) => Err(e@),
    }
}

/// Whether a lexeme contains a decimal point.
fn has_dot(s: &str) -> (r: bool)
    ensures
        r == (dot_pos(s@, 0) < s@.len()),
{
    let n = s.unicode_len();
    let mut i: usize = 0;
    while i < n
        invariant
            i <= n,
            n == s@.len(),
            dot_pos(s@, 0) == dot_pos(s@, i as int),
        decreases n - i,
    {
        if s.get_char(i) == '.' {
            proof {
                assert(dot_pos(s@, i as int) == i as int);
            }
            return true;
        }
        i = i + 1;
    }
    false
}

impl Parser {
    /// A primary expression: a number, an identifier, or a parenthesized
    /// expression.
    pub fn parse_primary(&mut self) -> (r: Result<AstNode, String>)
        requires
            old(self).wf(),
        ensures
            final(self).tokens == old(self).tokens,
            final(self).wf(),
            old(self).pos() <= final(self).pos(),
            r is Ok ==> final(self).pos() > old(self).pos(),
            ({
                let st = sp_primary(old(self).toks(), old(self).pos());
                node_res(r) == st.out && final(self).pos() == st.next
            }),
        decreases self.tokens@.len() - self.cursor, 2int,
    {
        if self.cursor >= self.tokens.len() {
            return Err(String::from_str("Unexpected EOF"));
        }
        let tk = &self.tokens[self.cursor];
        match tk {
            Token::Number(s) => {
                let lex = s.clone();
                self.advance();
                if has_dot(lex.as_str()) {
                    Ok(AstNode::LiteralFloat(float_of_lexeme_exec(lex.as_str())))
                } else {
                    Ok(AstNode::LiteralInt(int_of_lexeme_exec(lex.as_str())))
                }
            },
            Token::Identifier(s) => {
                let name = s.clone();
                self.advance();
                Ok(AstNode::Variable(name))
            },
            Token::LParen => {
                self.advance();
                let v = match self.parse_expression() {
                    Ok(v) => v,
                    Err(e) => {
                        return Err(e);
                    },
                };
                match self.consume(Token::RParen) {
                    Ok(u) => Ok(v),
                    Err(e) => Err(e),
                }
            },
            _ => {
                let d = tok_desc_exec(tk);
                let mut msg = String::from_str("Unexpected token: ");
                msg.append(d.as_str());
                Err(msg)
            },
        }
    }

    #[verifier::spinoff_prover]
    #[verifier::rlimit(100)]
    fn parse_call_args(&mut self) -> (r: Result<Vec<AstNode>, String>)
        requires
            old(self).wf(),
        ensures
            final(self).tokens == old(self).tokens,
            final(self).wf(),
            old(self).pos() <= final(self).pos(),
            ({
                let st = sp_call_args(old(self).toks(), old(self).pos());
                nodes_res(r) == st.out && final(self).pos() == st.next
            }),
        decreases self.tokens@.len() - self.cursor, 10int,
    {
        if self.cursor >= self.tokens.len() {
            return Err(String::from_str("Unexpected EOF"));
        }
        if self.check(&Token::RParen) {
            let out: Vec<AstNode> = Vec::new();
            proof {
                assert(crate::ast::ast_views(out@) =~= Seq::<AstView>::empty());
            }
            return Ok(out);
        }
        let first = match self.parse_expression() {
            Ok(v) => v,
            Err(e) => {
                return Err(e);
            },
        };
        if self.check(&Token::Comma) {
            self.advance();
        }
        let rest = match self.parse_call_args() {
            Ok(v) => v,
            Err(e) => {
                return Err(e);
            },
        };
        let ghost firstv = first@;
        let ghost restv = rest@;
        let mut out: Vec<AstNode> = Vec::new();
        out.push(first);
        let mut rest = rest;
        out.append(&mut rest);
        proof {
            assert(out@ =~= seq![out@[0]] + restv);
            assert((seq![out@[0]] + restv).drop_first() =~= restv);
            assert(crate::ast::ast_views(out@) =~= seq![firstv] + crate::ast::ast_views(restv));
        }
        Ok(out)
    }

    /// The postfix chain after a parsed base expression: calls, subscripts
    /// and member accesses.
    #[verifier::spinoff_prover]
    #[verifier::rlimit(100)]
    fn parse_postfix_more(&mut self, base: AstNode) -> (r: Result<AstNode, String>)
        requires
            old(self).wf(),
        ensures
            final(self).tokens == old(self).tokens,
            final(self).wf(),
            old(self).pos() <= final(self).pos(),
            ({
                let st = sp_postfix_more(old(self).toks(), old(self).pos(), base@);
                node_res(r) == st.out && final(self).pos() == st.next
            }),
        decreases self.tokens@.len() - self.cursor, 2int,
    {
        if self.cursor >= self.tokens.len() {
            return Ok(base);
        }
        if self.check(&Token::LParen) {
            self.advance();
            let args = match self.parse_call_args() {
                Ok(a) => a,
                Err(e) => {
                    return Err(e);
                },
            };
            match self.consume(Token::RParen) {
                Ok(u) => {},
                Err(e) => {
                    return Err(e);
                },
            }
            match base {
                AstNode::Variable(name) => {
                    let call = AstNode::Call { func_name: name, args };
                    self.parse_postfix_more(call)
                },
                _ => Err(String::from_str("Expected identifier before call")),
            }
        } else if self.check(&Token::LBracket) {
            self.advance();
            let ix = match self.parse_expression() {
                Ok(v) => v,
                Err(e) => {
                    return Err(e);
                },
            };
            match self.consume(Token::RBracket) {
                Ok(u) => {},
                Err(e) => {
                    return Err(e);
                },
            }
            let node = AstNode::SubscriptAccess { base: Box::new(base), index: Box::new(ix) };
            self.parse_postfix_more(node)
        } else if self.check(&Token::Dot) {
            let member: Option<String> = match self.peek() {
                Some(t) => match t {
                    Token::Identifier(s) => Some(s.clone()),
                    _ => None,
                },
                None => None,
            };
            match member {
                Some(m) => {
                    self.advance();
                    self.advance();
                    let node = AstNode::MemberAccess { base: Box::new(base), member: m };
                    self.parse_postfix_more(node)
                },
                None => {
                    self.advance();
                    Err(String::from_str("Expected member name"))
                },
            }
        } else {
            Ok(base)
        }
    }

    /// A postfix expression: calls, member and subscript accesses, all
    /// left-to-right chainable.
    pub fn parse_postfix(&mut self) -> (r: Result<AstNode, String>)
        requires
            old(self).wf(),
        ensures
            final(self).tokens == old(self).tokens,
            final(self).wf(),
            old(self).pos() <= final(self).pos(),
            r is Ok ==> final(self).pos() > old(self).pos(),
            ({
                let st = sp_postfix(old(self).toks(), old(self).pos());
                node_res(r) == st.out && final(self).pos() == st.next
            }),
        decreases self.tokens@.len() - self.cursor, 3int,
    {
        let base = match self.parse_primary() {
            Ok(b) => b,
            Err(e) => {
                return Err(e);
            },
        };
        self.parse_postfix_more(base)
    }

    /// A unary expression: prefix negation and logical not, right-recursive.
    pub fn parse_unary(&mut self) -> (r: Result<AstNode, String>)
        requires
            old(self).wf(),
        ensures
            final(self).tokens == old(self).tokens,
            final(self).wf(),
            old(self).pos() <= final(self).pos(),
            r is Ok ==> final(self).pos() > old(self).pos(),
            ({
                let st = sp_unary(old(self).toks(), old(self).pos());
                node_res(r) == st.out && final(self).pos() == st.next
            }),
        decreases self.tokens@.len() - self.cursor, 4int,
    {
        let minus = self.check(&Token::Minus);
        if minus || self.check(&Token::Bang) {
            let op = if minus {
                UnaryOperator::Negate
            } else {
                UnaryOperator::Not
            };
            self.advance();
            let rhs = match self.parse_unary() {
                Ok(v) => v,
                Err(e) => {
                    return Err(e);
                },
            };
            Ok(AstNode::UnaryOp { op, right: Box::new(rhs) })
        } else {
            self.parse_postfix()
        }
    }

    #[verifier::spinoff_prover]
    #[verifier::rlimit(100)]
    fn parse_term_more(&mut self, left: AstNode) -> (r: Result<AstNode, String>)
        requires
            old(self).wf(),
        ensures
            final(self).tokens == old(self).tokens,
            final(self).wf(),
            old(self).pos() <= final(self).pos(),
            ({
                let st = sp_term_more(old(self).toks(), old(self).pos(), left@);
                node_res(r) == st.out && final(self).pos() == st.next
            }),
        decreases self.tokens@.len() - self.cursor, 4int,
    {
        let op = if self.check(&Token::Star) {
            Some(BinaryOperator::Mul)
        } else if self.check(&Token::Slash) {
            Some(BinaryOperator::Div)
        } else {
            None
        };
        match op {
            None => Ok(left),
            Some(op) => {
                self.advance();
                let rhs = match self.parse_unary() {
                    Ok(v) => v,
                    Err(e) => {
                        return Err(e);
                    },
                };
                let node = AstNode::BinaryOp { left: Box::new(left), op, right: Box::new(rhs) };
                self.parse_term_more(node)
            },
        }
    }

    /// A multiplicative expression.
    pub fn parse_term(&mut self) -> (r: Result<AstNode, String>)
        requires
            old(self).wf(),
        ensures
            final(self).tokens == old(self).tokens,
            final(self).wf(),
            old(self).pos() <= final(self).pos(),
            r is Ok ==> final(self).pos() > old(self).pos(),
            ({
                let st = sp_term(old(self).toks(), old(self).pos());
                node_res(r) == st.out && final(self).pos() == st.next
            }),
        decreases self.tokens@.len() - self.cursor, 5int,
    {
        let l = match self.parse_unary() {
            Ok(v) => v,
            Err(e) => {
                return Err(e);
            },
        };
        self.parse_term_more(l)
    }

    #[verifier::spinoff_prover]
    #[verifier::rlimit(100)]
    fn parse_math_more(&mut self, left: AstNode) -> (r: Result<AstNode, String>)
        requires
            old(self).wf(),
        ensures
            final(self).tokens == old(self).tokens,
            final(self).wf(),
            old(self).pos() <= final(self).pos(),
            ({
                let st = sp_math_more(old(self).toks(), old(self).pos(), left@);
                node_res(r) == st.out && final(self).pos() == st.next
            }),
        decreases self.tokens@.len() - self.cursor, 5int,
    {
        let op = if self.check(&Token::Plus) {
            Some(BinaryOperator::Add)
        } else if self.check(&Token::Minus) {
            Some(BinaryOperator::Sub)
        } else {
            None
        };
        match op {
            None => Ok(left),
            Some(op) => {
                self.advance();
                let rhs = match self.parse_term() {
                    Ok(v) => v,
                    Err(e) => {
                        return Err(e);
                    },
                };
                let node = AstNode::BinaryOp { left: Box::new(left), op, right: Box::new(rhs) };
                self.parse_math_more(node)
            },
        }
    }

    /// An additive expression.
    pub fn parse_math(&mut self) -> (r: Result<AstNode, String>)
        requires
            old(self).wf(),
        ensures
            final(self).tokens == old(self).tokens,
            final(self).wf(),
            old(self).pos() <= final(self).pos(),
            r is Ok ==> final(self).pos() > old(self).pos(),
            ({
                let st = sp_math(old(self).toks(), old(self).pos());
                node_res(r) == st.out && final(self).pos() == st.next
            }),
        decreases self.tokens@.len() - self.cursor, 6int,
    {
        let l = match self.parse_term() {
            Ok(v) => v,
            Err(e) => {
                return Err(e);
            },
        };
        self.parse_math_more(l)
    }

    #[verifier::spinoff_prover]
    #[verifier::rlimit(100)]
    fn parse_comparison_more(&mut self, left: AstNode) -> (r: Result<AstNode, String>)
        requires
            old(self).wf(),
        ensures
            final(self).tokens == old(self).tokens,
            final(self).wf(),
            old(self).pos() <= final(self).pos(),
            ({
                let st = sp_comparison_more(old(self).toks(), old(self).pos(), left@);
                node_res(r) == st.out && final(self).pos() == st.next
            }),
        decreases self.tokens@.len() - self.cursor, 6int,
    {
        let op = if self.check(&Token::Greater) {
            Some(BinaryOperator::Greater)
        } else if self.check(&Token::Less) {
            Some(BinaryOperator::Less)
        } else if self.check(&Token::DoubleEquals) {
            Some(BinaryOperator::Equal)
        } else if self.check(&Token::LessEquals) {
            Some(BinaryOperator::LessEqual)
        } else if self.check(&Token::GreaterEquals) {
            Some(BinaryOperator::GreaterEqual)
        } else {
            None
        };
        match op {
            None => Ok(left),
            Some(op) => {
                self.advance();
                let rhs = match self.parse_math() {
                    Ok(v) => v,
                    Err(e) => {
                        proof {
                                            }
                        return Err(e);
                    },
                };
                let node = AstNode::BinaryOp { left: Box::new(left), op, right: Box::new(rhs) };
                let out = self.parse_comparison_more(node);
                proof {
                            }
                out
            },
        }
    }

    /// A comparison expression: non-associative chaining by iteration.
    pub fn parse_comparison(&mut self) -> (r: Result<AstNode, String>)
        requires
            old(self).wf(),
        ensures
            final(self).tokens == old(self).tokens,
            final(self).wf(),
            old(self).pos() <= final(self).pos(),
            r is Ok ==> final(self).pos() > old(self).pos(),
            ({
                let st = sp_comparison(old(self).toks(), old(self).pos());
                node_res(r) == st.out && final(self).pos() == st.next
            }),
        decreases self.tokens@.len() - self.cursor, 7int,
    {
        let l = match self.parse_math() {
            Ok(v) => v,
            Err(e) => {
                return Err(e);
            },
        };
        self.parse_comparison_more(l)
    }

    /// A full expression.
    pub fn parse_expression(&mut self) -> (r: Result<AstNode, String>)
        requires
            old(self).wf(),
        ensures
            final(self).tokens == old(self).tokens,
            final(self).wf(),
            old(self).pos() <= final(self).pos(),
            r is Ok ==> final(self).pos() > old(self).pos(),
            ({
                let st = sp_expression(old(self).toks(), old(self).pos());
                node_res(r) == st.out && final(self).pos() == st.next
            }),
        decreases self.tokens@.len() - self.cursor, 8int,
    {
        self.parse_comparison()
    }
}


impl Parser {
    /// The comma-separated values of an array initializer.
    #[verifier::spinoff_prover]
    #[verifier::rlimit(100)]
    fn parse_array_values(&mut self) -> (r: Result<Vec<AstNode>, String>)
        requires
            old(self).wf(),
        ensures
            final(self).tokens == old(self).tokens,
            final(self).wf(),
            old(self).pos() <= final(self).pos(),
            ({
                let st = sp_array_vals(old(self).toks(), old(self).pos());
                nodes_res(r) == st.out && final(self).pos() == st.next
            }),
        decreases self.tokens@.len() - self.cursor, 10int,
    {
        if self.cursor >= self.tokens.len() {
            return Err(String::from_str("Unexpected EOF"));
        }
        if self.check(&Token::RBrace) {
            let out: Vec<AstNode> = Vec::new();
            proof {
                assert(crate::ast::ast_views(out@) =~= Seq::<AstView>::empty());
            }
            return Ok(out);
        }
        let first = match self.parse_expression() {
            Ok(v) => v,
            Err(e) => {
                return Err(e);
            },
        };
        if self.check(&Token::Comma) {
            self.advance();
        }
        let rest = match self.parse_array_values() {
            Ok(v) => v,
            Err(e) => {
                return Err(e);
            },
        };
        let ghost firstv = first@;
        let ghost restv = rest@;
        let mut out: Vec<AstNode> = Vec::new();
        out.push(first);
        let mut rest = rest;
        out.append(&mut rest);
        proof {
            assert(out@ =~= seq![out@[0]] + restv);
            assert((seq![out@[0]] + restv).drop_first() =~= restv);
            assert(crate::ast::ast_views(out@) =~= seq![firstv] + crate::ast::ast_views(restv));
        }
        Ok(out)
    }

    /// A `for`-loop increment: a bare expression or assignment, no trailing
    /// semicolon.
    #[verifier::spinoff_prover]
    #[verifier::rlimit(100)]
    fn parse_increment(&mut self) -> (r: Result<AstNode, String>)
        requires
            old(self).wf(),
        ensures
            final(self).tokens == old(self).tokens,
            final(self).wf(),
            old(self).pos() <= final(self).pos(),
            ({
                let st = sp_increment(old(self).toks(), old(self).pos());
                node_res(r) == st.out && final(self).pos() == st.next
            }),
        decreases self.tokens@.len() - self.cursor, 10int,
    {
        let target = match self.parse_expression() {
            Ok(v) => v,
            Err(e) => {
                return Err(e);
            },
        };
        if self.check(&Token::Equals) {
            self.advance();
            let value = match self.parse_expression() {
                Ok(v) => v,
                Err(e) => {
                    return Err(e);
                },
            };
            Ok(AstNode::Assignment { target: Box::new(target), value: Box::new(value) })
        } else {
            Ok(target)
        }
    }

    /// The statements of a block, up to and including the closing brace.
    #[verifier::spinoff_prover]
    #[verifier::rlimit(100)]
    fn parse_stmt_list(&mut self) -> (r: Result<Vec<AstNode>, String>)
        requires
            old(self).wf(),
        ensures
            final(self).tokens == old(self).tokens,
            final(self).wf(),
            old(self).pos() <= final(self).pos(),
            ({
                let st = sp_stmt_list(old(self).toks(), old(self).pos());
                nodes_res(r) == st.out && final(self).pos() == st.next
            }),
        decreases self.tokens@.len() - self.cursor, 12int,
    {
        if self.cursor < self.tokens.len() && !self.check(&Token::RBrace) {
            let first = match self.parse_statement() {
                Ok(v) => v,
                Err(e) => {
                    return Err(e);
                },
            };
            let rest = match self.parse_stmt_list() {
                Ok(v) => v,
                Err(e) => {
                    return Err(e);
                },
            };
            let ghost firstv = first@;
            let ghost restv = rest@;
            let mut out: Vec<AstNode> = Vec::new();
            out.push(first);
            let mut rest = rest;
            out.append(&mut rest);
            proof {
                assert(out@ =~= seq![out@[0]] + restv);
                assert((seq![out@[0]] + restv).drop_first() =~= restv);
                assert(crate::ast::ast_views(out@) =~= seq![firstv] + crate::ast::ast_views(
                    restv,
                ));
            }
            Ok(out)
        } else {
            match self.consume(Token::RBrace) {
                Ok(u) => {
                    let out: Vec<AstNode> = Vec::new();
                    proof {
                        assert(crate::ast::ast_views(out@) =~= Seq::<AstView>::empty());
                    }
                    Ok(out)
                },
                Err(e) => Err(e),
            }
        }
    }

    /// A block body, entered after its opening brace.
    pub fn parse_block(&mut self) -> (r: Result<AstNode, String>)
        requires
            old(self).wf(),
        ensures
            final(self).tokens == old(self).tokens,
            final(self).wf(),
            old(self).pos() <= final(self).pos(),
            ({
                let st = sp_block(old(self).toks(), old(self).pos());
                node_res(r) == st.out && final(self).pos() == st.next
            }),
        decreases self.tokens@.len() - self.cursor, 13int,
    {
        match self.parse_stmt_list() {
            Ok(stmts) => Ok(AstNode::Block(stmts)),
            Err(e) => Err(e),
        }
    }

    /// A `var name: Type [= expr];` declaration, entered at the `var`
    /// token.
    #[verifier::spinoff_prover]
    #[verifier::rlimit(100)]
    fn parse_var_s2l(&mut self) -> (r: Result<AstNode, String>)
        requires
            old(self).wf(),
            old(self).pos() + 2 < old(self).toks().len(),
            old(self).toks()[old(self).pos() + 1] is Identifier,
            old(self).toks()[old(self).pos() + 2] is Colon,
        ensures
            final(self).tokens == old(self).tokens,
            final(self).wf(),
            old(self).pos() <= final(self).pos(),
            r is Ok ==> final(self).pos() > old(self).pos(),
            ({
                let st = sp_var_s2l(old(self).toks(), old(self).pos());
                node_res(r) == st.out && final(self).pos() == st.next
            }),
        decreases self.tokens@.len() - self.cursor, 9int,
    {
        let len = self.tokens.len();
        let v0 = match &self.tokens[self.cursor + 1] {
            Token::Identifier(s) => s.clone(),
            _ => {
                return Err(String::from_str("Unexpected EOF"));
            },
        };
        if len - self.cursor > 3 {
            let tyn: Option<String> = match &self.tokens[self.cursor + 3] {
                Token::Identifier(s) => Some(s.clone()),
                _ => None,
            };
            match tyn {
                Some(tyn) => {
                    if len - self.cursor > 4 && matches!(
                        &self.tokens[self.cursor + 4],
                        Token::Equals,
                    ) {
                        self.cursor = self.cursor + 5;
                        let value = match self.parse_expression() {
                            Ok(v) => v,
                            Err(e) => {
                                return Err(e);
                            },
                        };
                        match self.consume(Token::Semicolon) {
                            Ok(u) => Ok(
                                AstNode::VarDecl {
                                    ty_name: tyn,
                                    name: v0,
                                    value: Some(Box::new(value)),
                                },
                            ),
                            Err(e) => Err(e),
                        }
                    } else {
                        self.cursor = self.cursor + 4;
                        match self.consume(Token::Semicolon) {
                            Ok(u) => Ok(AstNode::VarDecl { ty_name: tyn, name: v0, value: None }),
                            Err(e) => Err(e),
                        }
                    }
                },
                None => {
                    self.cursor = self.cursor + 3;
                    Err(String::from_str("Expected type after colon"))
                },
            }
        } else {
            self.cursor = self.cursor + 3;
            Err(String::from_str("Expected type after colon"))
        }
    }

    /// A legacy `Type name[N] [= { ... }];` array declaration, entered at
    /// the type token.
    #[verifier::spinoff_prover]
    #[verifier::rlimit(100)]
    fn parse_array_decl(&mut self) -> (r: Result<AstNode, String>)
        requires
            old(self).wf(),
            old(self).pos() + 2 < old(self).toks().len(),
            old(self).toks()[old(self).pos()] is Identifier,
            old(self).toks()[old(self).pos() + 1] is Identifier,
            old(self).toks()[old(self).pos() + 2] is LBracket,
        ensures
            final(self).tokens == old(self).tokens,
            final(self).wf(),
            old(self).pos() <= final(self).pos(),
            r is Ok ==> final(self).pos() > old(self).pos(),
            ({
                let st = sp_array_decl(old(self).toks(), old(self).pos());
                node_res(r) == st.out && final(self).pos() == st.next
            }),
        decreases self.tokens@.len() - self.cursor, 9int,
    {
        let len = self.tokens.len();
        let t0 = match &self.tokens[self.cursor] {
            Token::Identifier(s) => s.clone(),
            _ => {
                return Err(String::from_str("Unexpected EOF"));
            },
        };
        let v0 = match &self.tokens[self.cursor + 1] {
            Token::Identifier(s) => s.clone(),
            _ => {
                return Err(String::from_str("Unexpected EOF"));
            },
        };
        let size_lex: Option<String> = if len - self.cursor > 3 {
            match &self.tokens[self.cursor + 3] {
                Token::Number(s) => Some(s.clone()),
                _ => None,
            }
        } else {
            None
        };
        let size: usize = match size_lex {
            Some(lex) => usize_of_lexeme_exec(lex.as_str()),
            None => 0,
        };
        self.cursor = self.cursor + 3;
        self.advance();
        match self.consume(Token::RBracket) {
            Ok(u) => {},
            Err(e) => {
                return Err(e);
            },
        }
        if self.check(&Token::Equals) {
            self.advance();
            match self.consume(Token::LBrace) {
                Ok(u) => {},
                Err(e) => {
                    return Err(e);
                },
            }
            let vals = match self.parse_array_values() {
                Ok(v) => v,
                Err(e) => {
                    return Err(e);
                },
            };
            match self.consume(Token::RBrace) {
                Ok(u) => {},
                Err(e) => {
                    return Err(e);
                },
            }
            match self.consume(Token::Semicolon) {
                Ok(u) => Ok(AstNode::ArrayDecl { ty_name: t0, name: v0, size, values: Some(vals) }),
                Err(e) => Err(e),
            }
        } else {
            match self.consume(Token::Semicolon) {
                Ok(u) => Ok(AstNode::ArrayDecl { ty_name: t0, name: v0, size, values: None }),
                Err(e) => Err(e),
            }
        }
    }

    /// A legacy `Type name [= expr];` declaration, entered at the type
    /// token.
    #[verifier::spinoff_prover]
    #[verifier::rlimit(100)]
    fn parse_var_legacy(&mut self) -> (r: Result<AstNode, String>)
        requires
            old(self).wf(),
            old(self).pos() + 1 < old(self).toks().len(),
            old(self).toks()[old(self).pos()] is Identifier,
            old(self).toks()[old(self).pos() + 1] is Identifier,
        ensures
            final(self).tokens == old(self).tokens,
            final(self).wf(),
            old(self).pos() <= final(self).pos(),
            r is Ok ==> final(self).pos() > old(self).pos(),
            ({
                let st = sp_var_legacy(old(self).toks(), old(self).pos());
                node_res(r) == st.out && final(self).pos() == st.next
            }),
        decreases self.tokens@.len() - self.cursor, 9int,
    {
        let len = self.tokens.len();
        let t0 = match &self.tokens[self.cursor] {
            Token::Identifier(s) => s.clone(),
            _ => {
                return Err(String::from_str("Unexpected EOF"));
            },
        };
        let v0 = match &self.tokens[self.cursor + 1] {
            Token::Identifier(s) => s.clone(),
            _ => {
                return Err(String::from_str("Unexpected EOF"));
            },
        };
        if len - self.cursor > 2 && matches!(&self.tokens[self.cursor + 2], Token::Equals) {
            self.cursor = self.cursor + 3;
            let value = match self.parse_expression() {
                Ok(v) => v,
                Err(e) => {
                    return Err(e);
                },
            };
            match self.consume(Token::Semicolon) {
                Ok(u) => Ok(
                    AstNode::VarDecl { ty_name: t0, name: v0, value: Some(Box::new(value)) },
                ),
                Err(e) => Err(e),
            }
        } else {
            self.cursor = self.cursor + 2;
            match self.consume(Token::Semicolon) {
                Ok(u) => Ok(AstNode::VarDecl { ty_name: t0, name: v0, value: None }),
                Err(e) => Err(e),
            }
        }
    }

    /// A statement opening with two identifiers: a variable or array
    /// declaration in either dialect.
    #[verifier::spinoff_prover]
    #[verifier::rlimit(100)]
    fn parse_declaration(&mut self) -> (r: Result<AstNode, String>)
        requires
            old(self).wf(),
            old(self).pos() + 1 < old(self).toks().len(),
            old(self).toks()[old(self).pos()] is Identifier,
            old(self).toks()[old(self).pos() + 1] is Identifier,
        ensures
            final(self).tokens == old(self).tokens,
            final(self).wf(),
            old(self).pos() <= final(self).pos(),
            r is Ok ==> final(self).pos() > old(self).pos(),
            ({
                let st = sp_declaration(old(self).toks(), old(self).pos());
                node_res(r) == st.out && final(self).pos() == st.next
            }),
        decreases self.tokens@.len() - self.cursor, 10int,
    {
        let len = self.tokens.len();
        let t0 = match &self.tokens[self.cursor] {
            Token::Identifier(s) => s.clone(),
            _ => {
                return Err(String::from_str("Unexpected EOF"));
            },
        };
        let s2l = str_equal(t0.as_str(), "var") && len - self.cursor > 2 && matches!(
            &self.tokens[self.cursor + 2],
            Token::Colon,
        );
        if s2l {
            self.parse_var_s2l()
        } else if len - self.cursor > 2 && matches!(&self.tokens[self.cursor + 2], Token::LBracket) {
            self.parse_array_decl()
        } else {
            self.parse_var_legacy()
        }
    }

    /// An `if` statement, entered at its `if` token.
    #[verifier::spinoff_prover]
    #[verifier::rlimit(100)]
    fn parse_if_stmt(&mut self) -> (r: Result<AstNode, String>)
        requires
            old(self).wf(),
            old(self).pos() < old(self).toks().len(),
            old(self).toks()[old(self).pos()] is If,
        ensures
            final(self).tokens == old(self).tokens,
            final(self).wf(),
            old(self).pos() <= final(self).pos(),
            r is Ok ==> final(self).pos() > old(self).pos(),
            ({
                let st = sp_if_stmt(old(self).toks(), old(self).pos());
                node_res(r) == st.out && final(self).pos() == st.next
            }),
        decreases self.tokens@.len() - self.cursor, 10int,
    {
        self.advance();
        match self.consume(Token::LParen) {
            Ok(u) => {},
            Err(e) => {
                return Err(e);
            },
        }
        let condition = match self.parse_expression() {
            Ok(v) => v,
            Err(e) => {
                return Err(e);
            },
        };
        match self.consume(Token::RParen) {
            Ok(u) => {},
            Err(e) => {
                return Err(e);
            },
        }
        let then_branch = match self.parse_statement() {
            Ok(v) => v,
            Err(e) => {
                return Err(e);
            },
        };
        if self.check(&Token::Else) {
            self.advance();
            let else_branch = match self.parse_statement() {
                Ok(v) => v,
                Err(e) => {
                    return Err(e);
                },
            };
            Ok(AstNode::IfStmt {
                condition: Box::new(condition),
                then_branch: Box::new(then_branch),
                else_branch: Some(Box::new(else_branch)),
            })
        } else {
            Ok(AstNode::IfStmt {
                condition: Box::new(condition),
                then_branch: Box::new(then_branch),
                else_branch: None,
            })
        }
    }

    /// A `return` statement, entered at its `return` token.
    #[verifier::spinoff_prover]
    #[verifier::rlimit(100)]
    fn parse_return_stmt(&mut self) -> (r: Result<AstNode, String>)
        requires
            old(self).wf(),
            old(self).pos() < old(self).toks().len(),
            old(self).toks()[old(self).pos()] is Return,
        ensures
            final(self).tokens == old(self).tokens,
            final(self).wf(),
            old(self).pos() <= final(self).pos(),
            r is Ok ==> final(self).pos() > old(self).pos(),
            ({
                let st = sp_return_stmt(old(self).toks(), old(self).pos());
                node_res(r) == st.out && final(self).pos() == st.next
            }),
        decreases self.tokens@.len() - self.cursor, 10int,
    {
        self.advance();
        let expr = match self.parse_expression() {
            Ok(v) => v,
            Err(e) => {
                return Err(e);
            },
        };
        match self.consume(Token::Semicolon) {
            Ok(u) => Ok(AstNode::ReturnStmt(Box::new(expr))),
            Err(e) => Err(e),
        }
    }

    /// A C-style `for` statement, entered at its `for` token.
    #[verifier::spinoff_prover]
    #[verifier::rlimit(100)]
    fn parse_for_stmt(&mut self) -> (r: Result<AstNode, String>)
        requires
            old(self).wf(),
            old(self).pos() < old(self).toks().len(),
            old(self).toks()[old(self).pos()] is For,
        ensures
            final(self).tokens == old(self).tokens,
            final(self).wf(),
            old(self).pos() <= final(self).pos(),
            r is Ok ==> final(self).pos() > old(self).pos(),
            ({
                let st = sp_for_stmt(old(self).toks(), old(self).pos());
                node_res(r) == st.out && final(self).pos() == st.next
            }),
        decreases self.tokens@.len() - self.cursor, 10int,
    {
        self.advance();
        match self.consume(Token::LParen) {
            Ok(u) => {},
            Err(e) => {
                return Err(e);
            },
        }
        let init = match self.parse_statement() {
            Ok(v) => v,
            Err(e) => {
                return Err(e);
            },
        };
        let condition = match self.parse_expression() {
            Ok(v) => v,
            Err(e) => {
                return Err(e);
            },
        };
        match self.consume(Token::Semicolon) {
            Ok(u) => {},
            Err(e) => {
                return Err(e);
            },
        }
        let increment = match self.parse_increment() {
            Ok(v) => v,
            Err(e) => {
                return Err(e);
            },
        };
        match self.consume(Token::RParen) {
            Ok(u) => {},
            Err(e) => {
                return Err(e);
            },
        }
        let body = match self.parse_statement() {
            Ok(v) => v,
            Err(e) => {
                return Err(e);
            },
        };
        Ok(AstNode::ForStmt {
            init: Box::new(init),
            condition: Box::new(condition),
            increment: Box::new(increment),
            body: Box::new(body),
        })
    }

    /// A bare expression statement or assignment with its semicolon.
    #[verifier::spinoff_prover]
    #[verifier::rlimit(100)]
    fn parse_expr_stmt(&mut self) -> (r: Result<AstNode, String>)
        requires
            old(self).wf(),
        ensures
            final(self).tokens == old(self).tokens,
            final(self).wf(),
            old(self).pos() <= final(self).pos(),
            r is Ok ==> final(self).pos() > old(self).pos(),
            ({
                let st = sp_expr_stmt(old(self).toks(), old(self).pos());
                node_res(r) == st.out && final(self).pos() == st.next
            }),
        decreases self.tokens@.len() - self.cursor, 10int,
    {
        let target = match self.parse_expression() {
            Ok(v) => v,
            Err(e) => {
                return Err(e);
            },
        };
        if self.check(&Token::Equals) {
            self.advance();
            let value = match self.parse_expression() {
                Ok(v) => v,
                Err(e) => {
                    return Err(e);
                },
            };
            match self.consume(Token::Semicolon) {
                Ok(u) => Ok(
                    AstNode::Assignment { target: Box::new(target), value: Box::new(value) },
                ),
                Err(e) => Err(e),
            }
        } else {
            match self.consume(Token::Semicolon) {
                Ok(u) => Ok(target),
                Err(e) => Err(e),
            }
        }
    }

    /// One statement.
    #[verifier::spinoff_prover]
    #[verifier::rlimit(100)]
    pub fn parse_statement(&mut self) -> (r: Result<AstNode, String>)
        requires
            old(self).wf(),
        ensures
            final(self).tokens == old(self).tokens,
            final(self).wf(),
            old(self).pos() <= final(self).pos(),
            r is Ok ==> final(self).pos() > old(self).pos(),
            ({
                let st = sp_statement(old(self).toks(), old(self).pos());
                node_res(r) == st.out && final(self).pos() == st.next
            }),
        decreases self.tokens@.len() - self.cursor, 11int,
    {
        if self.check(&Token::LBrace) {
            self.advance();
            return self.parse_block();
        }
        if self.check(&Token::If) {
            return self.parse_if_stmt();
        }
        if self.check(&Token::Return) {
            return self.parse_return_stmt();
        }
        if self.check(&Token::For) {
            return self.parse_for_stmt();
        }
        if self.check(&Token::Break) {
            self.advance();
            return match self.consume(Token::Semicolon) {
                Ok(u) => Ok(AstNode::BreakStmt),
                Err(e) => Err(e),
            };
        }
        let two_idents = match self.current() {
            Some(t) => match t {
                Token::Identifier(_) => match self.peek() {
                    Some(t1) => matches!(t1, Token::Identifier(_)),
                    None => false,
                },
                _ => false,
            },
            None => false,
        };
        if two_idents {
            return self.parse_declaration();
        }
        self.parse_expr_stmt()
    }
}





/// The model of a pair-list-or-message result, for parameter and field
/// lists.
pub open spec fn pairs_res(r: Result<Vec<(String, String)>, String>) -> Result<
    Seq<(Seq<char>, Seq<char>)>,
    Seq<char>,
> {
    match r {
        Ok(v) => Ok(crate::ast::pairs_view(v@)),
        Err(e) => Err(e@),
    }
}

impl Parser {
    /// Collects the documentation lines before a declaration, joined with
    /// newlines.
    #[verifier::spinoff_prover]
    #[verifier::rlimit(100)]
    fn collect_docs(&mut self) -> (r: Option<String>)
        requires
            old(self).wf(),
        ensures
            final(self).tokens == old(self).tokens,
            final(self).wf(),
            old(self).pos() <= final(self).pos(),
            ({
                let st = sp_docs(old(self).toks(), old(self).pos());
                crate::ast::doc_view(r) == st.doc && final(self).pos() == st.next
            }),
        decreases self.tokens@.len() - self.cursor, 13int,
    {
        let d0: Option<String> = match self.current() {
            Some(t) => match t {
                Token::DocComment(s) => Some(s.clone()),
                _ => None,
            },
            None => None,
        };
        match d0 {
            None => None,
            Some(d) => {
                self.advance();
                match self.collect_docs() {
                    None => Some(d),
                    Some(rest) => {
                        let mut out = d;
                        out.append("\n");
                        out.append(rest.as_str());
                        Some(out)
                    },
                }
            },
        }
    }

    /// The fields of a struct body, up to its closing brace.
    #[verifier::spinoff_prover]
    #[verifier::rlimit(100)]
    fn parse_fields(&mut self) -> (r: Result<Vec<(String, String)>, String>)
        requires
            old(self).wf(),
        ensures
            final(self).tokens == old(self).tokens,
            final(self).wf(),
            old(self).pos() <= final(self).pos(),
            ({
                let st = sp_fields(old(self).toks(), old(self).pos());
                pairs_res(r) == st.out && final(self).pos() == st.next
            }),
        decreases self.tokens@.len() - self.cursor, 12int,
    {
        if self.cursor >= self.tokens.len() || self.check(&Token::RBrace) {
            let out: Vec<(String, String)> = Vec::new();
            proof {
                assert(crate::ast::pairs_view(out@) =~= Seq::<(Seq<char>, Seq<char>)>::empty());
            }
            return Ok(out);
        }
        let tyn = match &self.tokens[self.cursor] {
            Token::Identifier(s) => s.clone(),
            _ => {
                return Err(String::from_str("Expected field type"));
            },
        };
        let nm: Option<String> = match self.peek() {
            Some(t) => match t {
                Token::Identifier(s) => Some(s.clone()),
                _ => None,
            },
            None => None,
        };
        let nm = match nm {
            Some(n) => n,
            None => {
                self.advance();
                return Err(String::from_str("Expected field name"));
            },
        };
        self.advance();
        self.advance();
        match self.consume(Token::Semicolon) {
            Ok(u) => {},
            Err(e) => {
                return Err(e);
            },
        }
        let rest = match self.parse_fields() {
            Ok(v) => v,
            Err(e) => {
                return Err(e);
            },
        };
        let ghost restv = rest@;
        let mut out: Vec<(String, String)> = Vec::new();
        out.push((tyn, nm));
        let mut rest = rest;
        out.append(&mut rest);
        proof {
            assert(out@ =~= seq![out@[0]] + restv);
            assert((seq![out@[0]] + restv).drop_first() =~= restv);
            assert(crate::ast::pairs_view(out@) =~= seq![(out@[0].0@, out@[0].1@)]
                + crate::ast::pairs_view(restv));
        }
        Ok(out)
    }

    /// The parameter list of a function, in either dialect.
    #[verifier::spinoff_prover]
    #[verifier::rlimit(100)]
    pub fn parse_args(&mut self) -> (r: Result<Vec<(String, String)>, String>)
        requires
            old(self).wf(),
        ensures
            final(self).tokens == old(self).tokens,
            final(self).wf(),
            old(self).pos() <= final(self).pos(),
            ({
                let st = sp_args(old(self).toks(), old(self).pos());
                pairs_res(r) == st.out && final(self).pos() == st.next
            }),
        decreases self.tokens@.len() - self.cursor, 12int,
    {
        if self.check(&Token::RParen) {
            let out: Vec<(String, String)> = Vec::new();
            proof {
                assert(crate::ast::pairs_view(out@) =~= Seq::<(Seq<char>, Seq<char>)>::empty());
            }
            return Ok(out);
        }
        let qual = match self.current() {
            Some(t) => match t {
                Token::Identifier(s) => str_equal(s.as_str(), "in") || str_equal(
                    s.as_str(),
                    "out",
                ) || str_equal(s.as_str(), "inout"),
                _ => false,
            },
            None => false,
        };
        if qual {
            self.advance();
        }
        let first = match self.current() {
            Some(t) => match t {
                Token::Identifier(s) => Some(s.clone()),
                _ => None,
            },
            None => None,
        };
        let first = match first {
            Some(f) => f,
            None => {
                return Err(String::from_str("Expected argument identifier"));
            },
        };
        self.advance();
        let pair: (String, String);
        if self.check(&Token::Colon) {
            let tyn: Option<String> = match self.peek() {
                Some(t) => match t {
                    Token::Identifier(s) => Some(s.clone()),
                    _ => None,
                },
                None => None,
            };
            let tyn = match tyn {
                Some(ty) => ty,
                None => {
                    self.advance();
                    return Err(String::from_str("Expected type after colon"));
                },
            };
            self.advance();
            self.advance();
            pair = (tyn, first);
        } else {
            let nm: Option<String> = match self.current() {
                Some(t) => match t {
                    Token::Identifier(s) => Some(s.clone()),
                    _ => None,
                },
                None => None,
            };
            let nm = match nm {
                Some(n) => n,
                None => {
                    return Err(String::from_str("Expected arg name"));
                },
            };
            self.advance();
            if self.check(&Token::LBracket) {
                self.advance();
                let has_num = match self.current() {
                    Some(t) => match t {
                        Token::Number(s) => true,
                        _ => false,
                    },
                    None => false,
                };
                if has_num {
                    self.advance();
                }
                match self.consume(Token::RBracket) {
                    Ok(u) => {},
                    Err(e) => {
                        return Err(e);
                    },
                }
                let mut withsuffix = nm;
                withsuffix.append("[]");
                pair = (first, withsuffix);
            } else {
                pair = (first, nm);
            }
        }
        if self.check(&Token::Comma) {
            self.advance();
        }
        let rest = match self.parse_args() {
            Ok(v) => v,
            Err(e) => {
                return Err(e);
            },
        };
        let ghost restv = rest@;
        let mut out: Vec<(String, String)> = Vec::new();
        out.push(pair);
        let mut rest = rest;
        out.append(&mut rest);
        proof {
            assert(out@ =~= seq![out@[0]] + restv);
            assert((seq![out@[0]] + restv).drop_first() =~= restv);
            assert(crate::ast::pairs_view(out@) =~= seq![(out@[0].0@, out@[0].1@)]
                + crate::ast::pairs_view(restv));
        }
        Ok(out)
    }

    /// A struct declaration, carrying its collected documentation.
    #[verifier::spinoff_prover]
    #[verifier::rlimit(100)]
    fn parse_struct(&mut self, doc_string: Option<String>) -> (r: Result<AstNode, String>)
        requires
            old(self).wf(),
        ensures
            final(self).tokens == old(self).tokens,
            final(self).wf(),
            old(self).pos() <= final(self).pos(),
            ({
                let st = sp_struct(old(self).toks(), old(self).pos(), crate::ast::doc_view(
                    doc_string,
                ));
                node_res(r) == st.out && final(self).pos() == st.next
            }),
        decreases self.tokens@.len() - self.cursor, 13int,
    {
        match self.consume(Token::Struct) {
            Ok(u) => {},
            Err(e) => {
                return Err(e);
            },
        }
        let name: Option<String> = match self.current() {
            Some(t) => match t {
                Token::Identifier(s) => Some(s.clone()),
                _ => None,
            },
            None => None,
        };
        let name = match name {
            Some(n) => n,
            None => {
                return Err(String::from_str("Expected struct name"));
            },
        };
        self.advance();
        match self.consume(Token::LBrace) {
            Ok(u) => {},
            Err(e) => {
                return Err(e);
            },
        }
        let fields = match self.parse_fields() {
            Ok(v) => v,
            Err(e) => {
                return Err(e);
            },
        };
        match self.consume(Token::RBrace) {
            Ok(u) => {},
            Err(e) => {
                return Err(e);
            },
        }
        match self.consume(Token::Semicolon) {
            Ok(u) => Ok(AstNode::StructDecl { name, fields, doc_string }),
            Err(e) => Err(e),
        }
    }

    /// The brace-enclosed body of a function declaration, with everything
    /// else already read.
    #[verifier::spinoff_prover]
    #[verifier::rlimit(100)]
    fn parse_fn_body(
        &mut self,
        return_type: String,
        name: String,
        args: Vec<(String, String)>,
        doc_string: Option<String>,
    ) -> (r: Result<AstNode, String>)
        requires
            old(self).wf(),
        ensures
            final(self).tokens == old(self).tokens,
            final(self).wf(),
            old(self).pos() <= final(self).pos(),
            ({
                let st = sp_fn_body(
                    old(self).toks(),
                    old(self).pos(),
                    return_type@,
                    name@,
                    crate::ast::pairs_view(args@),
                    crate::ast::doc_view(doc_string),
                );
                node_res(r) == st.out && final(self).pos() == st.next
            }),
        decreases self.tokens@.len() - self.cursor, 15int,
    {
        match self.consume(Token::LBrace) {
            Ok(u) => {},
            Err(e) => {
                return Err(e);
            },
        }
        let body = match self.parse_block() {
            Ok(v) => v,
            Err(e) => {
                return Err(e);
            },
        };
        Ok(AstNode::FunctionDecl { return_type, name, args, body: Box::new(body), doc_string })
    }

    /// One top-level declaration: leading documentation, then a struct or a
    /// function in either dialect.
    #[verifier::spinoff_prover]
    #[verifier::rlimit(100)]
    pub fn parse_top_level(&mut self) -> (r: Result<AstNode, String>)
        requires
            old(self).wf(),
        ensures
            final(self).tokens == old(self).tokens,
            final(self).wf(),
            old(self).pos() <= final(self).pos(),
            r is Ok ==> final(self).pos() > old(self).pos(),
            ({
                let st = sp_top_level(old(self).toks(), old(self).pos());
                node_res(r) == st.out && final(self).pos() == st.next
            }),
        decreases self.tokens@.len() - self.cursor, 14int,
    {
        let doc_string = self.collect_docs();
        if self.check(&Token::Struct) {
            return self.parse_struct(doc_string);
        }
        if self.check(&Token::Fn) {
            let name: Option<String> = match self.peek() {
                Some(t) => match t {
                    Token::Identifier(s) => Some(s.clone()),
                    _ => None,
                },
                None => None,
            };
            let name = match name {
                Some(n) => n,
                None => {
                    self.advance();
                    return Err(String::from_str("Expected Function Name after 'fn'"));
                },
            };
            self.advance();
            self.advance();
            match self.consume(Token::LParen) {
                Ok(u) => {},
                Err(e) => {
                    return Err(e);
                },
            }
            let args = match self.parse_args() {
                Ok(v) => v,
                Err(e) => {
                    return Err(e);
                },
            };
            match self.consume(Token::RParen) {
                Ok(u) => {},
                Err(e) => {
                    return Err(e);
                },
            }
            let ret: Option<String> = match self.current() {
                Some(t) => match t {
                    Token::Identifier(s) => Some(s.clone()),
                    _ => None,
                },
                None => None,
            };
            match ret {
                Some(rt) => {
                    self.advance();
                    return self.parse_fn_body(rt, name, args, doc_string);
                },
                None => {
                    if self.check(&Token::LBrace) {
                        return self.parse_fn_body(
                            String::from_str("void"),
                            name,
                            args,
                            doc_string,
                        );
                    }
                    return Err(String::from_str("Expected Return Type or Body"));
                },
            }
        }
        let tyn: Option<String> = match self.current() {
            Some(t) => match t {
                Token::Identifier(s) => Some(s.clone()),
                _ => None,
            },
            None => None,
        };
        let tyn = match tyn {
            Some(ty) => ty,
            None => {
                return Err(String::from_str("Expected Function Return Type or Struct"));
            },
        };
        let name: Option<String> = match self.peek() {
            Some(t) => match t {
                Token::Identifier(s) => Some(s.clone()),
                _ => None,
            },
            None => None,
        };
        let name = match name {
            Some(n) => n,
            None => {
                self.advance();
                return Err(String::from_str("Expected Function Name"));
            },
        };
        self.advance();
        self.advance();
        match self.consume(Token::LParen) {
            Ok(u) => {},
            Err(e) => {
                return Err(e);
            },
        }
        let args = match self.parse_args() {
            Ok(v) => v,
            Err(e) => {
                return Err(e);
            },
        };
        match self.consume(Token::RParen) {
            Ok(u) => {},
            Err(e) => {
                return Err(e);
            },
        }
        self.parse_fn_body(tyn, name, args, doc_string)
    }

    /// Every top-level declaration until the input ends.
    #[verifier::spinoff_prover]
    #[verifier::rlimit(100)]
    fn parse_program_items(&mut self) -> (r: Result<Vec<AstNode>, String>)
        requires
            old(self).wf(),
        ensures
            final(self).tokens == old(self).tokens,
            final(self).wf(),
            old(self).pos() <= final(self).pos(),
            ({
                let st = sp_program(old(self).toks(), old(self).pos());
                nodes_res(r) == st.out && final(self).pos() == st.next
            }),
        decreases self.tokens@.len() - self.cursor, 16int,
    {
        if self.cursor >= self.tokens.len() {
            let out: Vec<AstNode> = Vec::new();
            proof {
                assert(crate::ast::ast_views(out@) =~= Seq::<AstView>::empty());
            }
            return Ok(out);
        }
        let first = match self.parse_top_level() {
            Ok(v) => v,
            Err(e) => {
                return Err(e);
            },
        };
        let rest = match self.parse_program_items() {
            Ok(v) => v,
            Err(e) => {
                return Err(e);
            },
        };
        let ghost firstv = first@;
        let ghost restv = rest@;
        let mut out: Vec<AstNode> = Vec::new();
        out.push(first);
        let mut rest = rest;
        out.append(&mut rest);
        proof {
            assert(out@ =~= seq![out@[0]] + restv);
            assert((seq![out@[0]] + restv).drop_first() =~= restv);
            assert(crate::ast::ast_views(out@) =~= seq![firstv] + crate::ast::ast_views(restv));
        }
        Ok(out)
    }

    /// Parses the whole token buffer into one program tree, or stops at the
    /// first grammar violation with its message.
    #[verifier::spinoff_prover]
    #[verifier::rlimit(100)]
    pub fn parse(&mut self) -> (r: Result<AstNode, String>)
        requires
            old(self).wf(),
        ensures
            final(self).tokens == old(self).tokens,
            final(self).wf(),
            node_res(r) == (match sp_program(old(self).toks(), old(self).pos()).out {
                Ok(vs) => Ok::<AstView, Seq<char>>(AstView::Program(vs)),
                Err(m) => Err::<AstView, Seq<char>>(m),
            }),
            old(self).pos() == 0 ==> node_res(r) == sp_parse(old(self).toks()),
            final(self).pos() == sp_program(old(self).toks(), old(self).pos()).next,
        decreases self.tokens@.len() - self.cursor, 17int,
    {
        match self.parse_program_items() {
            Ok(nodes) => Ok(AstNode::Program(nodes)),
            Err(e) => Err(e),
        }
    }
}


/// Two consecutive documentation lines immediately before a declaration
/// join into one newline-separated documentation string.
pub proof fn lemma_doc_lines_join(ts: Seq<Token>, i: int)
    requires
        0 <= i,
        i + 1 < ts.len(),
        ts[i] is DocComment,
        ts[i + 1] is DocComment,
        i + 2 < ts.len() ==> !(ts[i + 2] is DocComment),
    ensures
        sp_docs(ts, i).doc == Some(ts[i]->DocComment_0@ + "\n"@ + ts[i + 1]->DocComment_0@),
        sp_docs(ts, i).next == i + 2,
{
    reveal_with_fuel(sp_docs, 3);
}

/// The documentation collected before a declaration is attached to that
/// declaration and to no other: a top-level parse that succeeds carries
/// exactly the joined documentation of its own leading lines.
pub proof fn lemma_docs_attach_to_next_decl(ts: Seq<Token>, i: int)
    ensures
        (match sp_top_level(ts, i).out {
            Ok(d) => match d {
                AstView::FunctionDecl { doc_string, .. } => doc_string == sp_docs(ts, i).doc,
                AstView::StructDecl { doc_string, .. } => doc_string == sp_docs(ts, i).doc,
                _ => false,
            },
            Err(m) => true,
        }),
{
}

} // verus!
