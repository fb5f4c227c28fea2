//! The lexer: turns source text into a token stream.  Whitespace is skipped,
//! keywords and multi-character operators are recognized greedily, triple
//! slash documentation lines are kept as `DocComment` tokens with markers and
//! surrounding whitespace trimmed, ordinary double-slash comments are
//! discarded, and an unrecognized character yields an error for that
//! character only while lexing continues past it.

use vstd::prelude::*;

use crate::strutil::seg_string;
use crate::strutil::str_chars;
use crate::strutil::str_equal;

verus! {

/// One token of the S2L language.
#[derive(Debug, Clone, PartialEq)]
pub enum Token {
    Struct,
    Fn,
    Return,
    If,
    Else,
    For,
    Break,
    Bang,
    LParen,
    RParen,
    LBrace,
    RBrace,
    LBracket,
    RBracket,
    Semicolon,
    Colon,
    Comma,
    Dot,
    Equals,
    Plus,
    Minus,
    Star,
    Slash,
    Greater,
    Less,
    DoubleEquals,
    LessEquals,
    GreaterEquals,
    Identifier(String),
    Number(String),
    DocComment(String),
}

/// The mathematical model of a token: the same variants with string payloads
/// abstracted to character sequences.
pub enum TokenView {
    Struct,
    Fn,
    Return,
    If,
    Else,
    For,
    Break,
    Bang,
    LParen,
    RParen,
    LBrace,
    RBrace,
    LBracket,
    RBracket,
    Semicolon,
    Colon,
    Comma,
    Dot,
    Equals,
    Plus,
    Minus,
    Star,
    Slash,
    Greater,
    Less,
    DoubleEquals,
    LessEquals,
    GreaterEquals,
    Identifier(Seq<char>),
    Number(Seq<char>),
    DocComment(Seq<char>),
}

impl View for Token {
    type V = TokenView;

    open spec fn view(&self) -> TokenView {
        match self {
            Token::Struct => TokenView::Struct,
            Token::Fn => TokenView::Fn,
            Token::Return => TokenView::Return,
            Token::If => TokenView::If,
            Token::Else => TokenView::Else,
            Token::For => TokenView::For,
            Token::Break => TokenView::Break,
            Token::Bang => TokenView::Bang,
            Token::LParen => TokenView::LParen,
            Token::RParen => TokenView::RParen,
            Token::LBrace => TokenView::LBrace,
            Token::RBrace => TokenView::RBrace,
            Token::LBracket => TokenView::LBracket,
            Token::RBracket => TokenView::RBracket,
            Token::Semicolon => TokenView::Semicolon,
            Token::Colon => TokenView::Colon,
            Token::Comma => TokenView::Comma,
            Token::Dot => TokenView::Dot,
            Token::Equals => TokenView::Equals,
            Token::Plus => TokenView::Plus,
            Token::Minus => TokenView::Minus,
            Token::Star => TokenView::Star,
            Token::Slash => TokenView::Slash,
            Token::Greater => TokenView::Greater,
            Token::Less => TokenView::Less,
            Token::DoubleEquals => TokenView::DoubleEquals,
            Token::LessEquals => TokenView::LessEquals,
            Token::GreaterEquals => TokenView::GreaterEquals,
            Token::Identifier(s) => TokenView::Identifier(s@),
            Token::Number(s) => TokenView::Number(s@),
            Token::DocComment(s) => TokenView::DocComment(s@),
        }
    }
}

/// An unrecognized character, by its position in the input.
#[derive(Debug, Clone, PartialEq, Eq)]
pub struct LexError {
    pub pos: usize,
}

/// The whitespace characters the lexer skips between tokens.
pub open spec fn is_lex_ws(c: char) -> bool {
    c == ' ' || c == '\t' || c == '\n' || c == '\u{000C}'
}

/// A decimal digit.
pub open spec fn is_digit(c: char) -> bool {
    48 <= c as u32 <= 57
}

/// A character that may open an identifier.
pub open spec fn is_ident_start(c: char) -> bool {
    (97 <= c as u32 <= 122) || (65 <= c as u32 <= 90) || c == '_'
}

/// A character that may continue an identifier.
pub open spec fn is_ident_cont(c: char) -> bool {
    is_ident_start(c) || is_digit(c)
}

/// The whitespace trimmed off the ends of a documentation line.
pub open spec fn is_trim_ws(c: char) -> bool {
    c == ' ' || c == '\t' || c == '\r' || c == '\n' || c == '\u{000B}' || c == '\u{000C}'
}

/// The next scan position: at least one past `i`, and never past the end.
pub open spec fn clamp_pos(len: int, i: int, j: int) -> int {
    if j <= i {
        i + 1
    } else if j > len {
        len
    } else {
        j
    }
}

/// The position of the next newline at or after `i`, or the end of input.
pub open spec fn line_end(s: Seq<char>, i: int) -> int
    decreases s.len() - i,
{
    if i < s.len() && s[i] != '\n' {
        line_end(s, i + 1)
    } else {
        i
    }
}

/// The end of the digit run starting at `i`.
pub open spec fn digits_end(s: Seq<char>, i: int) -> int
    decreases s.len() - i,
{
    if i < s.len() && is_digit(s[i]) {
        digits_end(s, i + 1)
    } else {
        i
    }
}

/// The end of the identifier-character run starting at `i`.
pub open spec fn ident_end(s: Seq<char>, i: int) -> int
    decreases s.len() - i,
{
    if i < s.len() && is_ident_cont(s[i]) {
        ident_end(s, i + 1)
    } else {
        i
    }
}

/// Strips every leading triple-slash marker off a documentation line.
pub open spec fn strip_marks(t: Seq<char>) -> Seq<char>
    decreases t.len(),
{
    if t.len() >= 3 && t[0] == '/' && t[1] == '/' && t[2] == '/' {
        strip_marks(t.subrange(3, t.len() as int))
    } else {
        t
    }
}

/// Drops leading whitespace.
pub open spec fn trim_left(t: Seq<char>) -> Seq<char>
    decreases t.len(),
{
    if t.len() > 0 && is_trim_ws(t[0]) {
        trim_left(t.drop_first())
    } else {
        t
    }
}

/// Drops trailing whitespace.
pub open spec fn trim_right(t: Seq<char>) -> Seq<char>
    decreases t.len(),
{
    if t.len() > 0 && is_trim_ws(t[t.len() - 1]) {
        trim_right(t.drop_last())
    } else {
        t
    }
}

/// The captured text of a documentation token: the raw line with its
/// markers stripped and surrounding whitespace trimmed.
pub open spec fn doc_text(t: Seq<char>) -> Seq<char> {
    trim_right(trim_left(strip_marks(t)))
}

/// The token of an identifier-shaped word: a keyword where it is one.
pub open spec fn word_token(w: Seq<char>) -> TokenView {
    if w == "struct"@ {
        TokenView::Struct
    } else if w == "fn"@ {
        TokenView::Fn
    } else if w == "return"@ {
        TokenView::Return
    } else if w == "if"@ {
        TokenView::If
    } else if w == "else"@ {
        TokenView::Else
    } else if w == "for"@ {
        TokenView::For
    } else if w == "break"@ {
        TokenView::Break
    } else {
        TokenView::Identifier(w)
    }
}

/// The token of a single punctuation character, where there is one.
pub open spec fn single_sym(c: char) -> Option<TokenView> {
    if c == '(' {
        Some(TokenView::LParen)
    } else if c == ')' {
        Some(TokenView::RParen)
    } else if c == '{' {
        Some(TokenView::LBrace)
    } else if c == '}' {
        Some(TokenView::RBrace)
    } else if c == '[' {
        Some(TokenView::LBracket)
    } else if c == ']' {
        Some(TokenView::RBracket)
    } else if c == ';' {
        Some(TokenView::Semicolon)
    } else if c == ':' {
        Some(TokenView::Colon)
    } else if c == ',' {
        Some(TokenView::Comma)
    } else if c == '.' {
        Some(TokenView::Dot)
    } else if c == '+' {
        Some(TokenView::Plus)
    } else if c == '-' {
        Some(TokenView::Minus)
    } else if c == '*' {
        Some(TokenView::Star)
    } else if c == '!' {
        Some(TokenView::Bang)
    } else {
        None
    }
}

/// The exact token stream of the input from position `i` on: tokens and
/// per-character errors, in input order.
pub open spec fn sp_tokens(s: Seq<char>, i: int) -> Seq<Result<TokenView, int>>
    decreases s.len() - i,
{
    if i >= s.len() || i < 0 {
        Seq::empty()
    } else {
        let c = s[i];
        if is_lex_ws(c) {
            sp_tokens(s, i + 1)
        } else if c == '/' {
            if i + 1 < s.len() && s[i + 1] == '/' {
                if i + 2 < s.len() && s[i + 2] == '/' {
                    let j = clamp_pos(s.len() as int, i, line_end(s, i + 3));
                    seq![Ok(TokenView::DocComment(doc_text(s.subrange(i, j))))] + sp_tokens(s, j)
                } else {
                    let j = clamp_pos(s.len() as int, i, line_end(s, i + 2));
                    sp_tokens(s, j)
                }
            } else {
                seq![Ok(TokenView::Slash)] + sp_tokens(s, i + 1)
            }
        } else if c == '=' {
            if i + 1 < s.len() && s[i + 1] == '=' {
                seq![Ok(TokenView::DoubleEquals)] + sp_tokens(s, i + 2)
            } else {
                seq![Ok(TokenView::Equals)] + sp_tokens(s, i + 1)
            }
        } else if c == '<' {
            if i + 1 < s.len() && s[i + 1] == '=' {
                seq![Ok(TokenView::LessEquals)] + sp_tokens(s, i + 2)
            } else {
                seq![Ok(TokenView::Less)] + sp_tokens(s, i + 1)
            }
        } else if c == '>' {
            if i + 1 < s.len() && s[i + 1] == '=' {
                seq![Ok(TokenView::GreaterEquals)] + sp_tokens(s, i + 2)
            } else {
                seq![Ok(TokenView::Greater)] + sp_tokens(s, i + 1)
            }
        } else if is_digit(c) {
            let j = clamp_pos(s.len() as int, i, digits_end(s, i + 1));
            if j < s.len() && s[j] == '.' && j + 1 < s.len() && is_digit(s[j + 1]) {
                let k = clamp_pos(s.len() as int, j + 1, digits_end(s, j + 2));
                seq![Ok(TokenView::Number(s.subrange(i, k)))] + sp_tokens(s, k)
            } else {
                seq![Ok(TokenView::Number(s.subrange(i, j)))] + sp_tokens(s, j)
            }
        } else if is_ident_start(c) {
            let j = clamp_pos(s.len() as int, i, ident_end(s, i + 1));
            seq![Ok(word_token(s.subrange(i, j)))] + sp_tokens(s, j)
        } else {
            match single_sym(c) {
                Some(t) => seq![Ok(t)] + sp_tokens(s, i + 1),
                None => seq![Err(i)] + sp_tokens(s, i + 1),
            }
        }
    }
}

/// The model of a lexed item list: tokens to their views, errors to their
/// positions.
pub open spec fn items_view(s: Seq<Result<Token, LexError>>) -> Seq<Result<TokenView, int>> {
    s.map_values(
        |r: Result<Token, LexError>|
            match r {
                Ok(t) => Ok(t@),
                Err(e) => Err(e.pos as int),
            },
    )
}

fn is_ws_exec(c: char) -> (r: bool)
    ensures
        r == is_lex_ws(c),
{
    c == ' ' || c == '\t' || c == '\n' || c == '\u{000C}'
}

fn is_digit_exec(c: char) -> (r: bool)
    ensures
        r == is_digit(c),
{
    let u = c as u32;
    48 <= u && u <= 57
}

fn is_ident_start_exec(c: char) -> (r: bool)
    ensures
        r == is_ident_start(c),
{
    let u = c as u32;
    (97 <= u && u <= 122) || (65 <= u && u <= 90) || c == '_'
}

fn is_ident_cont_exec(c: char) -> (r: bool)
    ensures
        r == is_ident_cont(c),
{
    is_ident_start_exec(c) || is_digit_exec(c)
}

fn is_trim_ws_exec(c: char) -> (r: bool)
    ensures
        r == is_trim_ws(c),
{
    c == ' ' || c == '\t' || c == '\r' || c == '\n' || c == '\u{000B}' || c == '\u{000C}'
}

fn line_end_exec(v: &Vec<char>, start: usize) -> (r: usize)
    ensures
        r as int == line_end(v@, start as int),
        r >= start,
        start <= v@.len() ==> r <= v@.len(),
{
    let n = v.len();
    let mut j = start;
    while j < n && v[j] != '\n'
        invariant
            j >= start,
            n == v@.len(),
            start <= n ==> j <= n,
            line_end(v@, start as int) == line_end(v@, j as int),
        decreases n - j,
    {
        j = j + 1;
    }
    j
}

fn digits_end_exec(v: &Vec<char>, start: usize) -> (r: usize)
    ensures
        r as int == digits_end(v@, start as int),
        r >= start,
        start <= v@.len() ==> r <= v@.len(),
{
    let n = v.len();
    let mut j = start;
    while j < n && is_digit_exec(v[j])
        invariant
            j >= start,
            n == v@.len(),
            start <= n ==> j <= n,
            digits_end(v@, start as int) == digits_end(v@, j as int),
        decreases n - j,
    {
        j = j + 1;
    }
    j
}

fn ident_end_exec(v: &Vec<char>, start: usize) -> (r: usize)
    ensures
        r as int == ident_end(v@, start as int),
        r >= start,
        start <= v@.len() ==> r <= v@.len(),
{
    let n = v.len();
    let mut j = start;
    while j < n && is_ident_cont_exec(v[j])
        invariant
            j >= start,
            n == v@.len(),
            start <= n ==> j <= n,
            ident_end(v@, start as int) == ident_end(v@, j as int),
        decreases n - j,
    {
        j = j + 1;
    }
    j
}

fn doc_text_exec(v: &Vec<char>, i: usize, j: usize) -> (out: String)
    requires
        i <= j <= v@.len(),
    ensures
        out@ == doc_text(v@.subrange(i as int, j as int)),
{
    let mut a = i;
    while j - a >= 3 && v[a] == '/' && v[a + 1] == '/' && v[a + 2] == '/'
        invariant
            i <= a <= j <= v@.len(),
            strip_marks(v@.subrange(i as int, j as int)) == strip_marks(
                v@.subrange(a as int, j as int),
            ),
        decreases j - a,
    {
        proof {
            let t = v@.subrange(a as int, j as int);
            assert(t.subrange(3, t.len() as int) =~= v@.subrange(a as int + 3, j as int));
        }
        a = a + 3;
    }
    proof {
        assert(strip_marks(v@.subrange(a as int, j as int)) == v@.subrange(a as int, j as int));
    }
    let ghost stripped = v@.subrange(a as int, j as int);
    let mut b = j;
    while a < b && is_trim_ws_exec(v[a])
        invariant
            i <= a <= b,
            b == j <= v@.len(),
            trim_left(stripped) == trim_left(v@.subrange(a as int, j as int)),
        decreases b - a,
    {
        proof {
            assert(v@.subrange(a as int, j as int).drop_first() =~= v@.subrange(
                a as int + 1,
                j as int,
            ));
        }
        a = a + 1;
    }
    proof {
        assert(trim_left(stripped) == v@.subrange(a as int, j as int));
    }
    let ghost lefted = v@.subrange(a as int, j as int);
    while b > a && is_trim_ws_exec(v[b - 1])
        invariant
            a <= b <= j <= v@.len(),
            trim_right(lefted) == trim_right(v@.subrange(a as int, b as int)),
        decreases b,
    {
        proof {
            assert(v@.subrange(a as int, b as int).drop_last() =~= v@.subrange(
                a as int,
                b as int - 1,
            ));
        }
        b = b - 1;
    }
    proof {
        assert(trim_right(lefted) == v@.subrange(a as int, b as int));
    }
    seg_string(v, a, b)
}

fn word_to_token(w: String) -> (t: Token)
    ensures
        t@ == word_token(w@),
{
    if str_equal(w.as_str(), "struct") {
        Token::Struct
    } else if str_equal(w.as_str(), "fn") {
        Token::Fn
    } else if str_equal(w.as_str(), "return") {
        Token::Return
    } else if str_equal(w.as_str(), "if") {
        Token::If
    } else if str_equal(w.as_str(), "else") {
        Token::Else
    } else if str_equal(w.as_str(), "for") {
        Token::For
    } else if str_equal(w.as_str(), "break") {
        Token::Break
    } else {
        Token::Identifier(w)
    }
}

/// Lexes the whole input into tokens and per-character errors, in order.
pub fn tokenize(input: &str) -> (toks: Vec<Result<Token, LexError>>)
    ensures
        items_view(toks@) == sp_tokens(input@, 0),
{
    let v = str_chars(input);
    let n = v.len();
    let mut toks: Vec<Result<Token, LexError>> = Vec::new();
    let mut i: usize = 0;
    proof {
        assert(items_view(toks@) + sp_tokens(input@, 0) =~= sp_tokens(input@, 0));
    }
    while i < n
        invariant
            i <= n,
            n == v@.len(),
            v@ == input@,
            sp_tokens(input@, 0) == items_view(toks@) + sp_tokens(input@, i as int),
        decreases n - i,
    {
        let ghost s = input@;
        let ghost prev = toks@;
        let c = v[i];
        let mut item: Option<Result<Token, LexError>> = None;
        let mut next: usize = i + 1;
        let ghost mut itemv: Option<Result<TokenView, int>> = None;
        if is_ws_exec(c) {
            proof {
                assert(sp_tokens(s, i as int) == sp_tokens(s, i as int + 1));
            }
        } else if c == '/' {
            if i + 1 < n && v[i + 1] == '/' {
                if i + 2 < n && v[i + 2] == '/' {
                    let je = line_end_exec(&v, i + 3);
                    let j = if je > n {
                        n
                    } else {
                        je
                    };
                    proof {
                        assert(j as int == clamp_pos(s.len() as int, i as int, line_end(
                            s,
                            i as int + 3,
                        )));
                    }
                    let text = doc_text_exec(&v, i, j);
                    item = Some(Ok(Token::DocComment(text)));
                    proof {
                        itemv = Some(
                            Ok(TokenView::DocComment(doc_text(s.subrange(i as int, j as int)))),
                        );
                    }
                    next = j;
                } else {
                    let je = line_end_exec(&v, i + 2);
                    let j = if je > n {
                        n
                    } else {
                        je
                    };
                    proof {
                        assert(j as int == clamp_pos(s.len() as int, i as int, line_end(
                            s,
                            i as int + 2,
                        )));
                        assert(sp_tokens(s, i as int) == sp_tokens(s, j as int));
                    }
                    next = j;
                }
            } else {
                item = Some(Ok(Token::Slash));
                proof {
                    itemv = Some(Ok(TokenView::Slash));
                }
            }
        } else if c == '=' {
            if i + 1 < n && v[i + 1] == '=' {
                item = Some(Ok(Token::DoubleEquals));
                proof {
                    itemv = Some(Ok(TokenView::DoubleEquals));
                }
                next = i + 2;
            } else {
                item = Some(Ok(Token::Equals));
                proof {
                    itemv = Some(Ok(TokenView::Equals));
                }
            }
        } else if c == '<' {
            if i + 1 < n && v[i + 1] == '=' {
                item = Some(Ok(Token::LessEquals));
                proof {
                    itemv = Some(Ok(TokenView::LessEquals));
                }
                next = i + 2;
            } else {
                item = Some(Ok(Token::Less));
                proof {
                    itemv = Some(Ok(TokenView::Less));
                }
            }
        } else if c == '>' {
            if i + 1 < n && v[i + 1] == '=' {
                item = Some(Ok(Token::GreaterEquals));
                proof {
                    itemv = Some(Ok(TokenView::GreaterEquals));
                }
                next = i + 2;
            } else {
                item = Some(Ok(Token::Greater));
                proof {
                    itemv = Some(Ok(TokenView::Greater));
                }
            }
        } else if is_digit_exec(c) {
            let j = digits_end_exec(&v, i + 1);
            proof {
                assert(j as int == clamp_pos(s.len() as int, i as int, digits_end(s, i as int + 1)));
            }
            if j < n && v[j] == '.' && j + 1 < n && is_digit_exec(v[j + 1]) {
                let k = digits_end_exec(&v, j + 2);
                proof {
                    assert(k as int == clamp_pos(s.len() as int, j as int + 1, digits_end(
                        s,
                        j as int + 2,
                    )));
                }
                let text = seg_string(&v, i, k);
                item = Some(Ok(Token::Number(text)));
                proof {
                    itemv = Some(Ok(TokenView::Number(s.subrange(i as int, k as int))));
                }
                next = k;
            } else {
                let text = seg_string(&v, i, j);
                item = Some(Ok(Token::Number(text)));
                proof {
                    itemv = Some(Ok(TokenView::Number(s.subrange(i as int, j as int))));
                }
                next = j;
            }
        } else if is_ident_start_exec(c) {
            let j = ident_end_exec(&v, i + 1);
            proof {
                assert(j as int == clamp_pos(s.len() as int, i as int, ident_end(s, i as int + 1)));
            }
            let text = seg_string(&v, i, j);
            let tok = word_to_token(text);
            proof {
                itemv = Some(Ok(tok@));
            }
            item = Some(Ok(tok));
            next = j;
        } else {
            let sym: Option<Token> = match c {
                '(' => Some(Token::LParen),
                ')' => Some(Token::RParen),
                '{' => Some(Token::LBrace),
                '}' => Some(Token::RBrace),
                '[' => Some(Token::LBracket),
                ']' => Some(Token::RBracket),
                ';' => Some(Token::Semicolon),
                ':' => Some(Token::Colon),
                ',' => Some(Token::Comma),
                '.' => Some(Token::Dot),
                '+' => Some(Token::Plus),
                '-' => Some(Token::Minus),
                '*' => Some(Token::Star),
                '!' => Some(Token::Bang),
                _ => None,
            };
            match sym {
                Some(t) => {
                    proof {
                        itemv = Some(Ok(t@));
                        assert(single_sym(c) == Some(t@));
                    }
                    item = Some(Ok(t));
                },
                None => {
                    proof {
                        itemv = Some(Err(i as int));
                        assert(single_sym(c) is None);
                    }
                    item = Some(Err(LexError { pos: i }));
                },
            }
        }
        match item {
            Some(r) => {
                proof {
                    let rv = itemv->0;
                    assert(sp_tokens(s, i as int) == seq![rv] + sp_tokens(s, next as int));
                    assert(items_view(prev.push(r)) =~= items_view(prev).push(rv));
                    assert(items_view(prev).push(rv) + sp_tokens(s, next as int) =~= items_view(
                        prev,
                    ) + (seq![rv] + sp_tokens(s, next as int)));
                }
                toks.push(r);
            },
            None => {
                proof {
                    assert(sp_tokens(s, i as int) == sp_tokens(s, next as int));
                }
            },
        }
        i = next;
    }
    proof {
        assert(sp_tokens(input@, n as int) =~= Seq::<Result<TokenView, int>>::empty());
        assert(items_view(toks@) + Seq::<Result<TokenView, int>>::empty() =~= items_view(toks@));
    }
    toks
}

} // verus!
