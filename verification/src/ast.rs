//! The abstract syntax tree for the S2L shader language.
//!
//! The tree is untyped and purely structural: type names are raw strings,
//! every child is owned by exactly one parent, and there are no shared or
//! cyclic edges.  One parsed tree may be handed to any number of generators.

use vstd::prelude::*;

verus! {

/// The binary operators of the expression grammar.
#[derive(Debug, Clone, Copy, PartialEq, Eq, Structural)]
pub enum BinaryOperator {
    Add,
    Sub,
    Mul,
    Div,
    Equal,
    Less,
    Greater,
    LessEqual,
    GreaterEqual,
}

/// The prefix operators of the expression grammar.
#[derive(Debug, Clone, Copy, PartialEq, Eq, Structural)]
pub enum UnaryOperator {
    Negate,
    Not,
}

/// A decimal float literal, kept as its decimal parts rather than as a
/// machine float: `whole` is the integer part and `frac` the digits after the
/// point.  The parser normalizes `frac` by stripping trailing zeros, so an
/// integral value has an empty `frac` and renders as `whole.0`.
#[derive(Debug, PartialEq)]
pub struct FloatLit {
    pub whole: u64,
    pub frac: String,
}

/// One node of the syntax tree: the program root, top-level declarations,
/// statements and expressions, as a single closed variant type.
#[derive(Debug, PartialEq)]
pub enum AstNode {
    Program(Vec<AstNode>),
    FunctionDecl {
        return_type: String,
        name: String,
        args: Vec<(String, String)>,
        body: Box<AstNode>,
        doc_string: Option<String>,
    },
    StructDecl {
        name: String,
        fields: Vec<(String, String)>,
        doc_string: Option<String>,
    },
    Block(Vec<AstNode>),
    VarDecl {
        ty_name: String,
        name: String,
        value: Option<Box<AstNode>>,
    },
    ArrayDecl {
        ty_name: String,
        name: String,
        size: usize,
        values: Option<Vec<AstNode>>,
    },
    Assignment {
        target: Box<AstNode>,
        value: Box<AstNode>,
    },
    ReturnStmt(Box<AstNode>),
    IfStmt {
        condition: Box<AstNode>,
        then_branch: Box<AstNode>,
        else_branch: Option<Box<AstNode>>,
    },
    ForStmt {
        init: Box<AstNode>,
        condition: Box<AstNode>,
        increment: Box<AstNode>,
        body: Box<AstNode>,
    },
    BreakStmt,
    BinaryOp {
        left: Box<AstNode>,
        op: BinaryOperator,
        right: Box<AstNode>,
    },
    UnaryOp {
        op: UnaryOperator,
        right: Box<AstNode>,
    },
    Call {
        func_name: String,
        args: Vec<AstNode>,
    },
    SubscriptAccess {
        base: Box<AstNode>,
        index: Box<AstNode>,
    },
    MemberAccess {
        base: Box<AstNode>,
        member: String,
    },
    LiteralFloat(FloatLit),
    LiteralInt(i64),
    Variable(String),
}

/// The mathematical model of a syntax tree: the same shape as [`AstNode`],
/// with strings abstracted to character sequences and vectors to sequences.
/// All contracts over trees are stated in terms of this type.
pub enum AstView {
    Program(Seq<AstView>),
    FunctionDecl {
        return_type: Seq<char>,
        name: Seq<char>,
        args: Seq<(Seq<char>, Seq<char>)>,
        body: Box<AstView>,
        doc_string: Option<Seq<char>>,
    },
    StructDecl {
        name: Seq<char>,
        fields: Seq<(Seq<char>, Seq<char>)>,
        doc_string: Option<Seq<char>>,
    },
    Block(Seq<AstView>),
    VarDecl {
        ty_name: Seq<char>,
        name: Seq<char>,
        value: Option<Box<AstView>>,
    },
    ArrayDecl {
        ty_name: Seq<char>,
        name: Seq<char>,
        size: nat,
        values: Option<Seq<AstView>>,
    },
    Assignment {
        target: Box<AstView>,
        value: Box<AstView>,
    },
    ReturnStmt(Box<AstView>),
    IfStmt {
        condition: Box<AstView>,
        then_branch: Box<AstView>,
        else_branch: Option<Box<AstView>>,
    },
    ForStmt {
        init: Box<AstView>,
        condition: Box<AstView>,
        increment: Box<AstView>,
        body: Box<AstView>,
    },
    BreakStmt,
    BinaryOp {
        left: Box<AstView>,
        op: BinaryOperator,
        right: Box<AstView>,
    },
    UnaryOp {
        op: UnaryOperator,
        right: Box<AstView>,
    },
    Call {
        func_name: Seq<char>,
        args: Seq<AstView>,
    },
    SubscriptAccess {
        base: Box<AstView>,
        index: Box<AstView>,
    },
    MemberAccess {
        base: Box<AstView>,
        member: Seq<char>,
    },
    LiteralFloat {
        whole: nat,
        frac: Seq<char>,
    },
    LiteralInt(int),
    Variable(Seq<char>),
}

/// The view of a list of argument or field pairs: each half to its
/// character sequence.
pub open spec fn pairs_view(s: Seq<(String, String)>) -> Seq<(Seq<char>, Seq<char>)> {
    s.map_values(|p: (String, String)| (p.0@, p.1@))
}

/// The view of an optional documentation string.
pub open spec fn doc_view(d: Option<String>) -> Option<Seq<char>> {
    match d {
        Some(s) => Some(s@),
        None => None,
    }
}

/// The model of one tree node.
pub open spec fn ast_view(n: AstNode) -> AstView
    decreases n,
{
    match n {
        AstNode::Program(nodes) => AstView::Program(ast_views(nodes@)),
        AstNode::FunctionDecl { return_type, name, args, body, doc_string } => AstView::FunctionDecl {
            return_type: return_type@,
            name: name@,
            args: pairs_view(args@),
            body: Box::new(ast_view(*body)),
            doc_string: doc_view(doc_string),
        },
        AstNode::StructDecl { name, fields, doc_string } => AstView::StructDecl {
            name: name@,
            fields: pairs_view(fields@),
            doc_string: doc_view(doc_string),
        },
        AstNode::Block(stmts) => AstView::Block(ast_views(stmts@)),
        AstNode::VarDecl { ty_name, name, value } => AstView::VarDecl {
            ty_name: ty_name@,
            name: name@,
            value: match value {
                Some(v) => Some(Box::new(ast_view(*v))),
                None => None,
            },
        },
        AstNode::ArrayDecl { ty_name, name, size, values } => AstView::ArrayDecl {
            ty_name: ty_name@,
            name: name@,
            size: size as nat,
            values: match values {
                Some(vs) => Some(ast_views(vs@)),
                None => None,
            },
        },
        AstNode::Assignment { target, value } => AstView::Assignment {
            target: Box::new(ast_view(*target)),
            value: Box::new(ast_view(*value)),
        },
        AstNode::ReturnStmt(e) => AstView::ReturnStmt(Box::new(ast_view(*e))),
        AstNode::IfStmt { condition, then_branch, else_branch } => AstView::IfStmt {
            condition: Box::new(ast_view(*condition)),
            then_branch: Box::new(ast_view(*then_branch)),
            else_branch: match else_branch {
                Some(e) => Some(Box::new(ast_view(*e))),
                None => None,
            },
        },
        AstNode::ForStmt { init, condition, increment, body } => AstView::ForStmt {
            init: Box::new(ast_view(*init)),
            condition: Box::new(ast_view(*condition)),
            increment: Box::new(ast_view(*increment)),
            body: Box::new(ast_view(*body)),
        },
        AstNode::BreakStmt => AstView::BreakStmt,
        AstNode::BinaryOp { left, op, right } => AstView::BinaryOp {
            left: Box::new(ast_view(*left)),
            op,
            right: Box::new(ast_view(*right)),
        },
        AstNode::UnaryOp { op, right } => AstView::UnaryOp {
            op,
            right: Box::new(ast_view(*right)),
        },
        AstNode::Call { func_name, args } => AstView::Call {
            func_name: func_name@,
            args: ast_views(args@),
        },
        AstNode::SubscriptAccess { base, index } => AstView::SubscriptAccess {
            base: Box::new(ast_view(*base)),
            index: Box::new(ast_view(*index)),
        },
        AstNode::MemberAccess { base, member } => AstView::MemberAccess {
            base: Box::new(ast_view(*base)),
            member: member@,
        },
        AstNode::LiteralFloat(f) => AstView::LiteralFloat { whole: f.whole as nat, frac: f.frac@ },
        AstNode::LiteralInt(i) => AstView::LiteralInt(i as int),
        AstNode::Variable(name) => AstView::Variable(name@),
    }
}

/// The model of a list of tree nodes, element by element.
pub open spec fn ast_views(s: Seq<AstNode>) -> Seq<AstView>
    decreases s,
{
    if s.len() == 0 {
        Seq::empty()
    } else {
        seq![ast_view(s[0])] + ast_views(s.drop_first())
    }
}

impl View for AstNode {
    type V = AstView;

    open spec fn view(&self) -> AstView {
        ast_view(*self)
    }
}

} // verus!
