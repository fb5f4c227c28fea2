//! The Metal-like target: a C-style rendering of the tree in which type
//! names and calls pass through unchanged.  In "standard library" mode every
//! function body is replaced by a single native-symbol marker comment, for
//! headers whose functions are implemented natively.

use vstd::prelude::*;

use crate::ast::AstNode;
use crate::codegen::op_str;
use crate::codegen::unop_str;
use crate::codegen::float_str;
use crate::codegen::strip_semis;
use crate::codegen::CodeGenerator;
use crate::codegen::float_text;
use crate::codegen::int_text;
use crate::codegen::op_text;
use crate::codegen::trim_semis;
use crate::codegen::unop_text;
use crate::strutil::int_str;
use crate::strutil::nat_str;
use crate::strutil::u64_string;
use vstd::string::StringExecFns;

verus! {

/// The exact Metal-like text of one tree node.
pub open spec fn metal_node(sl: bool, v: AstNode) -> Seq<char>
    decreases v,
{
    match v {
        AstNode::Program(nodes) => metal_decls(sl, nodes@),
        AstNode::StructDecl { name, fields, doc_string } => "struct "@ + name@ + " {\n"@
            + metal_fields(fields@) + "\n};"@,
        AstNode::FunctionDecl { return_type, name, args, body, doc_string } => if sl {
            "// [Native Symbol] "@ + name@
        } else {
            return_type@ + " "@ + name@ + "("@ + metal_args(args@) + ") "@ + metal_node(sl, *body)
        },
        AstNode::Block(stmts) => "{\n"@ + metal_stmts(sl, stmts@) + "\n}"@,
        AstNode::ReturnStmt(e) => "return "@ + metal_node(sl, *e) + ";"@,
        AstNode::IfStmt { condition, then_branch, else_branch } => "if ("@ + metal_node(
            sl,
            *condition,
        ) + ") "@ + metal_node(sl, *then_branch) + match else_branch {
            Some(e) => " else "@ + metal_node(sl, *e),
            None => Seq::<char>::empty(),
        },
        AstNode::ForStmt { init, condition, increment, body } => "for ("@ + metal_node(sl, *init)
            + " "@ + metal_node(sl, *condition) + "; "@ + strip_semis(metal_node(sl, *increment))
            + ") "@ + metal_node(sl, *body),
        AstNode::BreakStmt => "break;"@,
        AstNode::VarDecl { ty_name, name, value } => match value {
            Some(v) => ty_name@ + " "@ + name@ + " = "@ + metal_node(sl, *v) + ";"@,
            None => ty_name@ + " "@ + name@ + ";"@,
        },
        AstNode::ArrayDecl { ty_name, name, size, values } => ty_name@ + " "@ + name@ + "["@
            + nat_str(size as nat) + "]"@ + match values {
            Some(vs) => " = { "@ + metal_exprs(sl, vs@) + " }"@,
            None => Seq::<char>::empty(),
        } + ";"@,
        AstNode::Assignment { target, value } => metal_node(sl, *target) + " = "@ + metal_node(
            sl,
            *value,
        ) + ";"@,
        AstNode::BinaryOp { left, op, right } => "("@ + metal_node(sl, *left) + " "@ + op_str(op)
            + " "@ + metal_node(sl, *right) + ")"@,
        AstNode::UnaryOp { op, right } => "("@ + unop_str(op) + metal_node(sl, *right) + ")"@,
        AstNode::Call { func_name, args } => func_name@ + "("@ + metal_exprs(sl, args@) + ")"@,
        AstNode::MemberAccess { base, member } => metal_node(sl, *base) + "."@ + member@,
        AstNode::SubscriptAccess { base, index } => metal_node(sl, *base) + "["@ + metal_node(
            sl,
            *index,
        ) + "]"@,
        AstNode::LiteralFloat(f) => float_str(f.whole as nat, f.frac@),
        AstNode::LiteralInt(i) => int_str(i as int),
        AstNode::Variable(name) => name@,
    }
}

/// Top-level declarations: each rendered, empty renderings dropped, the rest
/// joined with a blank line.
pub open spec fn metal_decls(sl: bool, s: Seq<AstNode>) -> Seq<char>
    decreases s,
{
    if s.len() == 0 {
        Seq::<char>::empty()
    } else {
        let h = metal_node(sl, s[0]);
        let t = metal_decls(sl, s.drop_first());
        if h.len() == 0 {
            t
        } else if t.len() == 0 {
            h
        } else {
            h + "\n\n"@ + t
        }
    }
}

/// Statements of a block: each behind one indentation prefix, joined with
/// newlines.
pub open spec fn metal_stmts(sl: bool, s: Seq<AstNode>) -> Seq<char>
    decreases s,
{
    if s.len() == 0 {
        Seq::<char>::empty()
    } else if s.len() == 1 {
        "    "@ + metal_node(sl, s[0])
    } else {
        "    "@ + metal_node(sl, s[0]) + "\n"@ + metal_stmts(sl, s.drop_first())
    }
}

/// Comma-separated expressions, as in call arguments and array initializers.
pub open spec fn metal_exprs(sl: bool, s: Seq<AstNode>) -> Seq<char>
    decreases s,
{
    if s.len() == 0 {
        Seq::<char>::empty()
    } else if s.len() == 1 {
        metal_node(sl, s[0])
    } else {
        metal_node(sl, s[0]) + ", "@ + metal_exprs(sl, s.drop_first())
    }
}

/// Comma-separated parameters, each as `Type name`.
pub open spec fn metal_args(s: Seq<(String, String)>) -> Seq<char>
    decreases s,
{
    if s.len() == 0 {
        Seq::<char>::empty()
    } else if s.len() == 1 {
        s[0].0@ + " "@ + s[0].1@
    } else {
        s[0].0@ + " "@ + s[0].1@ + ", "@ + metal_args(s.drop_first())
    }
}

/// Struct fields: each as an indented `Type name;` line, joined with
/// newlines.
pub open spec fn metal_fields(s: Seq<(String, String)>) -> Seq<char>
    decreases s,
{
    if s.len() == 0 {
        Seq::<char>::empty()
    } else if s.len() == 1 {
        "    "@ + s[0].0@ + " "@ + s[0].1@ + ";"@
    } else {
        "    "@ + s[0].0@ + " "@ + s[0].1@ + ";"@ + "\n"@ + metal_fields(s.drop_first())
    }
}

/// The Metal-like generator.
#[derive(Debug, Clone, Copy, PartialEq, Eq, Structural)]
pub struct MetalGenerator {
    pub is_std_lib: bool,
}

impl MetalGenerator {
    /// A generator; with `is_std_lib` set, function bodies are replaced by
    /// native-symbol markers.
    pub fn new(is_std_lib: bool) -> (r: Self)
        ensures
            r.is_std_lib == is_std_lib,
    {
        Self { is_std_lib }
    }

    /// Renders a binary operator for this target.
    fn generate_op(&self, op: &crate::ast::BinaryOperator) -> (s: &'static str)
        ensures
            s@ == op_str(*op),
    {
        op_text(op)
    }

    fn gen_decls(&self, nodes: &Vec<AstNode>, i: usize) -> (out: String)
        requires
            i <= nodes@.len(),
        ensures
            out@ == metal_decls(self.is_std_lib, nodes@.subrange(i as int, nodes@.len() as int)),
        decreases nodes@.subrange(i as int, nodes@.len() as int), 0int,
    {
        let ghost tail = nodes@.subrange(i as int, nodes@.len() as int);
        if i == nodes.len() {
            String::new()
        } else {
            proof {
                assert(tail[0] == nodes@[i as int]);
                assert(tail.drop_first() =~= nodes@.subrange(i as int + 1, nodes@.len() as int));
            }
            let h = self.generate(&nodes[i]);
            let t = self.gen_decls(nodes, i + 1);
            if h.as_str().unicode_len() == 0 {
                t
            } else if t.as_str().unicode_len() == 0 {
                h
            } else {
                let mut out = h;
                out.append("\n\n");
                out.append(t.as_str());
                out
            }
        }
    }

    fn gen_stmts(&self, nodes: &Vec<AstNode>, i: usize) -> (out: String)
        requires
            i <= nodes@.len(),
        ensures
            out@ == metal_stmts(self.is_std_lib, nodes@.subrange(i as int, nodes@.len() as int)),
        decreases nodes@.subrange(i as int, nodes@.len() as int), 0int,
    {
        let ghost tail = nodes@.subrange(i as int, nodes@.len() as int);
        if i == nodes.len() {
            String::new()
        } else {
            proof {
                assert(tail[0] == nodes@[i as int]);
                assert(tail.drop_first() =~= nodes@.subrange(i as int + 1, nodes@.len() as int));
            }
            let mut out = String::from_str("    ");
            let h = self.generate(&nodes[i]);
            out.append(h.as_str());
            if i + 1 < nodes.len() {
                out.append("\n");
                let t = self.gen_stmts(nodes, i + 1);
                out.append(t.as_str());
            }
            out
        }
    }

    fn gen_exprs(&self, nodes: &Vec<AstNode>, i: usize) -> (out: String)
        requires
            i <= nodes@.len(),
        ensures
            out@ == metal_exprs(self.is_std_lib, nodes@.subrange(i as int, nodes@.len() as int)),
        decreases nodes@.subrange(i as int, nodes@.len() as int), 0int,
    {
        let ghost tail = nodes@.subrange(i as int, nodes@.len() as int);
        if i == nodes.len() {
            String::new()
        } else {
            proof {
                assert(tail[0] == nodes@[i as int]);
                assert(tail.drop_first() =~= nodes@.subrange(i as int + 1, nodes@.len() as int));
            }
            let mut out = self.generate(&nodes[i]);
            if i + 1 < nodes.len() {
                out.append(", ");
                let t = self.gen_exprs(nodes, i + 1);
                out.append(t.as_str());
            }
            out
        }
    }

    fn gen_args(&self, args: &Vec<(String, String)>, i: usize) -> (out: String)
        requires
            i <= args@.len(),
        ensures
            out@ == metal_args(args@.subrange(i as int, args@.len() as int)),
        decreases args@.len() - i,
    {
        let ghost tail = args@.subrange(i as int, args@.len() as int);
        if i == args.len() {
            String::new()
        } else {
            proof {
                assert(tail[0] == args@[i as int]);
                assert(tail.drop_first() =~= args@.subrange(i as int + 1, args@.len() as int));
            }
            let mut out = String::from_str(args[i].0.as_str());
            out.append(" ");
            out.append(args[i].1.as_str());
            if i + 1 < args.len() {
                out.append(", ");
                let t = self.gen_args(args, i + 1);
                out.append(t.as_str());
            }
            out
        }
    }

    fn gen_fields(&self, fields: &Vec<(String, String)>, i: usize) -> (out: String)
        requires
            i <= fields@.len(),
        ensures
            out@ == metal_fields(fields@.subrange(i as int, fields@.len() as int)),
        decreases fields@.len() - i,
    {
        let ghost tail = fields@.subrange(i as int, fields@.len() as int);
        if i == fields.len() {
            String::new()
        } else {
            proof {
                assert(tail[0] == fields@[i as int]);
                assert(tail.drop_first() =~= fields@.subrange(i as int + 1, fields@.len() as int));
            }
            let mut out = String::from_str("    ");
            out.append(fields[i].0.as_str());
            out.append(" ");
            out.append(fields[i].1.as_str());
            out.append(";");
            if i + 1 < fields.len() {
                out.append("\n");
                let t = self.gen_fields(fields, i + 1);
                out.append(t.as_str());
            }
            out
        }
    }
}

impl CodeGenerator for MetalGenerator {
    open spec fn gen_spec(&self, ast: &AstNode) -> Seq<char> {
        metal_node(self.is_std_lib, *ast)
    }

    fn generate(&self, ast: &AstNode) -> (out: String)
        decreases *ast, 1int,
    {
        match ast {
            AstNode::Program(nodes) => {
                proof {
                    assert(nodes@.subrange(0, nodes@.len() as int) =~= nodes@);
                }
                self.gen_decls(nodes, 0)
            },
            AstNode::StructDecl { name, fields, doc_string } => {
                let mut out = String::from_str("struct ");
                out.append(name.as_str());
                out.append(" {\n");
                proof {
                    assert(fields@.subrange(0, fields@.len() as int) =~= fields@);
                }
                let f = self.gen_fields(fields, 0);
                out.append(f.as_str());
                out.append("\n};");
                out
            },
            AstNode::FunctionDecl { return_type, name, args, body, doc_string } => {
                if self.is_std_lib {
                    let mut out = String::from_str("// [Native Symbol] ");
                    out.append(name.as_str());
                    out
                } else {
                    let mut out = String::from_str(return_type.as_str());
                    out.append(" ");
                    out.append(name.as_str());
                    out.append("(");
                    proof {
                        assert(args@.subrange(0, args@.len() as int) =~= args@);
                    }
                    let a = self.gen_args(args, 0);
                    out.append(a.as_str());
                    out.append(") ");
                    let b = self.generate(body);
                    out.append(b.as_str());
                    out
                }
            },
            AstNode::Block(stmts) => {
                let mut out = String::from_str("{\n");
                proof {
                    assert(stmts@.subrange(0, stmts@.len() as int) =~= stmts@);
                }
                let s = self.gen_stmts(stmts, 0);
                out.append(s.as_str());
                out.append("\n}");
                out
            },
            AstNode::ReturnStmt(e) => {
                let mut out = String::from_str("return ");
                let v = self.generate(e);
                out.append(v.as_str());
                out.append(";");
                out
            },
            AstNode::IfStmt { condition, then_branch, else_branch } => {
                let mut out = String::from_str("if (");
                let c = self.generate(condition);
                out.append(c.as_str());
                out.append(") ");
                let t = self.generate(then_branch);
                out.append(t.as_str());
                match else_branch {
                    Some(e) => {
                        out.append(" else ");
                        let eb = self.generate(e);
                        out.append(eb.as_str());
                    },
                    None => {},
                }
                out
            },
            AstNode::ForStmt { init, condition, increment, body } => {
                let mut out = String::from_str("for (");
                let ini = self.generate(init);
                out.append(ini.as_str());
                out.append(" ");
                let c = self.generate(condition);
                out.append(c.as_str());
                out.append("; ");
                let inc = self.generate(increment);
                let inc_clean = trim_semis(&inc);
                out.append(inc_clean.as_str());
                out.append(") ");
                let b = self.generate(body);
                out.append(b.as_str());
                out
            },
            AstNode::BreakStmt => String::from_str("break;"),
            AstNode::VarDecl { ty_name, name, value } => {
                let mut out = String::from_str(ty_name.as_str());
                out.append(" ");
                out.append(name.as_str());
                match value {
                    Some(v) => {
                        out.append(" = ");
                        let val = self.generate(v);
                        out.append(val.as_str());
                    },
                    None => {},
                }
                out.append(";");
                out
            },
            AstNode::ArrayDecl { ty_name, name, size, values } => {
                let mut out = String::from_str(ty_name.as_str());
                out.append(" ");
                out.append(name.as_str());
                out.append("[");
                let sz = u64_string(*size as u64);
                out.append(sz.as_str());
                out.append("]");
                match values {
                    Some(vs) => {
                        out.append(" = { ");
                        proof {
                            assert(vs@.subrange(0, vs@.len() as int) =~= vs@);
                        }
                        let v = self.gen_exprs(vs, 0);
                        out.append(v.as_str());
                        out.append(" }");
                    },
                    None => {},
                }
                out.append(";");
                out
            },
            AstNode::Assignment { target, value } => {
                let mut out = self.generate(target);
                out.append(" = ");
                let v = self.generate(value);
                out.append(v.as_str());
                out.append(";");
                out
            },
            AstNode::BinaryOp { left, op, right } => {
                let mut out = String::from_str("(");
                let l = self.generate(left);
                out.append(l.as_str());
                out.append(" ");
                out.append(self.generate_op(op));
                out.append(" ");
                let r = self.generate(right);
                out.append(r.as_str());
                out.append(")");
                out
            },
            AstNode::UnaryOp { op, right } => {
                let mut out = String::from_str("(");
                out.append(unop_text(op));
                let r = self.generate(right);
                out.append(r.as_str());
                out.append(")");
                out
            },
            AstNode::Call { func_name, args } => {
                let mut out = String::from_str(func_name.as_str());
                out.append("(");
                proof {
                    assert(args@.subrange(0, args@.len() as int) =~= args@);
                }
                let a = self.gen_exprs(args, 0);
                out.append(a.as_str());
                out.append(")");
                out
            },
            AstNode::MemberAccess { base, member } => {
                let mut out = self.generate(base);
                out.append(".");
                out.append(member.as_str());
                out
            },
            AstNode::SubscriptAccess { base, index } => {
                let mut out = self.generate(base);
                out.append("[");
                let ix = self.generate(index);
                out.append(ix.as_str());
                out.append("]");
                out
            },
            AstNode::LiteralFloat(f) => float_text(f),
            AstNode::LiteralInt(i) => int_text(*i),
            AstNode::Variable(name) => String::from_str(name.as_str()),
        }
    }
}

} // verus!
