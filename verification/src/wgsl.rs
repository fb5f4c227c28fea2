//! The WGSL-like target: maps primitive type names, writes parameters and
//! locals in `name: Type` form, rewrites constructor-style calls into
//! explicitly parametrized constructors, and substitutes the free builtin
//! identifiers `iTime`, `iResolution` and `iMouse` with field accesses on the
//! external uniform binding `u`.

use vstd::prelude::*;

use crate::ast::AstNode;
use crate::codegen::op_str;
use crate::codegen::unop_str;
use crate::codegen::float_str;
use crate::codegen::strip_semis;
use crate::codegen::CodeGenerator;
use crate::codegen::float_text;
use crate::codegen::int_text;
use crate::codegen::op_text;
use crate::codegen::trim_semis;
use crate::codegen::unop_text;
use crate::strutil::int_str;
use crate::strutil::nat_str;
use crate::strutil::str_equal;
use crate::strutil::u64_string;
use vstd::string::StringExecFns;

verus! {

/// The WGSL-like spelling of a primitive type name; unknown names pass
/// through unchanged, `void` maps to the empty text.
pub open spec fn wgsl_type(t: Seq<char>) -> Seq<char> {
    if t == "float"@ {
        "f32"@
    } else if t == "int"@ {
        "i32"@
    } else if t == "uint"@ {
        "u32"@
    } else if t == "bool"@ {
        "bool"@
    } else if t == "vec2"@ {
        "vec2<f32>"@
    } else if t == "vec3"@ {
        "vec3<f32>"@
    } else if t == "vec4"@ {
        "vec4<f32>"@
    } else if t == "mat2"@ {
        "mat2x2<f32>"@
    } else if t == "mat3"@ {
        "mat3x3<f32>"@
    } else if t == "mat4"@ {
        "mat4x4<f32>"@
    } else if t == "void"@ {
        Seq::<char>::empty()
    } else {
        t
    }
}

/// Whether a call target is one of the vector, matrix or scalar constructor
/// names that get rewritten to their parametrized WGSL-like spelling.
pub open spec fn is_ctor_name(t: Seq<char>) -> bool {
    ||| t == "vec2"@
    ||| t == "vec3"@
    ||| t == "vec4"@
    ||| t == "mat2"@
    ||| t == "mat3"@
    ||| t == "mat4"@
    ||| t == "float"@
    ||| t == "int"@
    ||| t == "uint"@
}

/// The rendered call target: constructor names are rewritten, every other
/// name passes through.
pub open spec fn wgsl_callee(t: Seq<char>) -> Seq<char> {
    if is_ctor_name(t) {
        wgsl_type(t)
    } else {
        t
    }
}

/// The rendered bare identifier: the three free builtins become field
/// accesses on the external uniform binding, every other name passes
/// through.
pub open spec fn wgsl_ident(n: Seq<char>) -> Seq<char> {
    if n == "iTime"@ {
        "u.time"@
    } else if n == "iResolution"@ {
        "vec3<f32>(u.resolution, 1.0)"@
    } else if n == "iMouse"@ {
        "u.mouse"@
    } else {
        n
    }
}

/// The exact WGSL-like text of one tree node.
pub open spec fn wgsl_node(v: AstNode) -> Seq<char>
    decreases v,
{
    match v {
        AstNode::Program(nodes) => wgsl_decls(nodes@),
        AstNode::StructDecl { name, fields, doc_string } => "struct "@ + name@ + " {\n"@
            + wgsl_fields(fields@) + "\n};"@,
        AstNode::FunctionDecl { return_type, name, args, body, doc_string } => "fn "@ + name@
            + "("@ + wgsl_args(args@) + ") "@ + (if wgsl_type(return_type@).len() == 0 {
            Seq::<char>::empty()
        } else {
            "-> "@ + wgsl_type(return_type@)
        }) + " "@ + wgsl_node(*body),
        AstNode::Block(stmts) => "{\n"@ + wgsl_stmts(stmts@) + "\n}"@,
        AstNode::ReturnStmt(e) => "return "@ + wgsl_node(*e) + ";"@,
        AstNode::IfStmt { condition, then_branch, else_branch } => "if ("@ + wgsl_node(*condition)
            + ") "@ + wgsl_node(*then_branch) + match else_branch {
            Some(e) => " else "@ + wgsl_node(*e),
            None => Seq::<char>::empty(),
        },
        AstNode::ForStmt { init, condition, increment, body } => "for ("@ + wgsl_node(*init)
            + " "@ + wgsl_node(*condition) + "; "@ + strip_semis(wgsl_node(*increment)) + ") "@
            + wgsl_node(*body),
        AstNode::BreakStmt => "break;"@,
        AstNode::VarDecl { ty_name, name, value } => match value {
            Some(v) => "var "@ + name@ + ": "@ + wgsl_type(ty_name@) + " = "@ + wgsl_node(*v)
                + ";"@,
            None => "var "@ + name@ + ": "@ + wgsl_type(ty_name@) + ";"@,
        },
        AstNode::ArrayDecl { ty_name, name, size, values } => {
            let ts = "array<"@ + wgsl_type(ty_name@) + ", "@ + nat_str(size as nat) + ">"@;
            match values {
                Some(vs) => "var "@ + name@ + ": "@ + ts + " = "@ + ts + "("@ + wgsl_exprs(vs@)
                    + ");"@,
                None => "var "@ + name@ + ": "@ + ts + ";"@,
            }
        },
        AstNode::Assignment { target, value } => wgsl_node(*target) + " = "@ + wgsl_node(*value)
            + ";"@,
        AstNode::BinaryOp { left, op, right } => "("@ + wgsl_node(*left) + " "@ + op_str(op) + " "@
            + wgsl_node(*right) + ")"@,
        AstNode::UnaryOp { op, right } => "("@ + unop_str(op) + wgsl_node(*right) + ")"@,
        AstNode::Call { func_name, args } => wgsl_callee(func_name@) + "("@ + wgsl_exprs(args@)
            + ")"@,
        AstNode::MemberAccess { base, member } => wgsl_node(*base) + "."@ + member@,
        AstNode::SubscriptAccess { base, index } => wgsl_node(*base) + "["@ + wgsl_node(*index)
            + "]"@,
        AstNode::LiteralFloat(f) => float_str(f.whole as nat, f.frac@),
        AstNode::LiteralInt(i) => int_str(i as int),
        AstNode::Variable(name) => wgsl_ident(name@),
    }
}

/// Top-level declarations: each rendered, empty renderings dropped, the rest
/// joined with a blank line.
pub open spec fn wgsl_decls(s: Seq<AstNode>) -> Seq<char>
    decreases s,
{
    if s.len() == 0 {
        Seq::<char>::empty()
    } else {
        let h = wgsl_node(s[0]);
        let t = wgsl_decls(s.drop_first());
        if h.len() == 0 {
            t
        } else if t.len() == 0 {
            h
        } else {
            h + "\n\n"@ + t
        }
    }
}

/// Statements of a block: each behind one indentation prefix, joined with
/// newlines.
pub open spec fn wgsl_stmts(s: Seq<AstNode>) -> Seq<char>
    decreases s,
{
    if s.len() == 0 {
        Seq::<char>::empty()
    } else if s.len() == 1 {
        "    "@ + wgsl_node(s[0])
    } else {
        "    "@ + wgsl_node(s[0]) + "\n"@ + wgsl_stmts(s.drop_first())
    }
}

/// Comma-separated expressions, as in call arguments and array initializers.
pub open spec fn wgsl_exprs(s: Seq<AstNode>) -> Seq<char>
    decreases s,
{
    if s.len() == 0 {
        Seq::<char>::empty()
    } else if s.len() == 1 {
        wgsl_node(s[0])
    } else {
        wgsl_node(s[0]) + ", "@ + wgsl_exprs(s.drop_first())
    }
}

/// Comma-separated parameters, each as `name: Type` with the type mapped.
pub open spec fn wgsl_args(s: Seq<(String, String)>) -> Seq<char>
    decreases s,
{
    if s.len() == 0 {
        Seq::<char>::empty()
    } else if s.len() == 1 {
        s[0].1@ + ": "@ + wgsl_type(s[0].0@)
    } else {
        s[0].1@ + ": "@ + wgsl_type(s[0].0@) + ", "@ + wgsl_args(s.drop_first())
    }
}

/// Struct fields: each as an indented `name: Type,` line, joined with
/// newlines.
pub open spec fn wgsl_fields(s: Seq<(String, String)>) -> Seq<char>
    decreases s,
{
    if s.len() == 0 {
        Seq::<char>::empty()
    } else if s.len() == 1 {
        "    "@ + s[0].1@ + ": "@ + wgsl_type(s[0].0@) + ","@
    } else {
        "    "@ + s[0].1@ + ": "@ + wgsl_type(s[0].0@) + ","@ + "\n"@ + wgsl_fields(
            s.drop_first(),
        )
    }
}

/// The WGSL-like generator.
#[derive(Debug, Clone, Copy, PartialEq, Eq, Structural)]
pub struct WgslGenerator;

impl WgslGenerator {
    /// A WGSL-like generator.
    pub fn new() -> (r: Self) {
        Self
    }

    /// Maps a primitive type name to its WGSL-like spelling.
    pub fn map_type(&self, t: &str) -> (out: String)
        ensures
            out@ == wgsl_type(t@),
    {
        if str_equal(t, "float") {
            String::from_str("f32")
        } else if str_equal(t, "int") {
            String::from_str("i32")
        } else if str_equal(t, "uint") {
            String::from_str("u32")
        } else if str_equal(t, "bool") {
            String::from_str("bool")
        } else if str_equal(t, "vec2") {
            String::from_str("vec2<f32>")
        } else if str_equal(t, "vec3") {
            String::from_str("vec3<f32>")
        } else if str_equal(t, "vec4") {
            String::from_str("vec4<f32>")
        } else if str_equal(t, "mat2") {
            String::from_str("mat2x2<f32>")
        } else if str_equal(t, "mat3") {
            String::from_str("mat3x3<f32>")
        } else if str_equal(t, "mat4") {
            String::from_str("mat4x4<f32>")
        } else if str_equal(t, "void") {
            String::new()
        } else {
            String::from_str(t)
        }
    }

    /// Renders a binary operator for this target.
    fn generate_op(&self, op: &crate::ast::BinaryOperator) -> (s: &'static str)
        ensures
            s@ == op_str(*op),
    {
        op_text(op)
    }

    fn callee_text(&self, name: &str) -> (out: String)
        ensures
            out@ == wgsl_callee(name@),
    {
        let ctor = str_equal(name, "vec2") || str_equal(name, "vec3") || str_equal(name, "vec4")
            || str_equal(name, "mat2") || str_equal(name, "mat3") || str_equal(name, "mat4")
            || str_equal(name, "float") || str_equal(name, "int") || str_equal(name, "uint");
        if ctor {
            self.map_type(name)
        } else {
            String::from_str(name)
        }
    }

    fn ident_text(&self, name: &str) -> (out: String)
        ensures
            out@ == wgsl_ident(name@),
    {
        if str_equal(name, "iTime") {
            String::from_str("u.time")
        } else if str_equal(name, "iResolution") {
            String::from_str("vec3<f32>(u.resolution, 1.0)")
        } else if str_equal(name, "iMouse") {
            String::from_str("u.mouse")
        } else {
            String::from_str(name)
        }
    }

    fn array_type_text(&self, ty_name: &str, size: usize) -> (out: String)
        ensures
            out@ == "array<"@ + wgsl_type(ty_name@) + ", "@ + nat_str(size as nat) + ">"@,
    {
        let mut out = String::from_str("array<");
        let m = self.map_type(ty_name);
        out.append(m.as_str());
        out.append(", ");
        let sz = u64_string(size as u64);
        out.append(sz.as_str());
        out.append(">");
        out
    }

    fn gen_decls(&self, nodes: &Vec<AstNode>, i: usize) -> (out: String)
        requires
            i <= nodes@.len(),
        ensures
            out@ == wgsl_decls(nodes@.subrange(i as int, nodes@.len() as int)),
        decreases nodes@.subrange(i as int, nodes@.len() as int), 0int,
    {
        let ghost tail = nodes@.subrange(i as int, nodes@.len() as int);
        if i == nodes.len() {
            String::new()
        } else {
            proof {
                assert(tail[0] == nodes@[i as int]);
                assert(tail.drop_first() =~= nodes@.subrange(i as int + 1, nodes@.len() as int));
            }
            let h = self.generate(&nodes[i]);
            let t = self.gen_decls(nodes, i + 1);
            if h.as_str().unicode_len() == 0 {
                t
            } else if t.as_str().unicode_len() == 0 {
                h
            } else {
                let mut out = h;
                out.append("\n\n");
                out.append(t.as_str());
                out
            }
        }
    }

    fn gen_stmts(&self, nodes: &Vec<AstNode>, i: usize) -> (out: String)
        requires
            i <= nodes@.len(),
        ensures
            out@ == wgsl_stmts(nodes@.subrange(i as int, nodes@.len() as int)),
        decreases nodes@.subrange(i as int, nodes@.len() as int), 0int,
    {
        let ghost tail = nodes@.subrange(i as int, nodes@.len() as int);
        if i == nodes.len() {
            String::new()
        } else {
            proof {
                assert(tail[0] == nodes@[i as int]);
                assert(tail.drop_first() =~= nodes@.subrange(i as int + 1, nodes@.len() as int));
            }
            let mut out = String::from_str("    ");
            let h = self.generate(&nodes[i]);
            out.append(h.as_str());
            if i + 1 < nodes.len() {
                out.append("\n");
                let t = self.gen_stmts(nodes, i + 1);
                out.append(t.as_str());
            }
            out
        }
    }

    fn gen_exprs(&self, nodes: &Vec<AstNode>, i: usize) -> (out: String)
        requires
            i <= nodes@.len(),
        ensures
            out@ == wgsl_exprs(nodes@.subrange(i as int, nodes@.len() as int)),
        decreases nodes@.subrange(i as int, nodes@.len() as int), 0int,
    {
        let ghost tail = nodes@.subrange(i as int, nodes@.len() as int);
        if i == nodes.len() {
            String::new()
        } else {
            proof {
                assert(tail[0] == nodes@[i as int]);
                assert(tail.drop_first() =~= nodes@.subrange(i as int + 1, nodes@.len() as int));
            }
            let mut out = self.generate(&nodes[i]);
            if i + 1 < nodes.len() {
                out.append(", ");
                let t = self.gen_exprs(nodes, i + 1);
                out.append(t.as_str());
            }
            out
        }
    }

    fn gen_args(&self, args: &Vec<(String, String)>, i: usize) -> (out: String)
        requires
            i <= args@.len(),
        ensures
            out@ == wgsl_args(args@.subrange(i as int, args@.len() as int)),
        decreases args@.len() - i,
    {
        let ghost tail = args@.subrange(i as int, args@.len() as int);
        if i == args.len() {
            String::new()
        } else {
            proof {
                assert(tail[0] == args@[i as int]);
                assert(tail.drop_first() =~= args@.subrange(i as int + 1, args@.len() as int));
            }
            let mut out = String::from_str(args[i].1.as_str());
            out.append(": ");
            let m = self.map_type(args[i].0.as_str());
            out.append(m.as_str());
            if i + 1 < args.len() {
                out.append(", ");
                let t = self.gen_args(args, i + 1);
                out.append(t.as_str());
            }
            out
        }
    }

    fn gen_fields(&self, fields: &Vec<(String, String)>, i: usize) -> (out: String)
        requires
            i <= fields@.len(),
        ensures
            out@ == wgsl_fields(fields@.subrange(i as int, fields@.len() as int)),
        decreases fields@.len() - i,
    {
        let ghost tail = fields@.subrange(i as int, fields@.len() as int);
        if i == fields.len() {
            String::new()
        } else {
            proof {
                assert(tail[0] == fields@[i as int]);
                assert(tail.drop_first() =~= fields@.subrange(i as int + 1, fields@.len() as int));
            }
            let mut out = String::from_str("    ");
            out.append(fields[i].1.as_str());
            out.append(": ");
            let m = self.map_type(fields[i].0.as_str());
            out.append(m.as_str());
            out.append(",");
            if i + 1 < fields.len() {
                out.append("\n");
                let t = self.gen_fields(fields, i + 1);
                out.append(t.as_str());
            }
            out
        }
    }
}

impl CodeGenerator for WgslGenerator {
    open spec fn gen_spec(&self, ast: &AstNode) -> Seq<char> {
        wgsl_node(*ast)
    }

    fn generate(&self, ast: &AstNode) -> (out: String)
        decreases *ast, 1int,
    {
        match ast {
            AstNode::Program(nodes) => {
                proof {
                    assert(nodes@.subrange(0, nodes@.len() as int) =~= nodes@);
                }
                self.gen_decls(nodes, 0)
            },
            AstNode::StructDecl { name, fields, doc_string } => {
                let mut out = String::from_str("struct ");
                out.append(name.as_str());
                out.append(" {\n");
                proof {
                    assert(fields@.subrange(0, fields@.len() as int) =~= fields@);
                }
                let f = self.gen_fields(fields, 0);
                out.append(f.as_str());
                out.append("\n};");
                out
            },
            AstNode::FunctionDecl { return_type, name, args, body, doc_string } => {
                let mut out = String::from_str("fn ");
                out.append(name.as_str());
                out.append("(");
                proof {
                    assert(args@.subrange(0, args@.len() as int) =~= args@);
                }
                let a = self.gen_args(args, 0);
                out.append(a.as_str());
                out.append(") ");
                let mapped = self.map_type(return_type.as_str());
                if mapped.as_str().unicode_len() != 0 {
                    out.append("-> ");
                    out.append(mapped.as_str());
                }
                out.append(" ");
                let b = self.generate(body);
                out.append(b.as_str());
                out
            },
            AstNode::Block(stmts) => {
                let mut out = String::from_str("{\n");
                proof {
                    assert(stmts@.subrange(0, stmts@.len() as int) =~= stmts@);
                }
                let s = self.gen_stmts(stmts, 0);
                out.append(s.as_str());
                out.append("\n}");
                out
            },
            AstNode::ReturnStmt(e) => {
                let mut out = String::from_str("return ");
                let v = self.generate(e);
                out.append(v.as_str());
                out.append(";");
                out
            },
            AstNode::IfStmt { condition, then_branch, else_branch } => {
                let mut out = String::from_str("if (");
                let c = self.generate(condition);
                out.append(c.as_str());
                out.append(") ");
                let t = self.generate(then_branch);
                out.append(t.as_str());
                match else_branch {
                    Some(e) => {
                        out.append(" else ");
                        let eb = self.generate(e);
                        out.append(eb.as_str());
                    },
                    None => {},
                }
                out
            },
            AstNode::ForStmt { init, condition, increment, body } => {
                let mut out = String::from_str("for (");
                let ini = self.generate(init);
                out.append(ini.as_str());
                out.append(" ");
                let c = self.generate(condition);
                out.append(c.as_str());
                out.append("; ");
                let inc = self.generate(increment);
                let inc_clean = trim_semis(&inc);
                out.append(inc_clean.as_str());
                out.append(") ");
                let b = self.generate(body);
                out.append(b.as_str());
                out
            },
            AstNode::BreakStmt => String::from_str("break;"),
            AstNode::VarDecl { ty_name, name, value } => {
                let mut out = String::from_str("var ");
                out.append(name.as_str());
                out.append(": ");
                let m = self.map_type(ty_name.as_str());
                out.append(m.as_str());
                match value {
                    Some(v) => {
                        out.append(" = ");
                        let val = self.generate(v);
                        out.append(val.as_str());
                    },
                    None => {},
                }
                out.append(";");
                out
            },
            AstNode::ArrayDecl { ty_name, name, size, values } => {
                let ts = self.array_type_text(ty_name.as_str(), *size);
                let mut out = String::from_str("var ");
                out.append(name.as_str());
                out.append(": ");
                out.append(ts.as_str());
                match values {
                    Some(vs) => {
                        out.append(" = ");
                        out.append(ts.as_str());
                        out.append("(");
                        proof {
                            assert(vs@.subrange(0, vs@.len() as int) =~= vs@);
                        }
                        let v = self.gen_exprs(vs, 0);
                        out.append(v.as_str());
                        out.append(");");
                    },
                    None => {
                        out.append(";");
                    },
                }
                out
            },
            AstNode::Assignment { target, value } => {
                let mut out = self.generate(target);
                out.append(" = ");
                let v = self.generate(value);
                out.append(v.as_str());
                out.append(";");
                out
            },
            AstNode::BinaryOp { left, op, right } => {
                let mut out = String::from_str("(");
                let l = self.generate(left);
                out.append(l.as_str());
                out.append(" ");
                out.append(self.generate_op(op));
                out.append(" ");
                let r = self.generate(right);
                out.append(r.as_str());
                out.append(")");
                out
            },
            AstNode::UnaryOp { op, right } => {
                let mut out = String::from_str("(");
                out.append(unop_text(op));
                let r = self.generate(right);
                out.append(r.as_str());
                out.append(")");
                out
            },
            AstNode::Call { func_name, args } => {
                let mut out = self.callee_text(func_name.as_str());
                out.append("(");
                proof {
                    assert(args@.subrange(0, args@.len() as int) =~= args@);
                }
                let a = self.gen_exprs(args, 0);
                out.append(a.as_str());
                out.append(")");
                out
            },
            AstNode::MemberAccess { base, member } => {
                let mut out = self.generate(base);
                out.append(".");
                out.append(member.as_str());
                out
            },
            AstNode::SubscriptAccess { base, index } => {
                let mut out = self.generate(base);
                out.append("[");
                let ix = self.generate(index);
                out.append(ix.as_str());
                out.append("]");
                out
            },
            AstNode::LiteralFloat(f) => float_text(f),
            AstNode::LiteralInt(i) => int_text(*i),
            AstNode::Variable(name) => self.ident_text(name.as_str()),
        }
    }
}

} // verus!
