//! The Markdown documentation target: ignores executable structure and emits,
//! for each top-level function or struct declaration, a heading with its
//! name, its attached documentation if present, and a signature line or field
//! list.  A program with nothing documentable yields the empty string.

use vstd::prelude::*;

use crate::ast::AstNode;
use crate::codegen::CodeGenerator;
use vstd::string::StringExecFns;

verus! {

/// The documented-argument list of a function heading: each parameter as
/// `` `Type` name ``, comma-separated.
pub open spec fn md_arg_list(s: Seq<(String, String)>) -> Seq<char>
    decreases s,
{
    if s.len() == 0 {
        Seq::<char>::empty()
    } else if s.len() == 1 {
        "`"@ + s[0].0@ + "` "@ + s[0].1@
    } else {
        "`"@ + s[0].0@ + "` "@ + s[0].1@ + ", "@ + md_arg_list(s.drop_first())
    }
}

/// The field list of a struct entry: one indented bullet line per field.
pub open spec fn md_field_lines(s: Seq<(String, String)>) -> Seq<char>
    decreases s,
{
    if s.len() == 0 {
        Seq::<char>::empty()
    } else {
        "  - `"@ + s[0].0@ + "` "@ + s[0].1@ + "\n"@ + md_field_lines(s.drop_first())
    }
}

/// The quoted documentation paragraph, or nothing when the declaration
/// carries no documentation.
pub open spec fn md_doc_part(d: Option<String>) -> Seq<char> {
    match d {
        Some(doc) => "> "@ + doc@ + "\n\n"@,
        None => Seq::<char>::empty(),
    }
}

/// The Markdown entry of one top-level node: function and struct
/// declarations get one, every other node kind is skipped.
pub open spec fn md_node_doc(v: AstNode) -> Option<Seq<char>> {
    match v {
        AstNode::FunctionDecl { return_type, name, args, body, doc_string } => Some(
            "### `"@ + name@ + "`\n"@ + md_doc_part(doc_string) + "- **Signature**: `"@
                + return_type@ + " "@ + name@ + "("@ + md_arg_list(args@) + ")`\n"@,
        ),
        AstNode::StructDecl { name, fields, doc_string } => Some(
            "### `struct "@ + name@ + "`\n"@ + md_doc_part(doc_string) + "- **Fields**:\n"@
                + md_field_lines(fields@),
        ),
        _ => None,
    }
}

/// The entries of all documentable top-level nodes, joined with a rule line.
pub open spec fn md_entries(s: Seq<AstNode>) -> Seq<char>
    decreases s,
{
    if s.len() == 0 {
        Seq::<char>::empty()
    } else {
        let rest = md_entries(s.drop_first());
        match md_node_doc(s[0]) {
            None => rest,
            Some(d) => if rest.len() == 0 {
                d
            } else {
                d + "\n---\n"@ + rest
            },
        }
    }
}

/// The whole document for a program's top-level nodes: a heading and the
/// entries, or the empty text when there is no entry.
pub open spec fn md_program(s: Seq<AstNode>) -> Seq<char> {
    if md_entries(s).len() == 0 {
        Seq::<char>::empty()
    } else {
        "# API Documentation\n\n"@ + md_entries(s)
    }
}

/// The exact Markdown text for a tree: only a program root produces output.
pub open spec fn md_node(v: AstNode) -> Seq<char> {
    match v {
        AstNode::Program(nodes) => md_program(nodes@),
        _ => Seq::<char>::empty(),
    }
}

/// A program whose top level holds no function and no struct declaration
/// (for instance only expression statements) renders as the empty string.
pub proof fn lemma_markdown_empty_without_decls(s: Seq<AstNode>)
    requires
        forall|i: int|
            0 <= i < s.len() ==> !(#[trigger] s[i] is FunctionDecl) && !(s[i] is StructDecl),
    ensures
        md_entries(s).len() == 0,
        md_program(s) == Seq::<char>::empty(),
    decreases s,
{
    if s.len() > 0 {
        assert(forall|i: int|
            0 <= i < s.drop_first().len() ==> #[trigger] s.drop_first()[i] == s[i + 1]);
        lemma_markdown_empty_without_decls(s.drop_first());
    }
}

/// The Markdown documentation generator.
#[derive(Debug, Clone, Copy, PartialEq, Eq, Structural)]
pub struct MarkdownGenerator;

impl MarkdownGenerator {
    fn gen_arg_list(&self, args: &Vec<(String, String)>, i: usize) -> (out: String)
        requires
            i <= args@.len(),
        ensures
            out@ == md_arg_list(args@.subrange(i as int, args@.len() as int)),
        decreases args@.len() - i,
    {
        let ghost tail = args@.subrange(i as int, args@.len() as int);
        if i == args.len() {
            String::new()
        } else {
            proof {
                assert(tail[0] == args@[i as int]);
                assert(tail.drop_first() =~= args@.subrange(i as int + 1, args@.len() as int));
            }
            let mut out = String::from_str("`");
            out.append(args[i].0.as_str());
            out.append("` ");
            out.append(args[i].1.as_str());
            if i + 1 < args.len() {
                out.append(", ");
                let t = self.gen_arg_list(args, i + 1);
                out.append(t.as_str());
            }
            out
        }
    }

    fn gen_field_lines(&self, fields: &Vec<(String, String)>, i: usize) -> (out: String)
        requires
            i <= fields@.len(),
        ensures
            out@ == md_field_lines(fields@.subrange(i as int, fields@.len() as int)),
        decreases fields@.len() - i,
    {
        let ghost tail = fields@.subrange(i as int, fields@.len() as int);
        if i == fields.len() {
            String::new()
        } else {
            proof {
                assert(tail[0] == fields@[i as int]);
                assert(tail.drop_first() =~= fields@.subrange(i as int + 1, fields@.len() as int));
            }
            let mut out = String::from_str("  - `");
            out.append(fields[i].0.as_str());
            out.append("` ");
            out.append(fields[i].1.as_str());
            out.append("\n");
            let t = self.gen_field_lines(fields, i + 1);
            out.append(t.as_str());
            out
        }
    }

    /// The Markdown entry of one top-level node, or nothing for a node kind
    /// the documentation ignores.
    fn generate_node_doc(&self, v: &AstNode) -> (out: Option<String>)
        ensures
            match out {
                Some(s) => md_node_doc(*v) == Some(s@),
                None => md_node_doc(*v) is None,
            },
    {
        match v {
            AstNode::FunctionDecl { return_type, name, args, body, doc_string } => {
                let mut md = String::from_str("### `");
                md.append(name.as_str());
                md.append("`\n");
                match doc_string {
                    Some(doc) => {
                        md.append("> ");
                        md.append(doc.as_str());
                        md.append("\n\n");
                    },
                    None => {},
                }
                md.append("- **Signature**: `");
                md.append(return_type.as_str());
                md.append(" ");
                md.append(name.as_str());
                md.append("(");
                proof {
                    assert(args@.subrange(0, args@.len() as int) =~= args@);
                }
                let a = self.gen_arg_list(args, 0);
                md.append(a.as_str());
                md.append(")`\n");
                Some(md)
            },
            AstNode::StructDecl { name, fields, doc_string } => {
                let mut md = String::from_str("### `struct ");
                md.append(name.as_str());
                md.append("`\n");
                match doc_string {
                    Some(doc) => {
                        md.append("> ");
                        md.append(doc.as_str());
                        md.append("\n\n");
                    },
                    None => {},
                }
                md.append("- **Fields**:\n");
                proof {
                    assert(fields@.subrange(0, fields@.len() as int) =~= fields@);
                }
                let f = self.gen_field_lines(fields, 0);
                md.append(f.as_str());
                Some(md)
            },
            _ => None,
        }
    }

    fn gen_entries(&self, nodes: &Vec<AstNode>, i: usize) -> (out: String)
        requires
            i <= nodes@.len(),
        ensures
            out@ == md_entries(nodes@.subrange(i as int, nodes@.len() as int)),
        decreases nodes@.len() - i,
    {
        let ghost tail = nodes@.subrange(i as int, nodes@.len() as int);
        if i == nodes.len() {
            String::new()
        } else {
            proof {
                assert(tail[0] == nodes@[i as int]);
                assert(tail.drop_first() =~= nodes@.subrange(i as int + 1, nodes@.len() as int));
            }
            let rest = self.gen_entries(nodes, i + 1);
            match self.generate_node_doc(&nodes[i]) {
                None => rest,
                Some(d) => {
                    if rest.as_str().unicode_len() == 0 {
                        d
                    } else {
                        let mut out = d;
                        out.append("\n---\n");
                        out.append(rest.as_str());
                        out
                    }
                },
            }
        }
    }
}

impl CodeGenerator for MarkdownGenerator {
    open spec fn gen_spec(&self, ast: &AstNode) -> Seq<char> {
        md_node(*ast)
    }

    fn generate(&self, ast: &AstNode) -> (out: String) {
        match ast {
            AstNode::Program(nodes) => {
                proof {
                    assert(nodes@.subrange(0, nodes@.len() as int) =~= nodes@);
                }
                let entries = self.gen_entries(nodes, 0);
                if entries.as_str().unicode_len() == 0 {
                    String::new()
                } else {
                    let mut out = String::from_str("# API Documentation\n\n");
                    out.append(entries.as_str());
                    out
                }
            },
            _ => String::new(),
        }
    }
}

} // verus!
