//! A compiler front end and back end for S2L, a small shader description
//! language with two surface syntaxes (a Rust/WGSL-like one and a legacy
//! C/GLSL-like one).  Source text is expanded by a textual preprocessor,
//! turned into tokens, parsed into one untyped syntax tree, and rendered by
//! three generators: a Metal-like target, a WGSL-like target and a Markdown
//! documentation extract.

pub mod ast;
pub mod codegen;
pub mod lexer;
pub mod markdown;
pub mod metal;
pub mod parser;
pub mod preprocessor;
pub mod strutil;
pub mod wgsl;

pub use ast::AstNode;
pub use ast::BinaryOperator;
pub use ast::FloatLit;
pub use ast::UnaryOperator;
pub use codegen::CodeGenerator;
pub use lexer::tokenize;
pub use lexer::LexError;
pub use lexer::Token;
pub use markdown::MarkdownGenerator;
pub use metal::MetalGenerator;
pub use parser::Parser;
pub use preprocessor::PreprocessError;
pub use preprocessor::Preprocessor;
pub use preprocessor::SourceFile;
pub use preprocessor::SourceFiles;
pub use wgsl::WgslGenerator;
