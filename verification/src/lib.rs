//! Front end of a small Pascal-like language: a lexer, a recursive-descent
//! parser and a semantic analyzer that together turn source text into a
//! typed abstract syntax tree, or into a list of diagnostics.
//!
//! The pieces mirror the pipeline: a [`cursor::SourceCursor`] walks the text
//! one character at a time and tracks 1-based positions; the
//! [`lexer::Lexer`] turns characters into tokens on demand; the
//! [`parser::Parser`] pulls tokens with one token of lookahead, builds the
//! [`syntax`] tree, and asks the [`analyzer::Analyzer`] about every
//! declaration and identifier use; the analyzer keeps a stack of
//! [`scope::Scope`] frames. Recoverable errors are collected in order as
//! [`error::CompilerError`] values; structural errors abort the parse with a
//! single fatal diagnostic.

pub mod analyzer;
pub mod cursor;
pub mod error;
pub mod lexer;
pub mod parser;
pub mod position;
pub mod scope;
pub mod syntax;
pub mod text;
pub mod token;
