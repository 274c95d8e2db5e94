use vstd::prelude::*;

use crate::position::Position;
use crate::text::spec_digits_of;
use crate::text::usize_to_string;

verus! {

/// The kind of a diagnostic: produced by the lexer, the parser, or the
/// semantic analyzer.
#[derive(Clone, Copy, Debug, PartialEq, Eq, Structural)]
pub enum ErrorType {
    Lexical,
    Syntax,
    Semantic,
}

/// A diagnostic: a message, a 1-based (line, column) source position, and the
/// kind of check that produced it.
#[derive(Debug)]
pub struct CompilerError {
    pub description: String,
    pub pos: Position,
    pub err_type: ErrorType,
}

/// The mathematical shape of a diagnostic.
pub struct ErrorView {
    pub description: Seq<char>,
    pub pos: Position,
    pub err_type: ErrorType,
}

impl View for CompilerError {
    type V = ErrorView;

    open spec fn view(&self) -> ErrorView {
        ErrorView { description: self.description@, pos: self.pos, err_type: self.err_type }
    }
}

impl Clone for CompilerError {
    fn clone(&self) -> (r: Self)
        ensures
            r == *self,
    {
        CompilerError { description: self.description.clone(), pos: self.pos, err_type: self.err_type }
    }
}

impl CompilerError {
    pub fn new(description: String, pos: Position, err_type: ErrorType) -> (r: Self)
        ensures
            r.description@ == description@,
            r.pos == pos,
            r.err_type == err_type,
    {
        Self { description, pos, err_type }
    }

    pub fn lexical(description: String, pos: Position) -> (r: Self)
        ensures
            r.description@ == description@,
            r.pos == pos,
            r.err_type == ErrorType::Lexical,
    {
        Self::new(description, pos, ErrorType::Lexical)
    }

    pub fn syntax(description: String, pos: Position) -> (r: Self)
        ensures
            r.description@ == description@,
            r.pos == pos,
            r.err_type == ErrorType::Syntax,
    {
        Self::new(description, pos, ErrorType::Syntax)
    }

    pub fn semantic(description: String, pos: Position) -> (r: Self)
        ensures
            r.description@ == description@,
            r.pos == pos,
            r.err_type == ErrorType::Semantic,
    {
        Self::new(description, pos, ErrorType::Semantic)
    }
}

/// The name of a diagnostic kind as it appears in a rendered message.
pub open spec fn spec_kind_str(t: ErrorType) -> Seq<char> {
    match t {
        ErrorType::Lexical => "Lexical"@,
        ErrorType::Syntax => "Syntax"@,
        ErrorType::Semantic => "Semantic"@,
    }
}

/// A diagnostic rendered for a reader:
/// `<Kind> Error [<line>:<column>] <message>`.
pub open spec fn spec_render(e: ErrorView) -> Seq<char> {
    spec_kind_str(e.err_type) + " Error ["@ + spec_digits_of(e.pos.line as int) + ":"@
        + spec_digits_of(e.pos.col as int) + "] "@ + e.description
}

impl CompilerError {
    /// Render the diagnostic as `<Kind> Error [<line>:<column>] <message>`.
    pub fn render(&self) -> (r: String)
        ensures
            r@ == spec_render(self@),
    {
        let kind = match self.err_type {
            ErrorType::Lexical => String::from_str("Lexical"),
            ErrorType::Syntax => String::from_str("Syntax"),
            ErrorType::Semantic => String::from_str("Semantic"),
        };
        let line = usize_to_string(self.pos.line);
        let col = usize_to_string(self.pos.col);
        kind.concat(" Error [").concat(line.as_str()).concat(":").concat(col.as_str()).concat(
            "] ",
        ).concat(self.description.as_str())
    }
}

} // verus!
