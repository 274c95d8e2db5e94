use vstd::prelude::*;

use crate::position::Position;

verus! {

/// The kind of a token, together with its payload where one exists.
///
/// Literal payloads: an integer literal carries its value, a real literal
/// carries its lexeme (the language's own numeral grammar: digits with exactly
/// one `.`), an identifier carries its spelling with the original case, a
/// string literal carries the text between the quotes. `Eof` is the
/// end-of-input marker of the token vocabulary; the lexer itself signals the
/// end of the stream by handing out nothing.
#[derive(Debug)]
pub enum TokenType {
    Integer(i32),
    Real(String),
    Identifier(String),
    StringLiteral(String),
    ProgramKeyword,
    VarKeyword,
    TypeKeyword,
    BeginKeyword,
    EndKeyword,
    IfKeyword,
    ThenKeyword,
    ElseKeyword,
    WhileKeyword,
    DoKeyword,
    PlusOp,
    MinusOp,
    AndOp,
    OrOp,
    MulOp,
    DivOp,
    ModOp,
    Bigger,
    Less,
    BiggerEq,
    LessEq,
    Eq,
    UnEq,
    AssignOp,
    Colon,
    Period,
    LBrace,
    RBrace,
    Comma,
    Semicolon,
    Eof,
}

/// A token: its kind and the position of its first character.
#[derive(Debug)]
pub struct Token {
    pub token: TokenType,
    pub pos: Position,
}

/// The mathematical shape of a token kind: the same variants over integers
/// and character sequences.
pub enum TokenTypeView {
    Integer(int),
    Real(Seq<char>),
    Identifier(Seq<char>),
    StringLiteral(Seq<char>),
    ProgramKeyword,
    VarKeyword,
    TypeKeyword,
    BeginKeyword,
    EndKeyword,
    IfKeyword,
    ThenKeyword,
    ElseKeyword,
    WhileKeyword,
    DoKeyword,
    PlusOp,
    MinusOp,
    AndOp,
    OrOp,
    MulOp,
    DivOp,
    ModOp,
    Bigger,
    Less,
    BiggerEq,
    LessEq,
    Eq,
    UnEq,
    AssignOp,
    Colon,
    Period,
    LBrace,
    RBrace,
    Comma,
    Semicolon,
    Eof,
}

impl View for TokenType {
    type V = TokenTypeView;

    open spec fn view(&self) -> TokenTypeView {
        match self {
            TokenType::Integer(i) => TokenTypeView::Integer(*i as int),
            TokenType::Real(s) => TokenTypeView::Real(s@),
            TokenType::Identifier(s) => TokenTypeView::Identifier(s@),
            TokenType::StringLiteral(s) => TokenTypeView::StringLiteral(s@),
            TokenType::ProgramKeyword => TokenTypeView::ProgramKeyword,
            TokenType::VarKeyword => TokenTypeView::VarKeyword,
            TokenType::TypeKeyword => TokenTypeView::TypeKeyword,
            TokenType::BeginKeyword => TokenTypeView::BeginKeyword,
            TokenType::EndKeyword => TokenTypeView::EndKeyword,
            TokenType::IfKeyword => TokenTypeView::IfKeyword,
            TokenType::ThenKeyword => TokenTypeView::ThenKeyword,
            TokenType::ElseKeyword => TokenTypeView::ElseKeyword,
            TokenType::WhileKeyword => TokenTypeView::WhileKeyword,
            TokenType::DoKeyword => TokenTypeView::DoKeyword,
            TokenType::PlusOp => TokenTypeView::PlusOp,
            TokenType::MinusOp => TokenTypeView::MinusOp,
            TokenType::AndOp => TokenTypeView::AndOp,
            TokenType::OrOp => TokenTypeView::OrOp,
            TokenType::MulOp => TokenTypeView::MulOp,
            TokenType::DivOp => TokenTypeView::DivOp,
            TokenType::ModOp => TokenTypeView::ModOp,
            TokenType::Bigger => TokenTypeView::Bigger,
            TokenType::Less => TokenTypeView::Less,
            TokenType::BiggerEq => TokenTypeView::BiggerEq,
            TokenType::LessEq => TokenTypeView::LessEq,
            TokenType::Eq => TokenTypeView::Eq,
            TokenType::UnEq => TokenTypeView::UnEq,
            TokenType::AssignOp => TokenTypeView::AssignOp,
            TokenType::Colon => TokenTypeView::Colon,
            TokenType::Period => TokenTypeView::Period,
            TokenType::LBrace => TokenTypeView::LBrace,
            TokenType::RBrace => TokenTypeView::RBrace,
            TokenType::Comma => TokenTypeView::Comma,
            TokenType::Semicolon => TokenTypeView::Semicolon,
            TokenType::Eof => TokenTypeView::Eof,
        }
    }
}

pub open spec fn spec_view_is_mul_op(t: TokenTypeView) -> bool {
    t is MulOp || t is DivOp || t is ModOp || t is AndOp
}

pub open spec fn spec_view_is_add_op(t: TokenTypeView) -> bool {
    t is PlusOp || t is MinusOp || t is OrOp
}

pub open spec fn spec_view_is_rel_op(t: TokenTypeView) -> bool {
    t is Less || t is Bigger || t is LessEq || t is BiggerEq || t is Eq || t is UnEq
}

/// The mathematical shape of a token.
pub struct TokenView {
    pub token: TokenTypeView,
    pub pos: Position,
}

impl View for Token {
    type V = TokenView;

    open spec fn view(&self) -> TokenView {
        TokenView { token: self.token@, pos: self.pos }
    }
}

impl Clone for TokenType {
    fn clone(&self) -> (r: Self)
        ensures
            r == *self,
    {
        match self {
            TokenType::Integer(i) => TokenType::Integer(*i),
            TokenType::Real(s) => TokenType::Real(s.clone()),
            TokenType::Identifier(s) => TokenType::Identifier(s.clone()),
            TokenType::StringLiteral(s) => TokenType::StringLiteral(s.clone()),
            TokenType::ProgramKeyword => TokenType::ProgramKeyword,
            TokenType::VarKeyword => TokenType::VarKeyword,
            TokenType::TypeKeyword => TokenType::TypeKeyword,
            TokenType::BeginKeyword => TokenType::BeginKeyword,
            TokenType::EndKeyword => TokenType::EndKeyword,
            TokenType::IfKeyword => TokenType::IfKeyword,
            TokenType::ThenKeyword => TokenType::ThenKeyword,
            TokenType::ElseKeyword => TokenType::ElseKeyword,
            TokenType::WhileKeyword => TokenType::WhileKeyword,
            TokenType::DoKeyword => TokenType::DoKeyword,
            TokenType::PlusOp => TokenType::PlusOp,
            TokenType::MinusOp => TokenType::MinusOp,
            TokenType::AndOp => TokenType::AndOp,
            TokenType::OrOp => TokenType::OrOp,
            TokenType::MulOp => TokenType::MulOp,
            TokenType::DivOp => TokenType::DivOp,
            TokenType::ModOp => TokenType::ModOp,
            TokenType::Bigger => TokenType::Bigger,
            TokenType::Less => TokenType::Less,
            TokenType::BiggerEq => TokenType::BiggerEq,
            TokenType::LessEq => TokenType::LessEq,
            TokenType::Eq => TokenType::Eq,
            TokenType::UnEq => TokenType::UnEq,
            TokenType::AssignOp => TokenType::AssignOp,
            TokenType::Colon => TokenType::Colon,
            TokenType::Period => TokenType::Period,
            TokenType::LBrace => TokenType::LBrace,
            TokenType::RBrace => TokenType::RBrace,
            TokenType::Comma => TokenType::Comma,
            TokenType::Semicolon => TokenType::Semicolon,
            TokenType::Eof => TokenType::Eof,
        }
    }
}

impl Clone for Token {
    fn clone(&self) -> (r: Self)
        ensures
            r == *self,
    {
        Token { token: self.token.clone(), pos: self.pos }
    }
}

pub open spec fn spec_is_rel_op(t: TokenType) -> bool {
    match t {
        TokenType::BiggerEq
        | TokenType::Bigger
        | TokenType::Less
        | TokenType::LessEq
        | TokenType::Eq
        | TokenType::UnEq => true,
        _ => false,
    }
}

pub open spec fn spec_is_mul_op(t: TokenType) -> bool {
    match t {
        TokenType::MulOp | TokenType::DivOp | TokenType::ModOp | TokenType::AndOp => true,
        _ => false,
    }
}

pub open spec fn spec_is_add_op(t: TokenType) -> bool {
    match t {
        TokenType::PlusOp | TokenType::MinusOp | TokenType::OrOp => true,
        _ => false,
    }
}

pub open spec fn spec_is_expression_end(t: TokenType) -> bool {
    match t {
        TokenType::RBrace | TokenType::Semicolon | TokenType::EndKeyword => true,
        _ => false,
    }
}

impl Token {
    pub fn new(token: TokenType, pos: Position) -> (r: Self)
        ensures
            r.token == token,
            r.pos == pos,
    {
        Self { token, pos }
    }

    /// True of the six relational operators `= <> < <= > >=`.
    pub fn is_rel_op(&self) -> (r: bool)
        ensures
            r == spec_is_rel_op(self.token),
    {
        matches!(
            self.token,
            TokenType::BiggerEq
            | TokenType::Bigger
            | TokenType::Less
            | TokenType::LessEq
            | TokenType::Eq
            | TokenType::UnEq
        )
    }

    /// True of the multiplicative operators `* div mod and`.
    pub fn is_mul_op(&self) -> (r: bool)
        ensures
            r == spec_is_mul_op(self.token),
    {
        matches!(
            self.token,
            TokenType::MulOp | TokenType::DivOp | TokenType::ModOp | TokenType::AndOp
        )
    }

    /// True of the additive operators `+ - or`.
    pub fn is_add_op(&self) -> (r: bool)
        ensures
            r == spec_is_add_op(self.token),
    {
        matches!(self.token, TokenType::PlusOp | TokenType::MinusOp | TokenType::OrOp)
    }

    /// True of the tokens that end an expression: `)`, `;`, `end`.
    pub fn is_expression_end(&self) -> (r: bool)
        ensures
            r == spec_is_expression_end(self.token),
    {
        matches!(
            self.token,
            TokenType::RBrace | TokenType::Semicolon | TokenType::EndKeyword
        )
    }
}

} // verus!
