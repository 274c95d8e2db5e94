use vstd::prelude::*;

use crate::token::{Token, TokenType};

verus! {

/// An identifier occurrence: a token that is expected to be of the
/// `Identifier` kind.
#[derive(Debug)]
pub struct Identifier {
    pub id: Token,
}

impl Clone for Identifier {
    fn clone(&self) -> (r: Self)
        ensures
            r == *self,
    {
        Identifier { id: self.id.clone() }
    }
}

/// The spelling of an identifier occurrence; empty for a token of any other
/// kind.
pub open spec fn spec_get_id(id: Identifier) -> Seq<char> {
    match id.id.token {
        TokenType::Identifier(s) => s@,
        _ => Seq::<char>::empty(),
    }
}

impl Identifier {
    /// The token really is an identifier token.
    pub open spec fn wf(self) -> bool {
        self.id.token is Identifier
    }

    pub fn get_id(&self) -> (r: String)
        ensures
            r@ == spec_get_id(*self),
    {
        match &self.id.token {
            TokenType::Identifier(s) => s.clone(),
            _ => String::new(),
        }
    }
}

#[derive(Clone, Copy, Debug, PartialEq, Eq, Structural)]
pub enum AdditiveOp {
    Plus,
    Minus,
    Or,
}

#[derive(Clone, Copy, Debug, PartialEq, Eq, Structural)]
pub enum MultiplicativeOp {
    Mul,
    Div,
    Mod,
    And,
}

#[derive(Clone, Copy, Debug, PartialEq, Eq, Structural)]
pub enum RelationalOp {
    Less,
    Bigger,
    LessEq,
    BiggerEq,
    Eq,
    UnEq,
}

/// The smallest expression unit: a literal, an identifier reference, or a
/// parenthesized expression.
#[derive(Debug)]
pub enum Factor {
    Integer(Token),
    Real(Token),
    Identifier(Identifier),
    Expression(Box<Expression>),
}

/// One multiplicative continuation of a term: an operator and its right
/// operand.
#[derive(Debug)]
pub struct TermTail {
    pub op: MultiplicativeOp,
    pub factor: Factor,
}

/// A factor combined with a sequence of multiplicative continuations,
/// carrying the type resolved bottom-up for the whole term.
#[derive(Debug)]
pub struct Term {
    pub factor: Factor,
    pub tail: Vec<TermTail>,
    pub term_type: String,
}

/// One additive continuation of a simple expression: an operator and its
/// right operand.
#[derive(Debug)]
pub struct SimpleTail {
    pub op: AdditiveOp,
    pub term: Term,
}

/// A term combined with a sequence of additive continuations, carrying the
/// type resolved bottom-up for the whole expression.
#[derive(Debug)]
pub struct SimpleExpression {
    pub term: Term,
    pub tail: Vec<SimpleTail>,
    pub expr_type: String,
}

/// Two simple expressions compared by a relational operator.
#[derive(Debug)]
pub struct RelationalExpression {
    pub first: SimpleExpression,
    pub op: RelationalOp,
    pub second: SimpleExpression,
}

#[derive(Debug)]
pub enum Expression {
    Simple(SimpleExpression),
    Relational(RelationalExpression),
}

/// The resolved type of an expression: a relational comparison is always
/// boolean, a simple expression carries its own resolved type.
pub open spec fn spec_expr_type(e: Expression) -> Seq<char> {
    match e {
        Expression::Simple(s) => s.expr_type@,
        Expression::Relational(_) => "boolean"@,
    }
}

impl Expression {
    pub fn expr_type(&self) -> (r: String)
        ensures
            r@ == spec_expr_type(*self),
    {
        match self {
            Expression::Simple(s) => s.expr_type.clone(),
            Expression::Relational(_) => String::from_str("boolean"),
        }
    }
}

/// An assignment statement: the target identifier and the value expression.
#[derive(Debug)]
pub struct VarAssignment {
    pub name: Identifier,
    pub value: Expression,
}

#[derive(Debug)]
pub struct IfStatement {
    pub condition: Expression,
    pub statement: Box<Statement>,
    pub else_statement: Option<Box<Statement>>,
}

#[derive(Debug)]
pub struct WhileLoop {
    pub condition: Box<Expression>,
    pub statement: Box<Statement>,
}

#[derive(Debug)]
pub enum Statement {
    Simple(VarAssignment),
    Cond(IfStatement),
    While(WhileLoop),
}

/// An ordered sequence of statements between `begin` and `end`.
#[derive(Debug)]
pub struct Compound {
    pub statements: Vec<Statement>,
}

/// A type alias declaration: the new name and its parent type name.
#[derive(Debug)]
pub struct TypeDeclaration {
    pub id: Identifier,
    pub parent: Identifier,
}

impl Clone for TypeDeclaration {
    fn clone(&self) -> (r: Self)
        ensures
            r == *self,
    {
        TypeDeclaration { id: self.id.clone(), parent: self.parent.clone() }
    }
}

#[derive(Debug)]
pub struct TypeSection {
    pub types: Vec<TypeDeclaration>,
}

/// A variable declaration: the declared name and the name of its declared type.
#[derive(Debug)]
pub struct VarDeclaration {
    pub id: Identifier,
    pub type_id: Identifier,
}

impl Clone for VarDeclaration {
    fn clone(&self) -> (r: Self)
        ensures
            r == *self,
    {
        VarDeclaration { id: self.id.clone(), type_id: self.type_id.clone() }
    }
}

#[derive(Debug)]
pub struct VarSection {
    pub declarations: Vec<VarDeclaration>,
}

/// A whole parsed program: its name, the optional declaration sections, and
/// the statement body.
#[derive(Debug)]
pub struct Program {
    pub identifier: Identifier,
    pub type_section: Option<TypeSection>,
    pub var_section: Option<VarSection>,
    pub compound: Compound,
}

} // verus!
