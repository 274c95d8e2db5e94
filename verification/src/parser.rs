use vstd::prelude::*;

use crate::analyzer::Analyzer;
use crate::error::{CompilerError, ErrorType};
use crate::lexer::Lexer;
use crate::position::Position;
use crate::syntax::{
    AdditiveOp, Compound, Expression, Factor, Identifier, IfStatement, MultiplicativeOp, Program,
    RelationalExpression, RelationalOp, SimpleExpression, SimpleTail, Statement, Term, TermTail,
    TypeDeclaration, TypeSection, VarAssignment, VarDeclaration, VarSection, WhileLoop,
};
use crate::token::{spec_is_add_op, spec_is_mul_op, spec_is_rel_op, Token, TokenType};

verus! {

/// A token at which the statement-list recovery can restart: a token that
/// can start a statement (an identifier opening an assignment, `if`,
/// `while`), the start of a block, or the `end` of the block.
pub open spec fn spec_is_starter(t: TokenType) -> bool {
    t is Identifier || t is IfKeyword || t is WhileKeyword || t is BeginKeyword
        || t is EndKeyword
}

/// The mathematical shape of the parser's lookahead slot.
pub open spec fn spec_lookahead_view(c: Option<Result<Token, CompilerError>>) -> Option<
    Result<crate::token::TokenView, crate::error::ErrorView>,
> {
    match c {
        None => None,
        Some(Ok(t)) => Some(Ok(t@)),
        Some(Err(e)) => Some(Err(e@)),
    }
}

/// What taking exactly the current item does to the parser: the lexer moves
/// to the end of its next step, the lookahead becomes exactly what that step
/// hands out, and the analyzer and the collected errors are untouched.
pub open spec fn spec_took_one(pre: Parser, post: Parser) -> bool {
    let step = crate::lexer::spec_next_token(pre.lexer.text(), pre.lexer.idx());
    &&& post.lexer.text() == pre.lexer.text()
    &&& post.lexer.idx() == step.next
    &&& spec_lookahead_view(post.current_token) == step.out
    &&& post.analyzer == pre.analyzer
    &&& post.errors == pre.errors
    &&& match step.out {
        Some(Ok(tv)) => post.current_pos == tv.pos,
        _ => post.current_pos == pre.current_pos,
    }
}

/// How a factor corresponds to the token that started it: a literal factor
/// carries that very token, an identifier factor wraps it, a parenthesized
/// factor arises only from `(`.
pub open spec fn spec_factor_tie(c: Option<Result<Token, CompilerError>>, f: Factor) -> bool {
    match c {
        Some(Ok(t)) => match t.token {
            TokenType::Integer(_) => f == Factor::Integer(t),
            TokenType::Real(_) => f == Factor::Real(t),
            TokenType::Identifier(_) => f == Factor::Identifier((Identifier { id: t })),
            TokenType::LBrace => f is Expression,
            _ => false,
        },
        _ => false,
    }
}

/// The next tokens of the source read `program <name> ; begin end .`: the
/// smallest complete program stands at the parser's current position.
pub open spec fn spec_minimal_program_ahead(pre: Parser) -> bool {
    let s = pre.lexer.text();
    let step1 = crate::lexer::spec_next_token(s, pre.lexer.idx());
    let step2 = crate::lexer::spec_next_token(s, step1.next);
    let step3 = crate::lexer::spec_next_token(s, step2.next);
    let step4 = crate::lexer::spec_next_token(s, step3.next);
    let step5 = crate::lexer::spec_next_token(s, step4.next);
    &&& (match pre.current_token {
        Some(Ok(t)) => t.token is ProgramKeyword,
        _ => false,
    })
    &&& (match step1.out {
        Some(Ok(tv)) => tv.token is Identifier,
        _ => false,
    })
    &&& (match step2.out {
        Some(Ok(tv)) => tv.token is Semicolon,
        _ => false,
    })
    &&& (match step3.out {
        Some(Ok(tv)) => tv.token is BeginKeyword,
        _ => false,
    })
    &&& (match step4.out {
        Some(Ok(tv)) => tv.token is EndKeyword,
        _ => false,
    })
    &&& (match step5.out {
        Some(Ok(tv)) => tv.token is Period,
        _ => false,
    })
}

/// The current item is a numeric literal token.
pub open spec fn spec_literal_ahead(pre: Parser) -> bool {
    match pre.current_token {
        Some(Ok(t)) => t.token is Integer || t.token is Real,
        _ => false,
    }
}

/// What the lexer hands out right after the current item.
pub open spec fn spec_follow(pre: Parser) -> Option<
    Result<crate::token::TokenView, crate::error::ErrorView>,
> {
    crate::lexer::spec_next_token(pre.lexer.text(), pre.lexer.idx()).out
}

/// A numeric literal whose following token continues no term: the smallest
/// complete term stands at the parser's current position.
pub open spec fn spec_literal_term_ahead(pre: Parser) -> bool {
    &&& spec_literal_ahead(pre)
    &&& (match spec_follow(pre) {
        Some(Ok(tv)) => !crate::token::spec_view_is_mul_op(tv.token),
        _ => true,
    })
}

/// A numeric literal whose following token continues no term or simple
/// expression: the smallest complete simple expression stands at the
/// parser's current position.
pub open spec fn spec_literal_simple_ahead(pre: Parser) -> bool {
    &&& spec_literal_ahead(pre)
    &&& (match spec_follow(pre) {
        Some(Ok(tv)) => !crate::token::spec_view_is_mul_op(tv.token)
            && !crate::token::spec_view_is_add_op(tv.token),
        _ => true,
    })
}

/// A numeric literal whose following token continues no expression at all:
/// the smallest complete expression stands at the parser's current position.
pub open spec fn spec_literal_expr_ahead(pre: Parser) -> bool {
    &&& spec_literal_ahead(pre)
    &&& (match spec_follow(pre) {
        Some(Ok(tv)) => !crate::token::spec_view_is_mul_op(tv.token)
            && !crate::token::spec_view_is_add_op(tv.token)
            && !crate::token::spec_view_is_rel_op(tv.token),
        _ => true,
    })
}

/// The fixed type of the numeric literal in the lookahead slot.
pub open spec fn spec_lookahead_literal_type(pre: Parser) -> Seq<char> {
    match pre.current_token {
        Some(Ok(t)) => if t.token is Integer {
            "integer"@
        } else {
            "real"@
        },
        _ => Seq::<char>::empty(),
    }
}

/// The next items of the source read `<name> := <literal> ;`: the smallest
/// assignment statement stands at the parser's current position, whatever
/// the semantic checks then make of it.
pub open spec fn spec_minimal_assignment_ahead(pre: Parser) -> bool {
    let s = pre.lexer.text();
    let step1 = crate::lexer::spec_next_token(s, pre.lexer.idx());
    let step2 = crate::lexer::spec_next_token(s, step1.next);
    let step3 = crate::lexer::spec_next_token(s, step2.next);
    &&& (match pre.current_token {
        Some(Ok(t)) => t.token is Identifier,
        _ => false,
    })
    &&& (match step1.out {
        Some(Ok(tv)) => tv.token is AssignOp,
        _ => false,
    })
    &&& (match step2.out {
        Some(Ok(tv)) => tv.token is Integer || tv.token is Real,
        _ => false,
    })
    &&& (match step3.out {
        Some(Ok(tv)) => tv.token is Semicolon,
        _ => false,
    })
}

/// The name carried by the identifier token in the lookahead slot.
pub open spec fn spec_lookahead_ident_name(pre: Parser) -> Seq<char> {
    match pre.current_token {
        Some(Ok(t)) => crate::syntax::spec_get_id((Identifier { id: t })),
        _ => Seq::<char>::empty(),
    }
}

/// The position of the token in the lookahead slot.
pub open spec fn spec_lookahead_pos(pre: Parser) -> Position {
    match pre.current_token {
        Some(Ok(t)) => t.pos,
        _ => pre.current_pos,
    }
}

/// The type of the literal assigned in the smallest assignment shape.
pub open spec fn spec_minimal_assignment_literal_type(pre: Parser) -> Seq<char> {
    let s = pre.lexer.text();
    let step1 = crate::lexer::spec_next_token(s, pre.lexer.idx());
    let step2 = crate::lexer::spec_next_token(s, step1.next);
    match step2.out {
        Some(Ok(tv)) => if tv.token is Integer {
            "integer"@
        } else {
            "real"@
        },
        _ => Seq::<char>::empty(),
    }
}

/// Whether the smallest assignment passes the semantic checks: the target
/// resolves to a variable whose declared type accepts the literal's type
/// under a strong merge.
pub open spec fn spec_minimal_assignment_succeeds(pre: Parser) -> bool {
    match crate::analyzer::spec_find(pre.analyzer@, spec_lookahead_ident_name(pre)) {
        Some(crate::scope::UsageView::Variable(vt)) => crate::analyzer::spec_merge(
            vt,
            spec_minimal_assignment_literal_type(pre),
            true,
        ) is Some,
        _ => false,
    }
}

/// The diagnostic the smallest assignment produces when the semantic checks
/// reject it, at the target's position.
pub open spec fn spec_minimal_assignment_error(pre: Parser) -> crate::error::ErrorView {
    match crate::analyzer::spec_find(pre.analyzer@, spec_lookahead_ident_name(pre)) {
        Some(crate::scope::UsageView::Variable(vt)) => crate::error::ErrorView {
            description: "Type mismatch"@,
            pos: spec_lookahead_pos(pre),
            err_type: ErrorType::Semantic,
        },
        None => crate::error::ErrorView {
            description: "Unknown identifier "@ + spec_lookahead_ident_name(pre),
            pos: spec_lookahead_pos(pre),
            err_type: ErrorType::Semantic,
        },
        Some(_) => crate::error::ErrorView {
            description: "Assignment to a name that is not a variable"@,
            pos: spec_lookahead_pos(pre),
            err_type: ErrorType::Semantic,
        },
    }
}

/// The next items of the source read `<name> : <type> ;`: the smallest
/// declaration line stands at the parser's current position.
pub open spec fn spec_minimal_declaration_ahead(pre: Parser) -> bool {
    let s = pre.lexer.text();
    let step1 = crate::lexer::spec_next_token(s, pre.lexer.idx());
    let step2 = crate::lexer::spec_next_token(s, step1.next);
    let step3 = crate::lexer::spec_next_token(s, step2.next);
    &&& (match pre.current_token {
        Some(Ok(t)) => t.token is Identifier,
        _ => false,
    })
    &&& (match step1.out {
        Some(Ok(tv)) => tv.token is Colon,
        _ => false,
    })
    &&& (match step2.out {
        Some(Ok(tv)) => tv.token is Identifier,
        _ => false,
    })
    &&& (match step3.out {
        Some(Ok(tv)) => tv.token is Semicolon,
        _ => false,
    })
}

/// The next items of the source read `var begin`: a var section with no
/// declaration lines stands at the parser's current position.
pub open spec fn spec_empty_var_section_ahead(pre: Parser) -> bool {
    let step = crate::lexer::spec_next_token(pre.lexer.text(), pre.lexer.idx());
    &&& (match pre.current_token {
        Some(Ok(t)) => t.token is VarKeyword,
        _ => false,
    })
    &&& (match step.out {
        Some(Ok(tv)) => tv.token is BeginKeyword,
        _ => false,
    })
}

/// The next items of the source read `type var` or `type begin`: a type
/// section with no alias lines stands at the parser's current position.
pub open spec fn spec_empty_type_section_ahead(pre: Parser) -> bool {
    let step = crate::lexer::spec_next_token(pre.lexer.text(), pre.lexer.idx());
    &&& (match pre.current_token {
        Some(Ok(t)) => t.token is TypeKeyword,
        _ => false,
    })
    &&& (match step.out {
        Some(Ok(tv)) => tv.token is VarKeyword || tv.token is BeginKeyword,
        _ => false,
    })
}

/// The next items of the source read `<literal> <relop> <literal>` and then
/// a token that continues no expression: the smallest complete relational
/// expression stands at the parser's current position.
pub open spec fn spec_literal_relation_ahead(pre: Parser) -> bool {
    let s = pre.lexer.text();
    let step1 = crate::lexer::spec_next_token(s, pre.lexer.idx());
    let step2 = crate::lexer::spec_next_token(s, step1.next);
    let step3 = crate::lexer::spec_next_token(s, step2.next);
    &&& spec_literal_ahead(pre)
    &&& (match step1.out {
        Some(Ok(tv)) => crate::token::spec_view_is_rel_op(tv.token),
        _ => false,
    })
    &&& (match step2.out {
        Some(Ok(tv)) => tv.token is Integer || tv.token is Real,
        _ => false,
    })
    &&& (match step3.out {
        Some(Ok(tv)) => !crate::token::spec_view_is_mul_op(tv.token)
            && !crate::token::spec_view_is_add_op(tv.token)
            && !crate::token::spec_view_is_rel_op(tv.token),
        _ => true,
    })
}

/// The fixed type of the numeric literal the second step of the source
/// hands out.
pub open spec fn spec_second_literal_type(pre: Parser) -> Seq<char> {
    let s = pre.lexer.text();
    let step1 = crate::lexer::spec_next_token(s, pre.lexer.idx());
    let step2 = crate::lexer::spec_next_token(s, step1.next);
    match step2.out {
        Some(Ok(tv)) => if tv.token is Integer {
            "integer"@
        } else {
            "real"@
        },
        _ => Seq::<char>::empty(),
    }
}

/// The next items of the source read `( <literal> )`: the smallest complete
/// parenthesized factor stands at the parser's current position.
pub open spec fn spec_paren_literal_ahead(pre: Parser) -> bool {
    let s = pre.lexer.text();
    let step1 = crate::lexer::spec_next_token(s, pre.lexer.idx());
    let step2 = crate::lexer::spec_next_token(s, step1.next);
    &&& (match pre.current_token {
        Some(Ok(t)) => t.token is LBrace,
        _ => false,
    })
    &&& (match step1.out {
        Some(Ok(tv)) => tv.token is Integer || tv.token is Real,
        _ => false,
    })
    &&& (match step2.out {
        Some(Ok(tv)) => tv.token is RBrace,
        _ => false,
    })
}

/// The next items of the source read `var <name> : <type> ; begin` and the
/// name is not yet bound in the innermost scope: a var section with exactly
/// one declaration line stands at the parser's current position.
pub open spec fn spec_one_line_var_section_ahead(pre: Parser) -> bool {
    let s = pre.lexer.text();
    let step1 = crate::lexer::spec_next_token(s, pre.lexer.idx());
    let step2 = crate::lexer::spec_next_token(s, step1.next);
    let step3 = crate::lexer::spec_next_token(s, step2.next);
    let step4 = crate::lexer::spec_next_token(s, step3.next);
    let step5 = crate::lexer::spec_next_token(s, step4.next);
    &&& (match pre.current_token {
        Some(Ok(t)) => t.token is VarKeyword,
        _ => false,
    })
    &&& (match step1.out {
        Some(Ok(tv)) => match tv.token {
            crate::token::TokenTypeView::Identifier(nm) => !pre.analyzer@.last().contains_key(nm),
            _ => false,
        },
        _ => false,
    })
    &&& (match step2.out {
        Some(Ok(tv)) => tv.token is Colon,
        _ => false,
    })
    &&& (match step3.out {
        Some(Ok(tv)) => tv.token is Identifier,
        _ => false,
    })
    &&& (match step4.out {
        Some(Ok(tv)) => tv.token is Semicolon,
        _ => false,
    })
    &&& (match step5.out {
        Some(Ok(tv)) => tv.token is BeginKeyword,
        _ => false,
    })
}

/// The declared name in a one-line section shape: the identifier the first
/// step after the section keyword hands out.
pub open spec fn spec_section_decl_name(pre: Parser) -> Seq<char> {
    match crate::lexer::spec_next_token(pre.lexer.text(), pre.lexer.idx()).out {
        Some(Ok(tv)) => match tv.token {
            crate::token::TokenTypeView::Identifier(nm) => nm,
            _ => Seq::<char>::empty(),
        },
        _ => Seq::<char>::empty(),
    }
}

/// The declared type name in a one-line section shape: the identifier the
/// third step after the section keyword hands out.
pub open spec fn spec_section_decl_type(pre: Parser) -> Seq<char> {
    let s = pre.lexer.text();
    let step1 = crate::lexer::spec_next_token(s, pre.lexer.idx());
    let step2 = crate::lexer::spec_next_token(s, step1.next);
    let step3 = crate::lexer::spec_next_token(s, step2.next);
    match step3.out {
        Some(Ok(tv)) => match tv.token {
            crate::token::TokenTypeView::Identifier(nm) => nm,
            _ => Seq::<char>::empty(),
        },
        _ => Seq::<char>::empty(),
    }
}

/// The scope stack after a one-line section registers its declaration.
pub open spec fn spec_one_line_section_scopes(pre: Parser) -> crate::analyzer::ScopeSeq {
    pre.analyzer@.update(
        pre.analyzer@.len() - 1,
        pre.analyzer@.last().insert(
            spec_section_decl_name(pre),
            crate::scope::UsageView::Variable(spec_section_decl_type(pre)),
        ),
    )
}

/// The next items of the source read `begin <name> := <literal> ; end`: a
/// compound holding one assignment statement stands at the parser's current
/// position, whatever the semantic checks then make of it.
pub open spec fn spec_one_statement_compound_ahead(pre: Parser) -> bool {
    let s = pre.lexer.text();
    let step1 = crate::lexer::spec_next_token(s, pre.lexer.idx());
    let step2 = crate::lexer::spec_next_token(s, step1.next);
    let step3 = crate::lexer::spec_next_token(s, step2.next);
    let step4 = crate::lexer::spec_next_token(s, step3.next);
    let step5 = crate::lexer::spec_next_token(s, step4.next);
    &&& (match pre.current_token {
        Some(Ok(t)) => t.token is BeginKeyword,
        _ => false,
    })
    &&& (match step1.out {
        Some(Ok(tv)) => tv.token is Identifier,
        _ => false,
    })
    &&& (match step2.out {
        Some(Ok(tv)) => tv.token is AssignOp,
        _ => false,
    })
    &&& (match step3.out {
        Some(Ok(tv)) => tv.token is Integer || tv.token is Real,
        _ => false,
    })
    &&& (match step4.out {
        Some(Ok(tv)) => tv.token is Semicolon,
        _ => false,
    })
    &&& (match step5.out {
        Some(Ok(tv)) => tv.token is EndKeyword,
        _ => false,
    })
}

/// The declared name, position and literal type of the one assignment in a
/// one-statement compound shape.
pub open spec fn spec_compound_stmt_name(pre: Parser) -> Seq<char> {
    match crate::lexer::spec_next_token(pre.lexer.text(), pre.lexer.idx()).out {
        Some(Ok(tv)) => match tv.token {
            crate::token::TokenTypeView::Identifier(nm) => nm,
            _ => Seq::<char>::empty(),
        },
        _ => Seq::<char>::empty(),
    }
}

pub open spec fn spec_compound_stmt_pos(pre: Parser) -> Position {
    match crate::lexer::spec_next_token(pre.lexer.text(), pre.lexer.idx()).out {
        Some(Ok(tv)) => tv.pos,
        _ => pre.current_pos,
    }
}

pub open spec fn spec_compound_stmt_literal_type(pre: Parser) -> Seq<char> {
    let s = pre.lexer.text();
    let step1 = crate::lexer::spec_next_token(s, pre.lexer.idx());
    let step2 = crate::lexer::spec_next_token(s, step1.next);
    let step3 = crate::lexer::spec_next_token(s, step2.next);
    match step3.out {
        Some(Ok(tv)) => if tv.token is Integer {
            "integer"@
        } else {
            "real"@
        },
        _ => Seq::<char>::empty(),
    }
}

/// Whether the one assignment of a one-statement compound passes the
/// semantic checks under the given scope stack.
pub open spec fn spec_compound_stmt_succeeds(pre: Parser) -> bool {
    match crate::analyzer::spec_find(pre.analyzer@, spec_compound_stmt_name(pre)) {
        Some(crate::scope::UsageView::Variable(vt)) => crate::analyzer::spec_merge(
            vt,
            spec_compound_stmt_literal_type(pre),
            true,
        ) is Some,
        _ => false,
    }
}

/// The diagnostic the one assignment of a one-statement compound produces
/// when the semantic checks reject it.
pub open spec fn spec_compound_stmt_error(pre: Parser) -> crate::error::ErrorView {
    match crate::analyzer::spec_find(pre.analyzer@, spec_compound_stmt_name(pre)) {
        Some(crate::scope::UsageView::Variable(vt)) => crate::error::ErrorView {
            description: "Type mismatch"@,
            pos: spec_compound_stmt_pos(pre),
            err_type: ErrorType::Semantic,
        },
        None => crate::error::ErrorView {
            description: "Unknown identifier "@ + spec_compound_stmt_name(pre),
            pos: spec_compound_stmt_pos(pre),
            err_type: ErrorType::Semantic,
        },
        Some(_) => crate::error::ErrorView {
            description: "Assignment to a name that is not a variable"@,
            pos: spec_compound_stmt_pos(pre),
            err_type: ErrorType::Semantic,
        },
    }
}

/// The next tokens of the source read
/// `program <name> ; var <x> : <ty> ; begin <x> := <literal> ; end .`,
/// assigning to the one declared variable a literal whose type its declared
/// type accepts under a strong merge: a complete one-declaration,
/// one-assignment program stands at the parser's current position.
pub open spec fn spec_scenario_program_ahead(pre: Parser) -> bool {
    let s = pre.lexer.text();
    let step1 = crate::lexer::spec_next_token(s, pre.lexer.idx());
    let step2 = crate::lexer::spec_next_token(s, step1.next);
    let step3 = crate::lexer::spec_next_token(s, step2.next);
    let step4 = crate::lexer::spec_next_token(s, step3.next);
    let step5 = crate::lexer::spec_next_token(s, step4.next);
    let step6 = crate::lexer::spec_next_token(s, step5.next);
    let step7 = crate::lexer::spec_next_token(s, step6.next);
    let step8 = crate::lexer::spec_next_token(s, step7.next);
    let step9 = crate::lexer::spec_next_token(s, step8.next);
    let step10 = crate::lexer::spec_next_token(s, step9.next);
    let step11 = crate::lexer::spec_next_token(s, step10.next);
    let step12 = crate::lexer::spec_next_token(s, step11.next);
    let step13 = crate::lexer::spec_next_token(s, step12.next);
    let step14 = crate::lexer::spec_next_token(s, step13.next);
    &&& (match pre.current_token {
        Some(Ok(t)) => t.token is ProgramKeyword,
        _ => false,
    })
    &&& (match step1.out {
        Some(Ok(tv)) => tv.token is Identifier,
        _ => false,
    })
    &&& (match step2.out {
        Some(Ok(tv)) => tv.token is Semicolon,
        _ => false,
    })
    &&& (match step3.out {
        Some(Ok(tv)) => tv.token is VarKeyword,
        _ => false,
    })
    &&& (match step4.out {
        Some(Ok(tv)) => tv.token is Identifier,
        _ => false,
    })
    &&& (match step5.out {
        Some(Ok(tv)) => tv.token is Colon,
        _ => false,
    })
    &&& (match step6.out {
        Some(Ok(tv)) => tv.token is Identifier,
        _ => false,
    })
    &&& (match step7.out {
        Some(Ok(tv)) => tv.token is Semicolon,
        _ => false,
    })
    &&& (match step8.out {
        Some(Ok(tv)) => tv.token is BeginKeyword,
        _ => false,
    })
    &&& (match (step9.out, step4.out) {
        (Some(Ok(tv9)), Some(Ok(tv4))) => match (tv9.token, tv4.token) {
            (
                crate::token::TokenTypeView::Identifier(target),
                crate::token::TokenTypeView::Identifier(declared),
            ) => target == declared,
            _ => false,
        },
        _ => false,
    })
    &&& (match step10.out {
        Some(Ok(tv)) => tv.token is AssignOp,
        _ => false,
    })
    &&& (match step11.out {
        Some(Ok(tv)) => tv.token is Integer || tv.token is Real,
        _ => false,
    })
    &&& (match step12.out {
        Some(Ok(tv)) => tv.token is Semicolon,
        _ => false,
    })
    &&& (match step13.out {
        Some(Ok(tv)) => tv.token is EndKeyword,
        _ => false,
    })
    &&& (match step14.out {
        Some(Ok(tv)) => tv.token is Period,
        _ => false,
    })
}

/// Whether the declared type of the scenario shape accepts the assigned
/// literal's type under a strong merge.
pub open spec fn spec_scenario_merge_ok(pre: Parser) -> bool {
    let s = pre.lexer.text();
    let step1 = crate::lexer::spec_next_token(s, pre.lexer.idx());
    let step2 = crate::lexer::spec_next_token(s, step1.next);
    let step3 = crate::lexer::spec_next_token(s, step2.next);
    let step4 = crate::lexer::spec_next_token(s, step3.next);
    let step5 = crate::lexer::spec_next_token(s, step4.next);
    let step6 = crate::lexer::spec_next_token(s, step5.next);
    let step7 = crate::lexer::spec_next_token(s, step6.next);
    let step8 = crate::lexer::spec_next_token(s, step7.next);
    let step9 = crate::lexer::spec_next_token(s, step8.next);
    let step10 = crate::lexer::spec_next_token(s, step9.next);
    let step11 = crate::lexer::spec_next_token(s, step10.next);
    match (step6.out, step11.out) {
        (Some(Ok(tv6)), Some(Ok(tv11))) => match tv6.token {
            crate::token::TokenTypeView::Identifier(ty) => crate::analyzer::spec_merge(
                ty,
                if tv11.token is Integer {
                    "integer"@
                } else {
                    "real"@
                },
                true,
            ) is Some,
            _ => false,
        },
        _ => false,
    }
}

/// The next tokens of the source read
/// `program <name> ; begin <x> := <literal> ; end .`: a program whose one
/// statement assigns to a name no section declares.
pub open spec fn spec_scenario_no_var_ahead(pre: Parser) -> bool {
    let s = pre.lexer.text();
    let step1 = crate::lexer::spec_next_token(s, pre.lexer.idx());
    let step2 = crate::lexer::spec_next_token(s, step1.next);
    let step3 = crate::lexer::spec_next_token(s, step2.next);
    let step4 = crate::lexer::spec_next_token(s, step3.next);
    let step5 = crate::lexer::spec_next_token(s, step4.next);
    let step6 = crate::lexer::spec_next_token(s, step5.next);
    let step7 = crate::lexer::spec_next_token(s, step6.next);
    let step8 = crate::lexer::spec_next_token(s, step7.next);
    let step9 = crate::lexer::spec_next_token(s, step8.next);
    &&& (match pre.current_token {
        Some(Ok(t)) => t.token is ProgramKeyword,
        _ => false,
    })
    &&& (match step1.out {
        Some(Ok(tv)) => tv.token is Identifier,
        _ => false,
    })
    &&& (match step2.out {
        Some(Ok(tv)) => tv.token is Semicolon,
        _ => false,
    })
    &&& (match step3.out {
        Some(Ok(tv)) => tv.token is BeginKeyword,
        _ => false,
    })
    &&& (match step4.out {
        Some(Ok(tv)) => tv.token is Identifier,
        _ => false,
    })
    &&& (match step5.out {
        Some(Ok(tv)) => tv.token is AssignOp,
        _ => false,
    })
    &&& (match step6.out {
        Some(Ok(tv)) => tv.token is Integer || tv.token is Real,
        _ => false,
    })
    &&& (match step7.out {
        Some(Ok(tv)) => tv.token is Semicolon,
        _ => false,
    })
    &&& (match step8.out {
        Some(Ok(tv)) => tv.token is EndKeyword,
        _ => false,
    })
    &&& (match step9.out {
        Some(Ok(tv)) => tv.token is Period,
        _ => false,
    })
}

/// The next items of the source read `var <x> : <ty> ; <x> : <ty2> ; begin`
/// with the same name declared twice, the first time freshly: a var section
/// whose second line redeclares the first stands at the parser's current
/// position.
pub open spec fn spec_redeclared_section_ahead(pre: Parser) -> bool {
    let s = pre.lexer.text();
    let step1 = crate::lexer::spec_next_token(s, pre.lexer.idx());
    let step2 = crate::lexer::spec_next_token(s, step1.next);
    let step3 = crate::lexer::spec_next_token(s, step2.next);
    let step4 = crate::lexer::spec_next_token(s, step3.next);
    let step5 = crate::lexer::spec_next_token(s, step4.next);
    let step6 = crate::lexer::spec_next_token(s, step5.next);
    let step7 = crate::lexer::spec_next_token(s, step6.next);
    let step8 = crate::lexer::spec_next_token(s, step7.next);
    let step9 = crate::lexer::spec_next_token(s, step8.next);
    &&& (match pre.current_token {
        Some(Ok(t)) => t.token is VarKeyword,
        _ => false,
    })
    &&& (match step1.out {
        Some(Ok(tv)) => match tv.token {
            crate::token::TokenTypeView::Identifier(nm) => !pre.analyzer@.last().contains_key(nm),
            _ => false,
        },
        _ => false,
    })
    &&& (match step2.out {
        Some(Ok(tv)) => tv.token is Colon,
        _ => false,
    })
    &&& (match step3.out {
        Some(Ok(tv)) => tv.token is Identifier,
        _ => false,
    })
    &&& (match step4.out {
        Some(Ok(tv)) => tv.token is Semicolon,
        _ => false,
    })
    &&& (match (step5.out, step1.out) {
        (Some(Ok(tv5)), Some(Ok(tv1))) => match (tv5.token, tv1.token) {
            (
                crate::token::TokenTypeView::Identifier(again),
                crate::token::TokenTypeView::Identifier(first),
            ) => again == first,
            _ => false,
        },
        _ => false,
    })
    &&& (match step6.out {
        Some(Ok(tv)) => tv.token is Colon,
        _ => false,
    })
    &&& (match step7.out {
        Some(Ok(tv)) => tv.token is Identifier,
        _ => false,
    })
    &&& (match step8.out {
        Some(Ok(tv)) => tv.token is Semicolon,
        _ => false,
    })
    &&& (match step9.out {
        Some(Ok(tv)) => tv.token is BeginKeyword,
        _ => false,
    })
}

/// The next tokens of the source read `program <name> ; var <x> : <ty> ;
/// <x> : <ty2> ; begin <x> := <literal> ; end .`: a program whose var
/// section declares the same name twice and whose one statement assigns a
/// literal, of a type the first declaration accepts, to that name.
pub open spec fn spec_scenario_redeclaration_ahead(pre: Parser) -> bool {
    let s = pre.lexer.text();
    let step1 = crate::lexer::spec_next_token(s, pre.lexer.idx());
    let step2 = crate::lexer::spec_next_token(s, step1.next);
    let step3 = crate::lexer::spec_next_token(s, step2.next);
    let step4 = crate::lexer::spec_next_token(s, step3.next);
    let step5 = crate::lexer::spec_next_token(s, step4.next);
    let step6 = crate::lexer::spec_next_token(s, step5.next);
    let step7 = crate::lexer::spec_next_token(s, step6.next);
    let step8 = crate::lexer::spec_next_token(s, step7.next);
    let step9 = crate::lexer::spec_next_token(s, step8.next);
    let step10 = crate::lexer::spec_next_token(s, step9.next);
    let step11 = crate::lexer::spec_next_token(s, step10.next);
    let step12 = crate::lexer::spec_next_token(s, step11.next);
    let step13 = crate::lexer::spec_next_token(s, step12.next);
    let step14 = crate::lexer::spec_next_token(s, step13.next);
    let step15 = crate::lexer::spec_next_token(s, step14.next);
    let step16 = crate::lexer::spec_next_token(s, step15.next);
    let step17 = crate::lexer::spec_next_token(s, step16.next);
    let step18 = crate::lexer::spec_next_token(s, step17.next);
    &&& (match pre.current_token {
        Some(Ok(t)) => t.token is ProgramKeyword,
        _ => false,
    })
    &&& (match step1.out {
        Some(Ok(tv)) => tv.token is Identifier,
        _ => false,
    })
    &&& (match step2.out {
        Some(Ok(tv)) => tv.token is Semicolon,
        _ => false,
    })
    &&& (match step3.out {
        Some(Ok(tv)) => tv.token is VarKeyword,
        _ => false,
    })
    &&& (match step4.out {
        Some(Ok(tv)) => tv.token is Identifier,
        _ => false,
    })
    &&& (match step5.out {
        Some(Ok(tv)) => tv.token is Colon,
        _ => false,
    })
    &&& (match step6.out {
        Some(Ok(tv)) => tv.token is Identifier,
        _ => false,
    })
    &&& (match step7.out {
        Some(Ok(tv)) => tv.token is Semicolon,
        _ => false,
    })
    &&& (match (step8.out, step4.out) {
        (Some(Ok(tv8)), Some(Ok(tv4))) => match (tv8.token, tv4.token) {
            (
                crate::token::TokenTypeView::Identifier(again),
                crate::token::TokenTypeView::Identifier(first),
            ) => again == first,
            _ => false,
        },
        _ => false,
    })
    &&& (match step9.out {
        Some(Ok(tv)) => tv.token is Colon,
        _ => false,
    })
    &&& (match step10.out {
        Some(Ok(tv)) => tv.token is Identifier,
        _ => false,
    })
    &&& (match step11.out {
        Some(Ok(tv)) => tv.token is Semicolon,
        _ => false,
    })
    &&& (match step12.out {
        Some(Ok(tv)) => tv.token is BeginKeyword,
        _ => false,
    })
    &&& (match (step13.out, step4.out) {
        (Some(Ok(tv13)), Some(Ok(tv4))) => match (tv13.token, tv4.token) {
            (
                crate::token::TokenTypeView::Identifier(target),
                crate::token::TokenTypeView::Identifier(declared),
            ) => target == declared,
            _ => false,
        },
        _ => false,
    })
    &&& (match step14.out {
        Some(Ok(tv)) => tv.token is AssignOp,
        _ => false,
    })
    &&& (match step15.out {
        Some(Ok(tv)) => tv.token is Integer || tv.token is Real,
        _ => false,
    })
    &&& (match step16.out {
        Some(Ok(tv)) => tv.token is Semicolon,
        _ => false,
    })
    &&& (match step17.out {
        Some(Ok(tv)) => tv.token is EndKeyword,
        _ => false,
    })
    &&& (match step18.out {
        Some(Ok(tv)) => tv.token is Period,
        _ => false,
    })
    &&& (match (step6.out, step15.out) {
        (Some(Ok(tv6)), Some(Ok(tv15))) => match tv6.token {
            crate::token::TokenTypeView::Identifier(ty) => crate::analyzer::spec_merge(
                ty,
                if tv15.token is Integer {
                    "integer"@
                } else {
                    "real"@
                },
                true,
            ) is Some,
            _ => false,
        },
        _ => false,
    })
}

/// What the parser guarantees of every statement it hands back: an
/// assignment's target resolves to a variable whose type accepts the value's
/// type under a strong merge, and a condition resolves to boolean.
pub open spec fn spec_statement_wf(st: Statement, scopes: crate::analyzer::ScopeSeq) -> bool {
    match st {
        Statement::Simple(a) => match crate::analyzer::spec_find(
            scopes,
            crate::syntax::spec_get_id(a.name),
        ) {
            Some(crate::scope::UsageView::Variable(s)) => crate::analyzer::spec_merge(
                s,
                crate::syntax::spec_expr_type(a.value),
                true,
            ) is Some,
            _ => false,
        },
        Statement::Cond(i) => crate::syntax::spec_expr_type(i.condition) == "boolean"@,
        Statement::While(w) => crate::syntax::spec_expr_type(*w.condition) == "boolean"@,
    }
}

/// The recursive-descent parser: pulls tokens from the lexer one at a time,
/// keeps one token of lookahead, asks the analyzer about every declaration
/// and identifier use, and collects recoverable errors in order.
pub struct Parser {
    pub lexer: Lexer,
    pub current_token: Option<Result<Token, CompilerError>>,
    pub current_pos: Position,
    pub errors: Vec<CompilerError>,
    pub analyzer: Analyzer,
}

impl Parser {
    pub open spec fn inv(self) -> bool {
        &&& self.lexer.inv()
        &&& self.analyzer.inv()
        &&& match self.current_token {
            Some(Err(e)) => e.err_type == ErrorType::Lexical,
            _ => true,
        }
    }

    /// How much input is left: characters the lexer has not consumed, plus
    /// one for an unconsumed lookahead item. Every token the parser takes
    /// makes this strictly smaller.
    pub open spec fn remaining(self) -> int {
        self.lexer.text().len() - self.lexer.idx() + if self.current_token is Some {
            1int
        } else {
            0int
        }
    }

    /// What every parsing step preserves: the source text, the already
    /// collected errors (new ones are only appended), and the input measure
    /// never grows.
    pub open spec fn spec_frame(pre: Parser, post: Parser) -> bool {
        &&& post.lexer.text() == pre.lexer.text()
        &&& post.remaining() <= pre.remaining()
        &&& pre.errors@.is_prefix_of(post.errors@)
    }

    pub fn new(lexer: Lexer) -> (r: Self)
        requires
            lexer.inv(),
        ensures
            r.inv(),
            r.lexer.text() == lexer.text(),
            r.errors@ == Seq::<CompilerError>::empty(),
            r.analyzer@ =~= seq![crate::scope::spec_base_scope()],
            ({
                let step = crate::lexer::spec_next_token(lexer.text(), lexer.idx());
                &&& r.lexer.idx() == step.next
                &&& spec_lookahead_view(r.current_token) == step.out
                &&& (match step.out {
                    Some(Ok(tv)) => r.current_pos == tv.pos,
                    _ => r.current_pos == (Position { line: 1, col: 1 }),
                })
            }),
    {
        let mut parser = Self {
            lexer,
            current_token: None,
            current_pos: Position::new(1, 1),
            errors: Vec::new(),
            analyzer: Analyzer::new(),
        };
        parser.advance();
        parser
    }

    /// Pull the next token into the lookahead slot.
    fn advance(&mut self)
        requires
            old(self).inv(),
        ensures
            final(self).inv(),
            final(self).lexer.text() == old(self).lexer.text(),
            final(self).analyzer == old(self).analyzer,
            final(self).errors == old(self).errors,
            final(self).remaining() <= old(self).remaining(),
            old(self).current_token is Some ==> final(self).remaining() < old(self).remaining(),
            spec_took_one(*old(self), *final(self)),
    {
        proof {
            crate::lexer::lemma_next_token_err_kind(self.lexer.text(), self.lexer.idx());
        }
        let res = self.lexer.next_token();
        match &res {
            Some(Ok(t)) => {
                self.current_pos = t.pos;
            },
            _ => {},
        }
        self.current_token = res;
    }

    /// Take the current item when it is a well-formed identifier token;
    /// any other token is consumed and reported as a syntax error.
    fn parse_identifier(&mut self) -> (r: Result<Identifier, CompilerError>)
        requires
            old(self).inv(),
        ensures
            final(self).inv(),
            Self::spec_frame(*old(self), *final(self)),
            final(self).analyzer == old(self).analyzer,
            final(self).errors == old(self).errors,
            r matches Err(e) ==> e.err_type != ErrorType::Semantic,
            match r {
                Ok(id) => id.wf() && final(self).remaining() < old(self).remaining(),
                Err(_) => final(self).remaining() < old(self).remaining() || (old(
                    self,
                ).current_token is None && *final(self) == *old(self)),
            },
            match old(self).current_token {
                Some(Ok(t)) => spec_took_one(*old(self), *final(self)) && if t.token
                    is Identifier {
                    r matches Ok(id) && id.id == t
                } else {
                    r matches Err(e) && e.err_type == ErrorType::Syntax && e.description@
                        == "Expected identifier"@ && e.pos == t.pos
                },
                Some(Err(le)) => r matches Err(e) && e@ == le@ && spec_took_one(
                    *old(self),
                    *final(self),
                ),
                None => r matches Err(e) && e.err_type == ErrorType::Syntax && e.pos == old(
                    self,
                ).current_pos && *final(self) == *old(self),
            },
    {
        match &self.current_token {
            Some(Ok(t)) => {
                if matches!(t.token, TokenType::Identifier(_)) {
                    let tok = t.clone();
                    self.advance();
                    Ok(Identifier { id: tok })
                } else {
                    let e = CompilerError::syntax(
                        String::from_str("Expected identifier"),
                        t.pos,
                    );
                    self.advance();
                    Err(e)
                }
            },
            Some(Err(e)) => {
                let e2 = e.clone();
                self.advance();
                Err(e2)
            },
            None => Err(
                CompilerError::syntax(String::from_str("Unexpected EOF"), self.current_pos),
            ),
        }
    }

    /// Require and consume a `;`; it is a structural separator and is not
    /// kept in the tree.
    fn parse_semicolon(&mut self) -> (r: Result<(), CompilerError>)
        requires
            old(self).inv(),
        ensures
            final(self).inv(),
            Self::spec_frame(*old(self), *final(self)),
            final(self).analyzer == old(self).analyzer,
            final(self).errors == old(self).errors,
            r matches Err(e) ==> e.err_type != ErrorType::Semantic,
            r is Ok ==> final(self).remaining() < old(self).remaining(),
            match old(self).current_token {
                Some(Ok(t)) => spec_took_one(*old(self), *final(self)) && if t.token
                    is Semicolon {
                    r is Ok
                } else {
                    r matches Err(e) && e.err_type == ErrorType::Syntax && e.description@
                        == "Expected ';'"@ && e.pos == t.pos
                },
                Some(Err(le)) => r matches Err(e) && e@ == le@ && spec_took_one(
                    *old(self),
                    *final(self),
                ),
                None => r matches Err(e) && e.err_type == ErrorType::Syntax && e.pos == old(
                    self,
                ).current_pos && *final(self) == *old(self),
            },
    {
        match &self.current_token {
            Some(Ok(t)) => {
                if matches!(t.token, TokenType::Semicolon) {
                    self.advance();
                    Ok(())
                } else {
                    let e = CompilerError::syntax(String::from_str("Expected ';'"), t.pos);
                    self.advance();
                    Err(e)
                }
            },
            Some(Err(e)) => {
                let e2 = e.clone();
                self.advance();
                Err(e2)
            },
            None => Err(
                CompilerError::syntax(String::from_str("Unexpected EOF"), self.current_pos),
            ),
        }
    }

    /// Require and consume the final `.` of a program.
    fn parse_period(&mut self) -> (r: Result<(), CompilerError>)
        requires
            old(self).inv(),
        ensures
            final(self).inv(),
            Self::spec_frame(*old(self), *final(self)),
            final(self).analyzer == old(self).analyzer,
            final(self).errors == old(self).errors,
            r matches Err(e) ==> e.err_type != ErrorType::Semantic,
            match old(self).current_token {
                Some(Ok(t)) => spec_took_one(*old(self), *final(self)) && if t.token is Period {
                    r is Ok
                } else {
                    r matches Err(e) && e.err_type == ErrorType::Syntax && e.description@
                        == "Expected '.'"@ && e.pos == t.pos
                },
                Some(Err(le)) => r matches Err(e) && e@ == le@ && spec_took_one(
                    *old(self),
                    *final(self),
                ),
                None => r matches Err(e) && e.err_type == ErrorType::Syntax && e.pos == old(
                    self,
                ).current_pos && *final(self) == *old(self),
            },
    {
        match &self.current_token {
            Some(Ok(t)) => {
                if matches!(t.token, TokenType::Period) {
                    self.advance();
                    Ok(())
                } else {
                    let e = CompilerError::syntax(String::from_str("Expected '.'"), t.pos);
                    self.advance();
                    Err(e)
                }
            },
            Some(Err(e)) => {
                let e2 = e.clone();
                self.advance();
                Err(e2)
            },
            None => Err(
                CompilerError::syntax(String::from_str("Unexpected EOF"), self.current_pos),
            ),
        }
    }

    /// Consume an additive operator `+ - or`.
    fn parse_additive_op(&mut self) -> (r: Result<AdditiveOp, CompilerError>)
        requires
            old(self).inv(),
        ensures
            final(self).inv(),
            Self::spec_frame(*old(self), *final(self)),
            final(self).analyzer == old(self).analyzer,
            final(self).errors == old(self).errors,
            r is Ok ==> final(self).remaining() < old(self).remaining(),
            match old(self).current_token {
                Some(Ok(t)) => if spec_is_add_op(t.token) {
                    r matches Ok(op) && spec_took_one(*old(self), *final(self)) && (match op {
                        AdditiveOp::Plus => t.token is PlusOp,
                        AdditiveOp::Minus => t.token is MinusOp,
                        AdditiveOp::Or => t.token is OrOp,
                    })
                } else {
                    r matches Err(e) && e.err_type == ErrorType::Syntax && e.pos == t.pos
                        && *final(self) == *old(self)
                },
                Some(Err(le)) => r matches Err(e) && e@ == le@ && spec_took_one(
                    *old(self),
                    *final(self),
                ),
                None => r matches Err(e) && e.err_type == ErrorType::Syntax && e.pos == old(
                    self,
                ).current_pos && *final(self) == *old(self),
            },
    {
        match &self.current_token {
            Some(Ok(t)) => {
                let pos = t.pos;
                match t.token {
                    TokenType::PlusOp => {
                        self.advance();
                        Ok(AdditiveOp::Plus)
                    },
                    TokenType::MinusOp => {
                        self.advance();
                        Ok(AdditiveOp::Minus)
                    },
                    TokenType::OrOp => {
                        self.advance();
                        Ok(AdditiveOp::Or)
                    },
                    _ => Err(
                        CompilerError::syntax(
                            String::from_str("Expected additive operator"),
                            pos,
                        ),
                    ),
                }
            },
            Some(Err(e)) => {
                let e2 = e.clone();
                self.advance();
                Err(e2)
            },
            None => Err(
                CompilerError::syntax(String::from_str("Unexpected EOF"), self.current_pos),
            ),
        }
    }

    /// Consume a multiplicative operator `* div mod and`.
    fn parse_multiplicative_op(&mut self) -> (r: Result<MultiplicativeOp, CompilerError>)
        requires
            old(self).inv(),
        ensures
            final(self).inv(),
            Self::spec_frame(*old(self), *final(self)),
            final(self).analyzer == old(self).analyzer,
            final(self).errors == old(self).errors,
            r is Ok ==> final(self).remaining() < old(self).remaining(),
            match old(self).current_token {
                Some(Ok(t)) => if spec_is_mul_op(t.token) {
                    r matches Ok(op) && spec_took_one(*old(self), *final(self)) && (match op {
                        MultiplicativeOp::Mul => t.token is MulOp,
                        MultiplicativeOp::Div => t.token is DivOp,
                        MultiplicativeOp::Mod => t.token is ModOp,
                        MultiplicativeOp::And => t.token is AndOp,
                    })
                } else {
                    r matches Err(e) && e.err_type == ErrorType::Syntax && e.pos == t.pos
                        && *final(self) == *old(self)
                },
                Some(Err(le)) => r matches Err(e) && e@ == le@ && spec_took_one(
                    *old(self),
                    *final(self),
                ),
                None => r matches Err(e) && e.err_type == ErrorType::Syntax && e.pos == old(
                    self,
                ).current_pos && *final(self) == *old(self),
            },
    {
        match &self.current_token {
            Some(Ok(t)) => {
                let pos = t.pos;
                match t.token {
                    TokenType::MulOp => {
                        self.advance();
                        Ok(MultiplicativeOp::Mul)
                    },
                    TokenType::DivOp => {
                        self.advance();
                        Ok(MultiplicativeOp::Div)
                    },
                    TokenType::ModOp => {
                        self.advance();
                        Ok(MultiplicativeOp::Mod)
                    },
                    TokenType::AndOp => {
                        self.advance();
                        Ok(MultiplicativeOp::And)
                    },
                    _ => Err(
                        CompilerError::syntax(
                            String::from_str("Expected *, div, mod or and"),
                            pos,
                        ),
                    ),
                }
            },
            Some(Err(e)) => {
                let e2 = e.clone();
                self.advance();
                Err(e2)
            },
            None => Err(
                CompilerError::syntax(String::from_str("Unexpected EOF"), self.current_pos),
            ),
        }
    }

    /// Consume a relational operator `= <> < <= > >=`.
    fn parse_relational_op(&mut self) -> (r: Result<RelationalOp, CompilerError>)
        requires
            old(self).inv(),
        ensures
            final(self).inv(),
            Self::spec_frame(*old(self), *final(self)),
            final(self).analyzer == old(self).analyzer,
            final(self).errors == old(self).errors,
            r is Ok ==> final(self).remaining() < old(self).remaining(),
            match old(self).current_token {
                Some(Ok(t)) => if spec_is_rel_op(t.token) {
                    r matches Ok(op) && spec_took_one(*old(self), *final(self)) && (match op {
                        RelationalOp::Less => t.token is Less,
                        RelationalOp::Bigger => t.token is Bigger,
                        RelationalOp::LessEq => t.token is LessEq,
                        RelationalOp::BiggerEq => t.token is BiggerEq,
                        RelationalOp::Eq => t.token is Eq,
                        RelationalOp::UnEq => t.token is UnEq,
                    })
                } else {
                    r matches Err(e) && e.err_type == ErrorType::Syntax && e.pos == t.pos
                        && *final(self) == *old(self)
                },
                Some(Err(le)) => r matches Err(e) && e@ == le@ && spec_took_one(
                    *old(self),
                    *final(self),
                ),
                None => r matches Err(e) && e.err_type == ErrorType::Syntax && e.pos == old(
                    self,
                ).current_pos && *final(self) == *old(self),
            },
    {
        match &self.current_token {
            Some(Ok(t)) => {
                let pos = t.pos;
                match t.token {
                    TokenType::Less => {
                        self.advance();
                        Ok(RelationalOp::Less)
                    },
                    TokenType::Bigger => {
                        self.advance();
                        Ok(RelationalOp::Bigger)
                    },
                    TokenType::LessEq => {
                        self.advance();
                        Ok(RelationalOp::LessEq)
                    },
                    TokenType::BiggerEq => {
                        self.advance();
                        Ok(RelationalOp::BiggerEq)
                    },
                    TokenType::Eq => {
                        self.advance();
                        Ok(RelationalOp::Eq)
                    },
                    TokenType::UnEq => {
                        self.advance();
                        Ok(RelationalOp::UnEq)
                    },
                    _ => Err(
                        CompilerError::syntax(
                            String::from_str("Expected relational operator"),
                            pos,
                        ),
                    ),
                }
            },
            Some(Err(e)) => {
                let e2 = e.clone();
                self.advance();
                Err(e2)
            },
            None => Err(
                CompilerError::syntax(String::from_str("Unexpected EOF"), self.current_pos),
            ),
        }
    }

    /// Parse a factor: an integer or real literal, an identifier reference
    /// checked against the scope stack, or a parenthesized expression whose
    /// closing parenthesis this function consumes.
    fn parse_factor(&mut self) -> (r: Result<Factor, CompilerError>)
        requires
            old(self).inv(),
        ensures
            final(self).inv(),
            Self::spec_frame(*old(self), *final(self)),
            final(self).analyzer == old(self).analyzer,
            final(self).errors == old(self).errors,
            r matches Ok(f) ==> final(self).remaining() < old(self).remaining()
                && crate::analyzer::spec_factor_usage(f, final(self).analyzer@) is Some
                && spec_factor_tie(old(self).current_token, f),
            match old(self).current_token {
                Some(Ok(t)) => match t.token {
                    TokenType::Integer(_) => r matches Ok(f) && f == Factor::Integer(t)
                        && spec_took_one(*old(self), *final(self)),
                    TokenType::Real(_) => r matches Ok(f) && f == Factor::Real(t)
                        && spec_took_one(*old(self), *final(self)),
                    TokenType::Identifier(_) => spec_took_one(*old(self), *final(self)) && (
                    match r {
                        Ok(f) => f == Factor::Identifier((Identifier { id: t }))
                            && crate::analyzer::spec_find(
                            old(self).analyzer@,
                            crate::syntax::spec_get_id((Identifier { id: t })),
                        ) is Some,
                        Err(e) => crate::analyzer::spec_find(
                            old(self).analyzer@,
                            crate::syntax::spec_get_id((Identifier { id: t })),
                        ) is None && e.err_type == ErrorType::Semantic && e.pos == t.pos,
                    }),
                    TokenType::LBrace => true,
                    _ => r matches Err(e) && e.err_type == ErrorType::Syntax && e.pos == t.pos
                        && spec_took_one(*old(self), *final(self)),
                },
                Some(Err(le)) => r matches Err(e) && e@ == le@ && spec_took_one(
                    *old(self),
                    *final(self),
                ),
                None => r matches Err(e) && e.err_type == ErrorType::Syntax && e.pos == old(
                    self,
                ).current_pos && *final(self) == *old(self),
            },
            spec_paren_literal_ahead(*old(self)) ==> ({
                let s = old(self).lexer.text();
                let step1 = crate::lexer::spec_next_token(s, old(self).lexer.idx());
                let step2 = crate::lexer::spec_next_token(s, step1.next);
                let step3 = crate::lexer::spec_next_token(s, step2.next);
                &&& r matches Ok(f) && f is Expression
                &&& final(self).lexer.idx() == step3.next
                &&& spec_lookahead_view(final(self).current_token) == step3.out
                &&& final(self).errors == old(self).errors
            }),
        decreases old(self).remaining(), 1int,
    {
        match &self.current_token {
            Some(Ok(t)) => {
                match &t.token {
                    TokenType::Integer(_) => {
                        let tok = t.clone();
                        self.advance();
                        Ok(Factor::Integer(tok))
                    },
                    TokenType::Real(_) => {
                        let tok = t.clone();
                        self.advance();
                        Ok(Factor::Real(tok))
                    },
                    TokenType::Identifier(_) => {
                        let id = Identifier { id: t.clone() };
                        let found = self.analyzer.find_identifier(&id);
                        self.advance();
                        match found {
                            Ok(_) => Ok(Factor::Identifier(id)),
                            Err(e) => Err(e),
                        }
                    },
                    TokenType::LBrace => {
                        self.advance();
                        let inner = self.parse_expression()?;
                        match &self.current_token {
                            Some(Ok(t2)) => {
                                if matches!(t2.token, TokenType::RBrace) {
                                    self.advance();
                                    Ok(Factor::Expression(Box::new(inner)))
                                } else {
                                    Err(
                                        CompilerError::syntax(
                                            String::from_str("Expected closing brace"),
                                            t2.pos,
                                        ),
                                    )
                                }
                            },
                            Some(Err(e)) => {
                                let e2 = e.clone();
                                self.advance();
                                Err(e2)
                            },
                            None => Err(
                                CompilerError::syntax(
                                    String::from_str("Unexpected EOF"),
                                    self.current_pos,
                                ),
                            ),
                        }
                    },
                    _ => {
                        let e = CompilerError::syntax(
                            String::from_str("Expected int or real literal"),
                            t.pos,
                        );
                        self.advance();
                        Err(e)
                    },
                }
            },
            Some(Err(e)) => {
                let e2 = e.clone();
                self.advance();
                Err(e2)
            },
            None => Err(
                CompilerError::syntax(
                    String::from_str("Expected int or real, found EOF"),
                    self.current_pos,
                ),
            ),
        }
    }

    /// Parse a term: a factor followed by any number of multiplicative
    /// continuations, resolving the term's type bottom-up with widening
    /// merges.
    fn parse_term(&mut self) -> (r: Result<Term, CompilerError>)
        requires
            old(self).inv(),
        ensures
            final(self).inv(),
            Self::spec_frame(*old(self), *final(self)),
            final(self).analyzer == old(self).analyzer,
            final(self).errors == old(self).errors,
            r matches Ok(t) ==> final(self).remaining() < old(self).remaining()
                && crate::analyzer::spec_term_type(t, final(self).analyzer@) == Some(
                t.term_type@,
            ) && spec_factor_tie(old(self).current_token, t.factor) && (
            match final(self).current_token {
                Some(Ok(tk)) => !spec_is_mul_op(tk.token),
                _ => true,
            }),
            spec_literal_term_ahead(*old(self)) ==> (r matches Ok(t) && t.tail@.len()
                == 0 && t.term_type@ == spec_lookahead_literal_type(*old(self)) && spec_took_one(
                *old(self),
                *final(self),
            )),
        decreases old(self).remaining(), 2int,
    {
        let pos = self.current_pos;
        let factor = self.parse_factor()?;
        let mut term_type = self.get_factor_value_type_of(&factor, pos)?;
        let ghost after_factor = *self;
        let mut tail: Vec<TermTail> = Vec::new();
        loop
            invariant
                self.inv(),
                self.lexer.text() == old(self).lexer.text(),
                self.analyzer == old(self).analyzer,
                self.errors == old(self).errors,
                self.remaining() < old(self).remaining(),
                old(self).errors@.is_prefix_of(self.errors@),
                spec_literal_term_ahead(*old(self)) ==> (tail@.len() == 0 && *self
                    == after_factor && spec_took_one(*old(self), after_factor)),
                spec_factor_tie(old(self).current_token, factor),
                crate::analyzer::spec_term_tail_type(
                    crate::analyzer::spec_factor_value_type(factor, self.analyzer@),
                    tail@,
                    self.analyzer@,
                ) == Some(term_type@),
            ensures
                (match self.current_token {
                    Some(Ok(tk)) => !spec_is_mul_op(tk.token),
                    _ => true,
                }),
            decreases self.remaining(),
        {
            let is_mul = match &self.current_token {
                Some(Ok(t)) => t.is_mul_op(),
                _ => false,
            };
            if !is_mul {
                break ;
            }
            let op_pos = self.current_pos;
            let op = self.parse_multiplicative_op()?;
            let f_pos = self.current_pos;
            let f2 = self.parse_factor()?;
            let ft = self.get_factor_value_type_of(&f2, f_pos)?;
            let merged = self.analyzer.merge_types(&term_type, &ft, op_pos, false)?;
            term_type = merged;
            let ghost old_tail = tail@;
            tail.push(TermTail { op, factor: f2 });
            proof {
                assert(tail@.drop_last() =~= old_tail);
            }
        }
        Ok(Term { factor, tail, term_type })
    }

    /// The value type of a factor, asked of the analyzer.
    fn get_factor_value_type_of(&self, f: &Factor, pos: Position) -> (r: Result<
        String,
        CompilerError,
    >)
        requires
            self.inv(),
        ensures
            match r {
                Ok(t) => crate::analyzer::spec_factor_value_type(*f, self.analyzer@) == Some(t@),
                Err(_) => crate::analyzer::spec_factor_value_type(*f, self.analyzer@) is None,
            },
    {
        self.analyzer.get_factor_value_type(f, pos)
    }

    /// Parse a simple expression: a term followed by any number of additive
    /// continuations, resolving the expression's type bottom-up with
    /// widening merges.
    fn parse_simple_expression(&mut self) -> (r: Result<SimpleExpression, CompilerError>)
        requires
            old(self).inv(),
        ensures
            final(self).inv(),
            Self::spec_frame(*old(self), *final(self)),
            final(self).analyzer == old(self).analyzer,
            final(self).errors == old(self).errors,
            r matches Ok(e) ==> final(self).remaining() < old(self).remaining()
                && crate::analyzer::spec_simple_type(e) == Some(e.expr_type@)
                && crate::analyzer::spec_term_type(e.term, final(self).analyzer@) == Some(
                e.term.term_type@,
            ) && spec_factor_tie(old(self).current_token, e.term.factor) && (
            match final(self).current_token {
                Some(Ok(tk)) => !spec_is_add_op(tk.token),
                _ => true,
            }),
            spec_literal_simple_ahead(*old(self)) ==> (r matches Ok(e) && e.tail@.len()
                == 0 && e.expr_type@ == spec_lookahead_literal_type(*old(self)) && spec_took_one(
                *old(self),
                *final(self),
            )),
        decreases old(self).remaining(), 3int,
    {
        let term = self.parse_term()?;
        let mut expr_type = term.term_type.clone();
        let ghost after_term = *self;
        let mut tail: Vec<SimpleTail> = Vec::new();
        loop
            invariant
                self.inv(),
                self.lexer.text() == old(self).lexer.text(),
                self.analyzer == old(self).analyzer,
                self.errors == old(self).errors,
                self.remaining() < old(self).remaining(),
                spec_literal_simple_ahead(*old(self)) ==> (tail@.len() == 0 && *self
                    == after_term && spec_took_one(*old(self), after_term)),
                spec_factor_tie(old(self).current_token, term.factor),
                crate::analyzer::spec_term_type(term, self.analyzer@) == Some(term.term_type@),
                crate::analyzer::spec_simple_tail_type(term.term_type@, tail@) == Some(
                    expr_type@,
                ),
            ensures
                (match self.current_token {
                    Some(Ok(tk)) => !spec_is_add_op(tk.token),
                    _ => true,
                }),
            decreases self.remaining(),
        {
            let is_add = match &self.current_token {
                Some(Ok(t)) => t.is_add_op(),
                _ => false,
            };
            if !is_add {
                break ;
            }
            let op_pos = self.current_pos;
            let op = self.parse_additive_op()?;
            let t2 = self.parse_term()?;
            let merged = self.analyzer.merge_types(&expr_type, &t2.term_type, op_pos, false)?;
            expr_type = merged;
            let ghost old_tail = tail@;
            tail.push(SimpleTail { op, term: t2 });
            proof {
                assert(tail@.drop_last() =~= old_tail);
            }
        }
        Ok(SimpleExpression { term, tail, expr_type })
    }

    /// Parse an expression: a simple expression, optionally compared to a
    /// second one by a relational operator; the two sides must merge
    /// strongly, and a comparison is of boolean type.
    ///
    /// Parenthesis handling is split across two levels on purpose: an
    /// expression nested inside parentheses simply stops at the closing
    /// parenthesis, because `)` continues no term or expression, and never
    /// consumes it; the enclosing `parse_factor`, which consumed the `(`,
    /// checks for the `)` and consumes it. Each parenthesis is thus consumed
    /// exactly once.
    fn parse_expression(&mut self) -> (r: Result<Expression, CompilerError>)
        requires
            old(self).inv(),
        ensures
            final(self).inv(),
            Self::spec_frame(*old(self), *final(self)),
            final(self).analyzer == old(self).analyzer,
            final(self).errors == old(self).errors,
            r matches Ok(e) ==> final(self).remaining() < old(self).remaining()
                && spec_factor_tie(
                old(self).current_token,
                match e {
                    Expression::Simple(s) => s.term.factor,
                    Expression::Relational(rel) => rel.first.term.factor,
                },
            ) && (e is Simple ==> (match final(self).current_token {
                Some(Ok(tk)) => !spec_is_rel_op(tk.token),
                _ => true,
            })) && (match e {
                Expression::Simple(s) => crate::analyzer::spec_simple_type(s) == Some(
                    s.expr_type@,
                ),
                Expression::Relational(rel) => {
                    &&& crate::analyzer::spec_simple_type(rel.first) == Some(rel.first.expr_type@)
                    &&& crate::analyzer::spec_simple_type(rel.second) == Some(
                        rel.second.expr_type@,
                    )
                    &&& crate::analyzer::spec_merge(
                        rel.first.expr_type@,
                        rel.second.expr_type@,
                        true,
                    ) is Some
                },
            }),
            spec_literal_expr_ahead(*old(self)) ==> (r matches Ok(e) && e matches
                Expression::Simple(se) && se.expr_type@ == spec_lookahead_literal_type(
                *old(self),
            ) && spec_took_one(*old(self), *final(self))),
            spec_literal_relation_ahead(*old(self)) ==> (match crate::analyzer::spec_merge(
                spec_lookahead_literal_type(*old(self)),
                spec_second_literal_type(*old(self)),
                true,
            ) {
                Some(_) => r matches Ok(e) && e is Relational,
                None => r matches Err(er) && er.err_type == ErrorType::Semantic
                    && er.description@ == "Type mismatch"@ && (match spec_follow(*old(self)) {
                    Some(Ok(tv)) => er.pos == tv.pos,
                    _ => false,
                }),
            }),
        decreases old(self).remaining(), 4int,
    {
        let first = self.parse_simple_expression()?;
        let is_rel = match &self.current_token {
            Some(Ok(t)) => t.is_rel_op(),
            _ => false,
        };
        if is_rel {
            let op_pos = self.current_pos;
            let op = self.parse_relational_op()?;
            let second = self.parse_simple_expression()?;
            let _ = self.analyzer.merge_types(
                &first.expr_type,
                &second.expr_type,
                op_pos,
                true,
            )?;
            Ok(Expression::Relational(RelationalExpression { first, op, second }))
        } else {
            Ok(Expression::Simple(first))
        }
    }

    /// Parse an assignment statement `name := expression ;` and validate it
    /// against the scope stack: the target must be a declared variable and
    /// the value's type must merge strongly with its declared type.
    fn parse_assignment(&mut self) -> (r: Result<VarAssignment, CompilerError>)
        requires
            old(self).inv(),
            old(self).current_token matches Some(tk) && tk matches Ok(t) && t.token
                is Identifier,
        ensures
            final(self).inv(),
            Self::spec_frame(*old(self), *final(self)),
            final(self).analyzer == old(self).analyzer,
            final(self).errors == old(self).errors,
            final(self).remaining() < old(self).remaining(),
            r matches Ok(a) ==> spec_statement_wf(Statement::Simple(a), final(self).analyzer@)
                && (match old(self).current_token {
                Some(Ok(t)) => a.name.id == t,
                _ => false,
            }),
            spec_minimal_assignment_ahead(*old(self)) ==> ({
                let s = old(self).lexer.text();
                let step1 = crate::lexer::spec_next_token(s, old(self).lexer.idx());
                let step2 = crate::lexer::spec_next_token(s, step1.next);
                let step3 = crate::lexer::spec_next_token(s, step2.next);
                let step4 = crate::lexer::spec_next_token(s, step3.next);
                &&& (if spec_minimal_assignment_succeeds(*old(self)) {
                    r is Ok
                } else {
                    r matches Err(e) && e@ == spec_minimal_assignment_error(*old(self))
                })
                &&& final(self).errors == old(self).errors
                &&& final(self).analyzer == old(self).analyzer
                &&& final(self).lexer.idx() == step4.next
                &&& spec_lookahead_view(final(self).current_token) == step4.out
            }),
        decreases old(self).remaining(), 5int,
    {
        let id = self.parse_identifier()?;
        match &self.current_token {
            Some(Ok(t)) => {
                if !matches!(t.token, TokenType::AssignOp) {
                    return Err(CompilerError::syntax(String::from_str("Expected ':='"), t.pos));
                }
            },
            Some(Err(e)) => {
                let e2 = e.clone();
                self.advance();
                return Err(e2);
            },
            None => {
                return Err(
                    CompilerError::syntax(
                        String::from_str("Expected ':=', found EOF"),
                        self.current_pos,
                    ),
                );
            },
        }
        self.advance();
        let value = self.parse_expression()?;
        self.parse_semicolon()?;
        let a = self.analyzer.check_assignment(VarAssignment { name: id, value })?;
        Ok(a)
    }

    /// Parse `if condition then statement [else statement]`; the condition
    /// must resolve to boolean.
    fn parse_if(&mut self) -> (r: Result<IfStatement, CompilerError>)
        requires
            old(self).inv(),
            old(self).current_token matches Some(tk) && tk matches Ok(t) && t.token
                is IfKeyword,
        ensures
            final(self).inv(),
            Self::spec_frame(*old(self), *final(self)),
            final(self).analyzer == old(self).analyzer,
            final(self).errors == old(self).errors,
            final(self).remaining() < old(self).remaining(),
            r matches Ok(i) ==> crate::syntax::spec_expr_type(i.condition) == "boolean"@,
        decreases old(self).remaining(), 5int,
    {
        self.advance();
        let cond_pos = self.current_pos;
        let cond = self.parse_expression()?;
        self.analyzer.check_expr(&cond, "boolean", cond_pos)?;
        match &self.current_token {
            Some(Ok(t)) => {
                if !matches!(t.token, TokenType::ThenKeyword) {
                    return Err(
                        CompilerError::syntax(String::from_str("Expected 'then'"), t.pos),
                    );
                }
            },
            Some(Err(e)) => {
                let e2 = e.clone();
                self.advance();
                return Err(e2);
            },
            None => {
                return Err(
                    CompilerError::syntax(String::from_str("Unexpected EOF"), self.current_pos),
                );
            },
        }
        self.advance();
        let stmt = self.parse_statement()?;
        let else_statement = match &self.current_token {
            Some(Ok(t)) => {
                if matches!(t.token, TokenType::ElseKeyword) {
                    self.advance();
                    let s2 = self.parse_statement()?;
                    Some(Box::new(s2))
                } else {
                    None
                }
            },
            _ => None,
        };
        Ok(IfStatement { condition: cond, statement: Box::new(stmt), else_statement })
    }

    /// Parse `while condition do statement`; the condition must resolve to
    /// boolean.
    fn parse_while(&mut self) -> (r: Result<WhileLoop, CompilerError>)
        requires
            old(self).inv(),
            old(self).current_token matches Some(tk) && tk matches Ok(t) && t.token
                is WhileKeyword,
        ensures
            final(self).inv(),
            Self::spec_frame(*old(self), *final(self)),
            final(self).analyzer == old(self).analyzer,
            final(self).errors == old(self).errors,
            final(self).remaining() < old(self).remaining(),
            r matches Ok(w) ==> crate::syntax::spec_expr_type(*w.condition) == "boolean"@,
        decreases old(self).remaining(), 5int,
    {
        self.advance();
        let cond_pos = self.current_pos;
        let cond = self.parse_expression()?;
        self.analyzer.check_expr(&cond, "boolean", cond_pos)?;
        match &self.current_token {
            Some(Ok(t)) => {
                if !matches!(t.token, TokenType::DoKeyword) {
                    return Err(CompilerError::syntax(String::from_str("Expected 'do'"), t.pos));
                }
            },
            Some(Err(e)) => {
                let e2 = e.clone();
                self.advance();
                return Err(e2);
            },
            None => {
                return Err(
                    CompilerError::syntax(String::from_str("Unexpected EOF"), self.current_pos),
                );
            },
        }
        self.advance();
        let stmt = self.parse_statement()?;
        Ok(WhileLoop { condition: Box::new(cond), statement: Box::new(stmt) })
    }

    /// Parse one statement: an assignment, an `if`, or a `while`.
    fn parse_statement(&mut self) -> (r: Result<Statement, CompilerError>)
        requires
            old(self).inv(),
        ensures
            final(self).inv(),
            Self::spec_frame(*old(self), *final(self)),
            final(self).analyzer == old(self).analyzer,
            final(self).errors == old(self).errors,
            r matches Ok(st) ==> final(self).remaining() < old(self).remaining()
                && spec_statement_wf(st, final(self).analyzer@),
            r is Err ==> final(self).remaining() < old(self).remaining() || old(
                self,
            ).current_token is None,
            spec_minimal_assignment_ahead(*old(self)) ==> ({
                let s = old(self).lexer.text();
                let step1 = crate::lexer::spec_next_token(s, old(self).lexer.idx());
                let step2 = crate::lexer::spec_next_token(s, step1.next);
                let step3 = crate::lexer::spec_next_token(s, step2.next);
                let step4 = crate::lexer::spec_next_token(s, step3.next);
                &&& (if spec_minimal_assignment_succeeds(*old(self)) {
                    r matches Ok(st) && st is Simple
                } else {
                    r matches Err(e) && e@ == spec_minimal_assignment_error(*old(self))
                })
                &&& final(self).errors == old(self).errors
                &&& final(self).analyzer == old(self).analyzer
                &&& final(self).lexer.idx() == step4.next
                &&& spec_lookahead_view(final(self).current_token) == step4.out
            }),
            match old(self).current_token {
                Some(Ok(t)) => match t.token {
                    TokenType::Identifier(_) => r matches Ok(st) ==> (st matches Statement::Simple(
                        a,
                    ) && a.name.id == t),
                    TokenType::IfKeyword => r matches Ok(st) ==> st is Cond,
                    TokenType::WhileKeyword => r matches Ok(st) ==> st is While,
                    _ => r matches Err(e) && e.err_type == ErrorType::Syntax && e.pos == old(
                        self,
                    ).current_pos,
                },
                Some(Err(le)) => r matches Err(e) && e@ == le@,
                None => r matches Err(e) && e.err_type == ErrorType::Syntax,
            },
        decreases old(self).remaining(), 6int,
    {
        let kind: u8 = match &self.current_token {
            Some(Ok(t)) => {
                if matches!(t.token, TokenType::Identifier(_)) {
                    0
                } else if matches!(t.token, TokenType::IfKeyword) {
                    1
                } else if matches!(t.token, TokenType::WhileKeyword) {
                    2
                } else {
                    3
                }
            },
            Some(Err(_)) => 4,
            None => 5,
        };
        if kind == 0 {
            let a = self.parse_assignment()?;
            Ok(Statement::Simple(a))
        } else if kind == 1 {
            let i = self.parse_if()?;
            Ok(Statement::Cond(i))
        } else if kind == 2 {
            let w = self.parse_while()?;
            Ok(Statement::While(w))
        } else if kind == 4 {
            let e = match &self.current_token {
                Some(Err(e)) => e.clone(),
                _ => CompilerError::syntax(String::from_str("Illegal statement"), self.current_pos),
            };
            self.advance();
            Err(e)
        } else if kind == 3 {
            let e = CompilerError::syntax(String::from_str("Illegal statement"), self.current_pos);
            self.advance();
            Err(e)
        } else {
            Err(CompilerError::syntax(String::from_str("Illegal statement"), self.current_pos))
        }
    }

    /// Parse a compound block `begin statement* end`. A statement that fails
    /// is reported and the parser resynchronizes at the next statement
    /// starter; reaching the end of input before `end` is fatal.
    fn parse_compound(&mut self) -> (r: Result<Compound, CompilerError>)
        requires
            old(self).inv(),
        ensures
            final(self).inv(),
            Self::spec_frame(*old(self), *final(self)),
            final(self).analyzer == old(self).analyzer,
            r matches Err(e) ==> e.err_type != ErrorType::Semantic,
            r matches Ok(c) ==> (match old(self).current_token {
                Some(Ok(t)) => t.token is BeginKeyword,
                _ => false,
            }) && forall|k: int|
                0 <= k < c.statements@.len() ==> spec_statement_wf(
                    #[trigger] c.statements@[k],
                    final(self).analyzer@,
                ),
            match old(self).current_token {
                Some(Ok(t)) => t.token is BeginKeyword || (r matches Err(e) && e.err_type
                    == ErrorType::Syntax && e.pos == t.pos && *final(self) == *old(self)),
                Some(Err(le)) => r matches Err(e) && e@ == le@,
                None => r matches Err(e) && e.err_type == ErrorType::Syntax && e.pos == old(
                    self,
                ).current_pos && *final(self) == *old(self),
            },
            ({
                let s = old(self).lexer.text();
                let step_end = crate::lexer::spec_next_token(s, old(self).lexer.idx());
                ((match old(self).current_token {
                    Some(Ok(t)) => t.token is BeginKeyword,
                    _ => false,
                }) && (match step_end.out {
                    Some(Ok(tv)) => tv.token is EndKeyword,
                    _ => false,
                })) ==> {
                    let step_after = crate::lexer::spec_next_token(s, step_end.next);
                    &&& r matches Ok(c) && c.statements@.len() == 0
                    &&& final(self).lexer.idx() == step_after.next
                    &&& spec_lookahead_view(final(self).current_token) == step_after.out
                    &&& final(self).errors == old(self).errors
                    &&& final(self).analyzer == old(self).analyzer
                }
            }),
            spec_one_statement_compound_ahead(*old(self)) ==> ({
                let s = old(self).lexer.text();
                let step1 = crate::lexer::spec_next_token(s, old(self).lexer.idx());
                let step2 = crate::lexer::spec_next_token(s, step1.next);
                let step3 = crate::lexer::spec_next_token(s, step2.next);
                let step4 = crate::lexer::spec_next_token(s, step3.next);
                let step5 = crate::lexer::spec_next_token(s, step4.next);
                let step6 = crate::lexer::spec_next_token(s, step5.next);
                &&& (if spec_compound_stmt_succeeds(*old(self)) {
                    r matches Ok(c) && c.statements@.len() == 1 && c.statements@[0] is Simple
                        && final(self).errors == old(self).errors
                } else {
                    r matches Ok(c) && c.statements@.len() == 0 && final(self).errors@.len()
                        == old(self).errors@.len() + 1 && final(self).errors@.last()@
                        == spec_compound_stmt_error(*old(self))
                })
                &&& final(self).analyzer == old(self).analyzer
                &&& final(self).lexer.idx() == step6.next
                &&& spec_lookahead_view(final(self).current_token) == step6.out
            }),
    {
        match &self.current_token {
            Some(Ok(t)) => {
                if !matches!(t.token, TokenType::BeginKeyword) {
                    return Err(
                        CompilerError::syntax(String::from_str("Expected 'begin'"), t.pos),
                    );
                }
            },
            Some(Err(e)) => {
                let e2 = e.clone();
                self.advance();
                return Err(e2);
            },
            None => {
                return Err(
                    CompilerError::syntax(String::from_str("Unexpected EOF"), self.current_pos),
                );
            },
        }
        self.advance();
        let ghost after_begin = *self;
        match &self.current_token {
            Some(Ok(t)) => {
                if matches!(t.token, TokenType::EndKeyword) {
                    self.advance();
                    return Ok(Compound { statements: Vec::new() });
                }
            },
            _ => {},
        }
        let mut statements: Vec<Statement> = Vec::new();
        loop
            invariant
                self.inv(),
                self.lexer.text() == old(self).lexer.text(),
                self.analyzer == old(self).analyzer,
                self.remaining() <= old(self).remaining(),
                old(self).errors@.is_prefix_of(self.errors@),
                old(self).current_token matches Some(tk) && tk matches Ok(t) && t.token
                    is BeginKeyword,
                !(match crate::lexer::spec_next_token(
                    old(self).lexer.text(),
                    old(self).lexer.idx(),
                ).out {
                    Some(Ok(tv)) => tv.token is EndKeyword,
                    _ => false,
                }),
                spec_one_statement_compound_ahead(*old(self)) ==> ({
                    let s = old(self).lexer.text();
                    let step1 = crate::lexer::spec_next_token(s, old(self).lexer.idx());
                    let step2 = crate::lexer::spec_next_token(s, step1.next);
                    let step3 = crate::lexer::spec_next_token(s, step2.next);
                    let step4 = crate::lexer::spec_next_token(s, step3.next);
                    let step5 = crate::lexer::spec_next_token(s, step4.next);
                    (statements@.len() == 0 && *self == after_begin && spec_took_one(
                        *old(self),
                        after_begin,
                    )) || (spec_compound_stmt_succeeds(*old(self)) && statements@.len() == 1
                        && statements@[0] is Simple && self.errors == old(self).errors
                        && self.analyzer == old(self).analyzer && self.lexer.idx() == step5.next
                        && spec_lookahead_view(self.current_token) == step5.out) || (
                    !spec_compound_stmt_succeeds(*old(self)) && statements@.len() == 0
                        && self.errors@.len() == old(self).errors@.len() + 1
                        && self.errors@.last()@ == spec_compound_stmt_error(*old(self))
                        && old(self).errors@.is_prefix_of(self.errors@) && self.analyzer == old(
                        self,
                    ).analyzer && self.lexer.idx() == step5.next && spec_lookahead_view(
                        self.current_token,
                    ) == step5.out)
                }),
                forall|k: int|
                    0 <= k < statements@.len() ==> spec_statement_wf(
                        #[trigger] statements@[k],
                        self.analyzer@,
                    ),
            decreases self.remaining(),
        {
            match &self.current_token {
                Some(Ok(t)) => {
                    if matches!(t.token, TokenType::EndKeyword) {
                        self.advance();
                        return Ok(Compound { statements });
                    }
                },
                None => {
                    return Err(
                        CompilerError::syntax(
                            String::from_str("Unexpected EOF"),
                            self.current_pos,
                        ),
                    );
                },
                _ => {},
            }
            match self.parse_statement() {
                Ok(st) => {
                    statements.push(st);
                },
                Err(e) => {
                    self.errors.push(e);
                    self.skip_until_starters();
                },
            }
        }
    }

    /// Panic-mode recovery for the declaration loops: skip tokens until the
    /// start of another declaration, the start of a section or block, or the
    /// end of input, collecting the lexical errors passed over.
    fn resync_declarations(&mut self)
        requires
            old(self).inv(),
        ensures
            final(self).inv(),
            Self::spec_frame(*old(self), *final(self)),
            final(self).analyzer == old(self).analyzer,
            forall|k: int|
                old(self).errors@.len() <= k < final(self).errors@.len()
                    ==> (#[trigger] final(self).errors@[k]).err_type == ErrorType::Lexical,
            match final(self).current_token {
                None => true,
                Some(Ok(t)) => t.token is Identifier || t.token is VarKeyword || t.token
                    is BeginKeyword,
                Some(Err(_)) => false,
            },
    {
        loop
            invariant
                self.inv(),
                self.lexer.text() == old(self).lexer.text(),
                self.analyzer == old(self).analyzer,
                self.remaining() <= old(self).remaining(),
                old(self).errors@.is_prefix_of(self.errors@),
                forall|k: int|
                    old(self).errors@.len() <= k < self.errors@.len()
                        ==> (#[trigger] self.errors@[k]).err_type == ErrorType::Lexical,
            decreases self.remaining(),
        {
            match &self.current_token {
                Some(Ok(t)) => {
                    if matches!(
                        t.token,
                        TokenType::Identifier(_) | TokenType::VarKeyword | TokenType::BeginKeyword,
                    ) {
                        return ;
                    }
                    self.advance();
                },
                Some(Err(e)) => {
                    let e2 = e.clone();
                    self.errors.push(e2);
                    self.advance();
                },
                None => {
                    return ;
                },
            }
        }
    }

    /// Parse one declaration line `name {, name} : type_name ;` and hand
    /// back one declaration per declared name, all sharing the type.
    fn parse_var_declaration(&mut self) -> (r: Result<Vec<VarDeclaration>, CompilerError>)
        requires
            old(self).inv(),
        ensures
            final(self).inv(),
            Self::spec_frame(*old(self), *final(self)),
            final(self).analyzer == old(self).analyzer,
            final(self).errors == old(self).errors,
            r matches Ok(v) ==> final(self).remaining() < old(self).remaining() && v@.len() >= 1
                && (match old(self).current_token {
                Some(Ok(t)) => t.token is Identifier && v@[0].id.id == t,
                _ => false,
            }) && forall|k: int|
                0 <= k < v@.len() ==> (#[trigger] v@[k]).id.wf() && v@[k].type_id.wf()
                    && v@[k].type_id == v@[0].type_id,
            r is Err ==> final(self).remaining() < old(self).remaining()
                || final(self).current_token is None,
            (match old(self).current_token {
                Some(Ok(t)) => !(t.token is Identifier),
                _ => true,
            }) ==> r is Err,
            r matches Err(e) ==> e.err_type != ErrorType::Semantic,
            spec_minimal_declaration_ahead(*old(self)) ==> ({
                let s = old(self).lexer.text();
                let step1 = crate::lexer::spec_next_token(s, old(self).lexer.idx());
                let step2 = crate::lexer::spec_next_token(s, step1.next);
                let step3 = crate::lexer::spec_next_token(s, step2.next);
                let step4 = crate::lexer::spec_next_token(s, step3.next);
                &&& r matches Ok(v) && v@.len() == 1 && (match step2.out {
                    Some(Ok(tv)) => v@[0].type_id.id@ == tv,
                    _ => false,
                })
                &&& final(self).errors == old(self).errors
                &&& final(self).analyzer == old(self).analyzer
                &&& final(self).lexer.idx() == step4.next
                &&& spec_lookahead_view(final(self).current_token) == step4.out
            }),
    {
        let mut ids: Vec<Identifier> = Vec::new();
        let id0 = self.parse_identifier()?;
        let ghost first_id = id0;
        let ghost after_first = *self;
        ids.push(id0);
        loop
            invariant
                self.inv(),
                self.lexer.text() == old(self).lexer.text(),
                self.analyzer == old(self).analyzer,
                self.errors == old(self).errors,
                self.remaining() < old(self).remaining(),
                old(self).errors@.is_prefix_of(self.errors@),
                ids@.len() >= 1,
                ids@[0] == first_id,
                spec_minimal_declaration_ahead(*old(self)) ==> (ids@.len() == 1 && *self
                    == after_first && spec_took_one(*old(self), after_first)),
                forall|k: int| 0 <= k < ids@.len() ==> (#[trigger] ids@[k]).wf(),
            decreases self.remaining(),
        {
            let at_comma = match &self.current_token {
                Some(Ok(t)) => matches!(t.token, TokenType::Comma),
                _ => false,
            };
            if !at_comma {
                break ;
            }
            self.advance();
            let id = self.parse_identifier()?;
            ids.push(id);
        }
        match &self.current_token {
            Some(Ok(t)) => {
                if !matches!(t.token, TokenType::Colon) {
                    return Err(CompilerError::syntax(String::from_str("Expected ':'"), t.pos));
                }
            },
            Some(Err(e)) => {
                let e2 = e.clone();
                self.advance();
                return Err(e2);
            },
            None => {
                return Err(
                    CompilerError::syntax(String::from_str("Unexpected EOF"), self.current_pos),
                );
            },
        }
        self.advance();
        let type_id = self.parse_identifier()?;
        self.parse_semicolon()?;
        let mut declarations: Vec<VarDeclaration> = Vec::new();
        let n = ids.len();
        let mut i: usize = 0;
        while i < n
            invariant
                n == ids@.len(),
                i <= n,
                n >= 1,
                type_id.wf(),
                forall|k: int| 0 <= k < ids@.len() ==> (#[trigger] ids@[k]).wf(),
                declarations@.len() == i,
                forall|k: int|
                    0 <= k < i ==> (#[trigger] declarations@[k]).id == ids@[k]
                        && declarations@[k].type_id == type_id,
            decreases n - i,
        {
            declarations.push(VarDeclaration { id: ids[i].clone(), type_id: type_id.clone() });
            i += 1;
        }
        Ok(declarations)
    }

    /// Parse the `var` section: declaration lines up to the `begin` of the
    /// program body, registering each declared name with the analyzer. A
    /// failed line or a redeclared name is reported and parsing resumes at
    /// the next restart point.
    fn parse_var_section(&mut self) -> (r: Result<VarSection, CompilerError>)
        requires
            old(self).inv(),
            old(self).current_token matches Some(tk) && tk matches Ok(t) && t.token
                is VarKeyword,
        ensures
            final(self).inv(),
            Self::spec_frame(*old(self), *final(self)),
            final(self).analyzer@.len() == old(self).analyzer@.len(),
            forall|i: int|
                0 <= i < old(self).analyzer@.len() - 1 ==> final(self).analyzer@[i] == old(
                    self,
                ).analyzer@[i],
            r matches Err(e) ==> e.err_type != ErrorType::Semantic,
            r is Ok ==> (match final(self).current_token {
                Some(Ok(t)) => t.token is BeginKeyword,
                _ => false,
            }),
            spec_empty_var_section_ahead(*old(self)) ==> (r matches Ok(v) && v.declarations@.len()
                == 0 && final(self).errors@.len() == old(self).errors@.len() + 1 && (
            match crate::lexer::spec_next_token(old(self).lexer.text(), old(self).lexer.idx()).out {
                Some(Ok(tv)) => final(self).errors@.last()@ == (crate::error::ErrorView {
                    description: "Expected identifier, found 'begin'"@,
                    pos: tv.pos,
                    err_type: ErrorType::Syntax,
                }),
                _ => false,
            })),
            r matches Ok(v) ==> forall|k: int|
                0 <= k < v.declarations@.len() ==> (#[trigger] v.declarations@[k]).id.wf()
                    && v.declarations@[k].type_id.wf() && final(self).analyzer@.last().contains_key(
                    crate::syntax::spec_get_id(v.declarations@[k].id),
                ),
            spec_one_line_var_section_ahead(*old(self)) ==> ({
                let s = old(self).lexer.text();
                let step1 = crate::lexer::spec_next_token(s, old(self).lexer.idx());
                let step2 = crate::lexer::spec_next_token(s, step1.next);
                let step3 = crate::lexer::spec_next_token(s, step2.next);
                let step4 = crate::lexer::spec_next_token(s, step3.next);
                let step5 = crate::lexer::spec_next_token(s, step4.next);
                &&& r matches Ok(v) && v.declarations@.len() == 1 && (match step1.out {
                    Some(Ok(tv)) => v.declarations@[0].id.id@ == tv,
                    _ => false,
                }) && (match step3.out {
                    Some(Ok(tv)) => v.declarations@[0].type_id.id@ == tv,
                    _ => false,
                })
                &&& final(self).errors == old(self).errors
                &&& final(self).analyzer@ =~= spec_one_line_section_scopes(*old(self))
                &&& final(self).lexer.idx() == step5.next
                &&& spec_lookahead_view(final(self).current_token) == step5.out
            }),
            spec_redeclared_section_ahead(*old(self)) ==> ({
                let s = old(self).lexer.text();
                let step1 = crate::lexer::spec_next_token(s, old(self).lexer.idx());
                let step2 = crate::lexer::spec_next_token(s, step1.next);
                let step3 = crate::lexer::spec_next_token(s, step2.next);
                let step4 = crate::lexer::spec_next_token(s, step3.next);
                let step5 = crate::lexer::spec_next_token(s, step4.next);
                let step6 = crate::lexer::spec_next_token(s, step5.next);
                let step7 = crate::lexer::spec_next_token(s, step6.next);
                let step8 = crate::lexer::spec_next_token(s, step7.next);
                let step9 = crate::lexer::spec_next_token(s, step8.next);
                &&& r matches Ok(v) && v.declarations@.len() == 1 && (match step1.out {
                    Some(Ok(tv)) => v.declarations@[0].id.id@ == tv,
                    _ => false,
                })
                &&& final(self).errors@.len() == old(self).errors@.len() + 1
                &&& (match (step1.out, step5.out) {
                    (Some(Ok(tv1)), Some(Ok(tv5))) => match tv1.token {
                        crate::token::TokenTypeView::Identifier(nm) => final(self).errors@.last()@
                            == (crate::error::ErrorView {
                            description: "Redeclaration of "@ + nm,
                            pos: tv5.pos,
                            err_type: ErrorType::Semantic,
                        }),
                        _ => false,
                    },
                    _ => false,
                })
                &&& final(self).analyzer@ =~= spec_one_line_section_scopes(*old(self))
                &&& final(self).lexer.idx() == step9.next
                &&& spec_lookahead_view(final(self).current_token) == step9.out
            }),
    {
        self.advance();
        let ghost after_var = *self;
        let mut declarations: Vec<VarDeclaration> = Vec::new();
        loop
            invariant
                self.inv(),
                self.lexer.text() == old(self).lexer.text(),
                self.analyzer@.len() == old(self).analyzer@.len(),
                forall|i: int|
                    0 <= i < old(self).analyzer@.len() - 1 ==> self.analyzer@[i] == old(
                        self,
                    ).analyzer@[i],
                self.remaining() < old(self).remaining(),
                old(self).errors@.is_prefix_of(self.errors@),
                spec_empty_var_section_ahead(*old(self)) ==> (*self == after_var
                    && spec_took_one(*old(self), after_var) && declarations@.len() == 0
                    && self.errors == old(self).errors),
                spec_one_line_var_section_ahead(*old(self)) ==> ({
                    let s = old(self).lexer.text();
                    let step1 = crate::lexer::spec_next_token(s, old(self).lexer.idx());
                    let step2 = crate::lexer::spec_next_token(s, step1.next);
                    let step3 = crate::lexer::spec_next_token(s, step2.next);
                    let step4 = crate::lexer::spec_next_token(s, step3.next);
                    let step5 = crate::lexer::spec_next_token(s, step4.next);
                    (*self == after_var && spec_took_one(*old(self), after_var)
                        && declarations@.len() == 0 && self.errors == old(self).errors) || (
                    declarations@.len() == 1 && (match step1.out {
                        Some(Ok(tv)) => declarations@[0].id.id@ == tv,
                        _ => false,
                    }) && (match step3.out {
                        Some(Ok(tv)) => declarations@[0].type_id.id@ == tv,
                        _ => false,
                    }) && self.errors == old(self).errors
                        && self.analyzer@ =~= spec_one_line_section_scopes(*old(self))
                        && self.lexer.idx() == step5.next && spec_lookahead_view(
                        self.current_token,
                    ) == step5.out)
                }),
                spec_redeclared_section_ahead(*old(self)) ==> ({
                    let s = old(self).lexer.text();
                    let step1 = crate::lexer::spec_next_token(s, old(self).lexer.idx());
                    let step2 = crate::lexer::spec_next_token(s, step1.next);
                    let step3 = crate::lexer::spec_next_token(s, step2.next);
                    let step4 = crate::lexer::spec_next_token(s, step3.next);
                    let step5 = crate::lexer::spec_next_token(s, step4.next);
                    let step6 = crate::lexer::spec_next_token(s, step5.next);
                    let step7 = crate::lexer::spec_next_token(s, step6.next);
                    let step8 = crate::lexer::spec_next_token(s, step7.next);
                    let step9 = crate::lexer::spec_next_token(s, step8.next);
                    (*self == after_var && spec_took_one(*old(self), after_var)
                        && declarations@.len() == 0 && self.errors == old(self).errors) || (
                    declarations@.len() == 1 && (match step1.out {
                        Some(Ok(tv)) => declarations@[0].id.id@ == tv,
                        _ => false,
                    }) && self.analyzer@ =~= spec_one_line_section_scopes(*old(self)) && ((
                    self.errors == old(self).errors && self.lexer.idx() == step5.next
                        && spec_lookahead_view(self.current_token) == step5.out) || (
                    self.errors@.len() == old(self).errors@.len() + 1 && (match (
                        step1.out,
                        step5.out,
                    ) {
                        (Some(Ok(tv1)), Some(Ok(tv5))) => match tv1.token {
                            crate::token::TokenTypeView::Identifier(nm) => self.errors@.last()@
                                == (crate::error::ErrorView {
                                description: "Redeclaration of "@ + nm,
                                pos: tv5.pos,
                                err_type: ErrorType::Semantic,
                            }),
                            _ => false,
                        },
                        _ => false,
                    }) && self.lexer.idx() == step9.next && spec_lookahead_view(
                        self.current_token,
                    ) == step9.out)))
                }),
                forall|k: int|
                    0 <= k < declarations@.len() ==> (#[trigger] declarations@[k]).id.wf()
                        && declarations@[k].type_id.wf() && self.analyzer@.last().contains_key(
                        crate::syntax::spec_get_id(declarations@[k].id),
                    ),
            decreases self.remaining(),
        {
            match &self.current_token {
                Some(Ok(t)) => {
                    if matches!(t.token, TokenType::BeginKeyword) {
                        if declarations.len() == 0 {
                            let e = CompilerError::syntax(
                                String::from_str("Expected identifier, found 'begin'"),
                                t.pos,
                            );
                            self.errors.push(e);
                        }
                        return Ok(VarSection { declarations });
                    }
                },
                None => {
                    return Err(
                        CompilerError::syntax(
                            String::from_str("Unexpected EOF"),
                            self.current_pos,
                        ),
                    );
                },
                _ => {},
            }
            match self.parse_var_declaration() {
                Ok(v) => {
                    let ghost rem_mid = self.remaining();
                    let m = v.len();
                    let mut j: usize = 0;
                    while j < m
                        invariant
                            self.inv(),
                            self.lexer.text() == old(self).lexer.text(),
                            self.analyzer@.len() == old(self).analyzer@.len(),
                            forall|i: int|
                                0 <= i < old(self).analyzer@.len() - 1 ==> self.analyzer@[i]
                                    == old(self).analyzer@[i],
                            self.remaining() == rem_mid,
                            rem_mid < old(self).remaining(),
                            old(self).errors@.is_prefix_of(self.errors@),
                            m == v@.len(),
                            j <= m,
                            spec_redeclared_section_ahead(*old(self)) ==> ({
                                let s = old(self).lexer.text();
                                let step1 = crate::lexer::spec_next_token(
                                    s,
                                    old(self).lexer.idx(),
                                );
                                let step2 = crate::lexer::spec_next_token(s, step1.next);
                                let step3 = crate::lexer::spec_next_token(s, step2.next);
                                let step4 = crate::lexer::spec_next_token(s, step3.next);
                                let step5 = crate::lexer::spec_next_token(s, step4.next);
                                let step6 = crate::lexer::spec_next_token(s, step5.next);
                                let step7 = crate::lexer::spec_next_token(s, step6.next);
                                let step8 = crate::lexer::spec_next_token(s, step7.next);
                                let step9 = crate::lexer::spec_next_token(s, step8.next);
                                &&& m == 1
                                &&& v@[0].id.wf() && v@[0].type_id.wf()
                                &&& (((match step1.out {
                                    Some(Ok(tv)) => v@[0].id.id@ == tv,
                                    _ => false,
                                }) && (match step3.out {
                                    Some(Ok(tv)) => v@[0].type_id.id@ == tv,
                                    _ => false,
                                }) && self.lexer.idx() == step5.next && spec_lookahead_view(
                                    self.current_token,
                                ) == step5.out && ((j == 0 && declarations@.len() == 0
                                    && self.errors == old(self).errors && self.analyzer@
                                    =~= old(self).analyzer@) || (j == 1 && declarations@.len()
                                    == 1 && declarations@[0] == v@[0]
                                    && self.errors == old(self).errors
                                    && self.analyzer@ =~= spec_one_line_section_scopes(
                                    *old(self),
                                )))) || ((match step5.out {
                                    Some(Ok(tv)) => v@[0].id.id@ == tv,
                                    _ => false,
                                }) && self.lexer.idx() == step9.next && spec_lookahead_view(
                                    self.current_token,
                                ) == step9.out && declarations@.len() == 1 && (match step1.out {
                                    Some(Ok(tv)) => declarations@[0].id.id@ == tv,
                                    _ => false,
                                }) && self.analyzer@ =~= spec_one_line_section_scopes(
                                    *old(self),
                                ) && ((j == 0 && self.errors == old(self).errors) || (j == 1
                                    && self.errors@.len() == old(self).errors@.len() + 1 && (
                                match (step1.out, step5.out) {
                                    (Some(Ok(tv1)), Some(Ok(tv5))) => match tv1.token {
                                        crate::token::TokenTypeView::Identifier(nm) => self.errors@.last()@
                                            == (crate::error::ErrorView {
                                            description: "Redeclaration of "@ + nm,
                                            pos: tv5.pos,
                                            err_type: ErrorType::Semantic,
                                        }),
                                        _ => false,
                                    },
                                    _ => false,
                                })))))
                            }),
                            spec_one_line_var_section_ahead(*old(self)) ==> ({
                                let s = old(self).lexer.text();
                                let step1 = crate::lexer::spec_next_token(
                                    s,
                                    old(self).lexer.idx(),
                                );
                                let step2 = crate::lexer::spec_next_token(s, step1.next);
                                let step3 = crate::lexer::spec_next_token(s, step2.next);
                                let step4 = crate::lexer::spec_next_token(s, step3.next);
                                let step5 = crate::lexer::spec_next_token(s, step4.next);
                                &&& m == 1
                                &&& v@[0].id.wf() && v@[0].type_id.wf()
                                &&& (match step1.out {
                                    Some(Ok(tv)) => v@[0].id.id@ == tv,
                                    _ => false,
                                })
                                &&& (match step3.out {
                                    Some(Ok(tv)) => v@[0].type_id.id@ == tv,
                                    _ => false,
                                })
                                &&& self.lexer.idx() == step5.next
                                &&& spec_lookahead_view(self.current_token) == step5.out
                                &&& ((j == 0 && declarations@.len() == 0 && self.errors == old(
                                    self,
                                ).errors && self.analyzer@ =~= old(self).analyzer@) || (j == 1
                                    && declarations@.len() == 1 && declarations@[0] == v@[0]
                                    && self.errors == old(self).errors && self.analyzer@
                                    =~= spec_one_line_section_scopes(*old(self))))
                            }),
                            forall|k: int|
                                0 <= k < v@.len() ==> (#[trigger] v@[k]).id.wf()
                                    && v@[k].type_id.wf(),
                            forall|k: int|
                                0 <= k < declarations@.len() ==> (
                                #[trigger] declarations@[k]).id.wf()
                                    && declarations@[k].type_id.wf()
                                    && self.analyzer@.last().contains_key(
                                    crate::syntax::spec_get_id(declarations@[k].id),
                                ),
                        decreases m - j,
                    {
                        let d = v[j].clone();
                        match self.analyzer.check_declaration(d) {
                            Ok(d2) => {
                                declarations.push(d2);
                            },
                            Err(e) => {
                                self.errors.push(e);
                            },
                        }
                        j += 1;
                    }
                },
                Err(e) => {
                    if self.current_token.is_none() {
                        return Err(e);
                    }
                    self.errors.push(e);
                    self.resync_declarations();
                },
            }
        }
    }

    /// Parse one type alias line `name {, name} : parent ;`.
    fn parse_type_declaration(&mut self) -> (r: Result<Vec<TypeDeclaration>, CompilerError>)
        requires
            old(self).inv(),
        ensures
            final(self).inv(),
            Self::spec_frame(*old(self), *final(self)),
            final(self).analyzer == old(self).analyzer,
            final(self).errors == old(self).errors,
            r matches Ok(v) ==> final(self).remaining() < old(self).remaining() && v@.len() >= 1
                && (match old(self).current_token {
                Some(Ok(t)) => t.token is Identifier && v@[0].id.id == t,
                _ => false,
            }) && forall|k: int|
                0 <= k < v@.len() ==> (#[trigger] v@[k]).id.wf() && v@[k].parent.wf()
                    && v@[k].parent == v@[0].parent,
            r is Err ==> final(self).remaining() < old(self).remaining()
                || final(self).current_token is None,
            (match old(self).current_token {
                Some(Ok(t)) => !(t.token is Identifier),
                _ => true,
            }) ==> r is Err,
            r matches Err(e) ==> e.err_type != ErrorType::Semantic,
            spec_minimal_declaration_ahead(*old(self)) ==> ({
                let s = old(self).lexer.text();
                let step1 = crate::lexer::spec_next_token(s, old(self).lexer.idx());
                let step2 = crate::lexer::spec_next_token(s, step1.next);
                let step3 = crate::lexer::spec_next_token(s, step2.next);
                let step4 = crate::lexer::spec_next_token(s, step3.next);
                &&& r matches Ok(v) && v@.len() == 1 && (match step2.out {
                    Some(Ok(tv)) => v@[0].parent.id@ == tv,
                    _ => false,
                })
                &&& final(self).errors == old(self).errors
                &&& final(self).analyzer == old(self).analyzer
                &&& final(self).lexer.idx() == step4.next
                &&& spec_lookahead_view(final(self).current_token) == step4.out
            }),
    {
        let mut ids: Vec<Identifier> = Vec::new();
        let id0 = self.parse_identifier()?;
        let ghost first_id = id0;
        let ghost after_first = *self;
        ids.push(id0);
        loop
            invariant
                self.inv(),
                self.lexer.text() == old(self).lexer.text(),
                self.analyzer == old(self).analyzer,
                self.errors == old(self).errors,
                self.remaining() < old(self).remaining(),
                old(self).errors@.is_prefix_of(self.errors@),
                ids@.len() >= 1,
                ids@[0] == first_id,
                spec_minimal_declaration_ahead(*old(self)) ==> (ids@.len() == 1 && *self
                    == after_first && spec_took_one(*old(self), after_first)),
                forall|k: int| 0 <= k < ids@.len() ==> (#[trigger] ids@[k]).wf(),
            decreases self.remaining(),
        {
            let at_comma = match &self.current_token {
                Some(Ok(t)) => matches!(t.token, TokenType::Comma),
                _ => false,
            };
            if !at_comma {
                break ;
            }
            self.advance();
            let id = self.parse_identifier()?;
            ids.push(id);
        }
        match &self.current_token {
            Some(Ok(t)) => {
                if !matches!(t.token, TokenType::Colon) {
                    return Err(CompilerError::syntax(String::from_str("Expected ':'"), t.pos));
                }
            },
            Some(Err(e)) => {
                let e2 = e.clone();
                self.advance();
                return Err(e2);
            },
            None => {
                return Err(
                    CompilerError::syntax(String::from_str("Unexpected EOF"), self.current_pos),
                );
            },
        }
        self.advance();
        let parent = self.parse_identifier()?;
        self.parse_semicolon()?;
        let mut types: Vec<TypeDeclaration> = Vec::new();
        let n = ids.len();
        let mut i: usize = 0;
        while i < n
            invariant
                n == ids@.len(),
                i <= n,
                n >= 1,
                parent.wf(),
                forall|k: int| 0 <= k < ids@.len() ==> (#[trigger] ids@[k]).wf(),
                types@.len() == i,
                forall|k: int|
                    0 <= k < i ==> (#[trigger] types@[k]).id == ids@[k] && types@[k].parent
                        == parent,
            decreases n - i,
        {
            types.push(TypeDeclaration { id: ids[i].clone(), parent: parent.clone() });
            i += 1;
        }
        Ok(types)
    }

    /// Parse the `type` section: alias lines up to the `var` section or the
    /// `begin` of the program body, registering each alias with the
    /// analyzer.
    fn parse_type_section(&mut self) -> (r: Result<TypeSection, CompilerError>)
        requires
            old(self).inv(),
            old(self).current_token matches Some(tk) && tk matches Ok(t) && t.token
                is TypeKeyword,
        ensures
            final(self).inv(),
            Self::spec_frame(*old(self), *final(self)),
            final(self).analyzer@.len() == old(self).analyzer@.len(),
            forall|i: int|
                0 <= i < old(self).analyzer@.len() - 1 ==> final(self).analyzer@[i] == old(
                    self,
                ).analyzer@[i],
            r matches Err(e) ==> e.err_type != ErrorType::Semantic,
            r is Ok ==> (match final(self).current_token {
                Some(Ok(t)) => t.token is VarKeyword || t.token is BeginKeyword,
                _ => false,
            }),
            spec_empty_type_section_ahead(*old(self)) ==> (r matches Ok(ts) && ts.types@.len()
                == 0 && final(self).errors == old(self).errors),
            r matches Ok(ts) ==> forall|k: int|
                0 <= k < ts.types@.len() ==> (#[trigger] ts.types@[k]).id.wf()
                    && ts.types@[k].parent.wf() && final(self).analyzer@.last().contains_key(
                    crate::syntax::spec_get_id(ts.types@[k].id),
                ),
    {
        self.advance();
        let ghost after_kw = *self;
        let mut types: Vec<TypeDeclaration> = Vec::new();
        loop
            invariant
                self.inv(),
                self.lexer.text() == old(self).lexer.text(),
                self.analyzer@.len() == old(self).analyzer@.len(),
                forall|i: int|
                    0 <= i < old(self).analyzer@.len() - 1 ==> self.analyzer@[i] == old(
                        self,
                    ).analyzer@[i],
                self.remaining() < old(self).remaining(),
                old(self).errors@.is_prefix_of(self.errors@),
                spec_empty_type_section_ahead(*old(self)) ==> (*self == after_kw && spec_took_one(
                    *old(self),
                    after_kw,
                ) && types@.len() == 0 && self.errors == old(self).errors),
                forall|k: int|
                    0 <= k < types@.len() ==> (#[trigger] types@[k]).id.wf()
                        && types@[k].parent.wf() && self.analyzer@.last().contains_key(
                        crate::syntax::spec_get_id(types@[k].id),
                    ),
            decreases self.remaining(),
        {
            match &self.current_token {
                Some(Ok(t)) => {
                    if matches!(t.token, TokenType::VarKeyword | TokenType::BeginKeyword) {
                        return Ok(TypeSection { types });
                    }
                },
                None => {
                    return Err(
                        CompilerError::syntax(
                            String::from_str("Unexpected EOF"),
                            self.current_pos,
                        ),
                    );
                },
                _ => {},
            }
            match self.parse_type_declaration() {
                Ok(v) => {
                    let ghost rem_mid = self.remaining();
                    let m = v.len();
                    let mut j: usize = 0;
                    while j < m
                        invariant
                            self.inv(),
                            self.lexer.text() == old(self).lexer.text(),
                            self.analyzer@.len() == old(self).analyzer@.len(),
                            forall|i: int|
                                0 <= i < old(self).analyzer@.len() - 1 ==> self.analyzer@[i]
                                    == old(self).analyzer@[i],
                            self.remaining() == rem_mid,
                            rem_mid < old(self).remaining(),
                            old(self).errors@.is_prefix_of(self.errors@),
                            m == v@.len(),
                            j <= m,
                            forall|k: int|
                                0 <= k < v@.len() ==> (#[trigger] v@[k]).id.wf()
                                    && v@[k].parent.wf(),
                            forall|k: int|
                                0 <= k < types@.len() ==> (#[trigger] types@[k]).id.wf()
                                    && types@[k].parent.wf()
                                    && self.analyzer@.last().contains_key(
                                    crate::syntax::spec_get_id(types@[k].id),
                                ),
                        decreases m - j,
                    {
                        let d = v[j].clone();
                        match self.analyzer.check_type_declaration(d) {
                            Ok(d2) => {
                                types.push(d2);
                            },
                            Err(e) => {
                                self.errors.push(e);
                            },
                        }
                        j += 1;
                    }
                },
                Err(e) => {
                    if self.current_token.is_none() {
                        return Err(e);
                    }
                    self.errors.push(e);
                    self.resync_declarations();
                },
            }
        }
    }

    /// Parse a whole program: the `program` header, the optional type and
    /// var sections, the compound body, and the final period, inside one
    /// scope frame that is popped again at the end.
    #[verifier::rlimit(100)]
    #[verifier::spinoff_prover]
    fn parse_program(&mut self) -> (r: Result<Program, CompilerError>)
        requires
            old(self).inv(),
        ensures
            final(self).inv(),
            Self::spec_frame(*old(self), *final(self)),
            r matches Err(e) ==> e.err_type != ErrorType::Semantic,
            match old(self).current_token {
                Some(Ok(t)) => t.token is ProgramKeyword || (r matches Err(e) && e.err_type
                    == ErrorType::Syntax && e.pos == t.pos && *final(self) == *old(self)),
                Some(Err(le)) => r matches Err(e) && e@ == le@,
                None => r matches Err(e) && e.err_type == ErrorType::Syntax && e.pos == old(
                    self,
                ).current_pos && *final(self) == *old(self),
            },
            spec_minimal_program_ahead(*old(self)) ==> (r matches Ok(p) && p.type_section
                is None && p.var_section is None && p.compound.statements@.len() == 0
                && final(self).errors@ == old(self).errors@),
            spec_scenario_program_ahead(*old(self)) ==> ({
                let s = old(self).lexer.text();
                let step1 = crate::lexer::spec_next_token(s, old(self).lexer.idx());
                let step2 = crate::lexer::spec_next_token(s, step1.next);
                let step3 = crate::lexer::spec_next_token(s, step2.next);
                let step4 = crate::lexer::spec_next_token(s, step3.next);
                let step5 = crate::lexer::spec_next_token(s, step4.next);
                let step6 = crate::lexer::spec_next_token(s, step5.next);
                let step7 = crate::lexer::spec_next_token(s, step6.next);
                let step8 = crate::lexer::spec_next_token(s, step7.next);
                let step9 = crate::lexer::spec_next_token(s, step8.next);
                &&& r matches Ok(p) && (match step1.out {
                    Some(Ok(tv)) => p.identifier.id@ == tv,
                    _ => false,
                }) && p.type_section is None && (match p.var_section {
                    Some(vs) => {
                        &&& vs.declarations@.len() == 1
                        &&& (match step4.out {
                            Some(Ok(tv)) => vs.declarations@[0].id.id@ == tv,
                            _ => false,
                        })
                        &&& (match step6.out {
                            Some(Ok(tv)) => vs.declarations@[0].type_id.id@ == tv,
                            _ => false,
                        })
                    },
                    None => false,
                }) && (if spec_scenario_merge_ok(*old(self)) {
                    p.compound.statements@.len() == 1 && p.compound.statements@[0] is Simple
                        && final(self).errors == old(self).errors
                } else {
                    p.compound.statements@.len() == 0 && final(self).errors@.len() == old(
                        self,
                    ).errors@.len() + 1 && (match step9.out {
                        Some(Ok(tv)) => final(self).errors@.last()@ == (crate::error::ErrorView {
                            description: "Type mismatch"@,
                            pos: tv.pos,
                            err_type: ErrorType::Semantic,
                        }),
                        _ => false,
                    })
                })
            }),
            spec_scenario_no_var_ahead(*old(self)) ==> ({
                let s = old(self).lexer.text();
                let step1 = crate::lexer::spec_next_token(s, old(self).lexer.idx());
                let step2 = crate::lexer::spec_next_token(s, step1.next);
                let step3 = crate::lexer::spec_next_token(s, step2.next);
                let step4 = crate::lexer::spec_next_token(s, step3.next);
                let nm = (match step4.out {
                    Some(Ok(tv)) => match tv.token {
                        crate::token::TokenTypeView::Identifier(n) => n,
                        _ => Seq::<char>::empty(),
                    },
                    _ => Seq::<char>::empty(),
                });
                &&& r matches Ok(p) && (match step1.out {
                    Some(Ok(tv)) => p.identifier.id@ == tv,
                    _ => false,
                }) && p.type_section is None && p.var_section is None
                &&& (match crate::analyzer::spec_find(old(self).analyzer@, nm) {
                    None => r matches Ok(p) && p.compound.statements@.len() == 0
                        && final(self).errors@.len() == old(self).errors@.len() + 1 && (
                    match step4.out {
                        Some(Ok(tv)) => final(self).errors@.last()@ == (crate::error::ErrorView {
                            description: "Unknown identifier "@ + nm,
                            pos: tv.pos,
                            err_type: ErrorType::Semantic,
                        }),
                        _ => false,
                    }),
                    _ => true,
                })
            }),
            spec_scenario_redeclaration_ahead(*old(self)) ==> ({
                let s = old(self).lexer.text();
                let step1 = crate::lexer::spec_next_token(s, old(self).lexer.idx());
                let step2 = crate::lexer::spec_next_token(s, step1.next);
                let step3 = crate::lexer::spec_next_token(s, step2.next);
                let step4 = crate::lexer::spec_next_token(s, step3.next);
                let step5 = crate::lexer::spec_next_token(s, step4.next);
                let step6 = crate::lexer::spec_next_token(s, step5.next);
                let step7 = crate::lexer::spec_next_token(s, step6.next);
                let step8 = crate::lexer::spec_next_token(s, step7.next);
                &&& r matches Ok(p) && (match step1.out {
                    Some(Ok(tv)) => p.identifier.id@ == tv,
                    _ => false,
                }) && p.type_section is None && (match p.var_section {
                    Some(vs) => vs.declarations@.len() == 1 && (match step4.out {
                        Some(Ok(tv)) => vs.declarations@[0].id.id@ == tv,
                        _ => false,
                    }),
                    None => false,
                }) && p.compound.statements@.len() == 1 && p.compound.statements@[0] is Simple
                &&& final(self).errors@.len() == old(self).errors@.len() + 1
                &&& (match (step4.out, step8.out) {
                    (Some(Ok(tv4)), Some(Ok(tv8))) => match tv4.token {
                        crate::token::TokenTypeView::Identifier(nm) => final(self).errors@.last()@
                            == (crate::error::ErrorView {
                            description: "Redeclaration of "@ + nm,
                            pos: tv8.pos,
                            err_type: ErrorType::Semantic,
                        }),
                        _ => false,
                    },
                    _ => false,
                })
            }),
            r matches Ok(p) ==> {
                &&& (match old(self).current_token {
                    Some(Ok(t)) => t.token is ProgramKeyword,
                    _ => false,
                })
                &&& p.identifier.wf()
                &&& ({
                    let step = crate::lexer::spec_next_token(
                        old(self).lexer.text(),
                        old(self).lexer.idx(),
                    );
                    step.out matches Some(o) && o matches Ok(tv) && tv.token is Identifier
                        && p.identifier.id@ == tv
                })
                &&& final(self).analyzer@ =~= old(self).analyzer@
            },
    {
        match &self.current_token {
            Some(Ok(t)) => {
                if !matches!(t.token, TokenType::ProgramKeyword) {
                    return Err(
                        CompilerError::syntax(String::from_str("Expected 'program'"), t.pos),
                    );
                }
            },
            Some(Err(e)) => {
                let e2 = e.clone();
                self.advance();
                return Err(e2);
            },
            None => {
                return Err(
                    CompilerError::syntax(
                        String::from_str("Expected 'program', found EOF"),
                        self.current_pos,
                    ),
                );
            },
        }
        self.advance();
        let ghost mid = *self;
        let id = self.parse_identifier()?;
        self.parse_semicolon()?;
        self.analyzer.enter_scope();
        proof {
            if spec_scenario_program_ahead(*old(self)) {
                assert(self.analyzer@.last() =~= Map::<Seq<char>, crate::scope::UsageView>::empty());
                assert(spec_one_line_var_section_ahead(*self));
            }
            if spec_scenario_redeclaration_ahead(*old(self)) {
                assert(self.analyzer@.last() =~= Map::<Seq<char>, crate::scope::UsageView>::empty());
                assert(spec_redeclared_section_ahead(*self));
            }
        }
        let at_type = match &self.current_token {
            Some(Ok(t)) => matches!(t.token, TokenType::TypeKeyword),
            _ => false,
        };
        let type_section = if at_type {
            Some(self.parse_type_section()?)
        } else {
            None
        };
        let at_var = match &self.current_token {
            Some(Ok(t)) => matches!(t.token, TokenType::VarKeyword),
            _ => false,
        };
        let ghost before_sections = *self;
        let var_section = if at_var {
            let vs = self.parse_var_section()?;
            proof {
                if spec_scenario_redeclaration_ahead(*old(self)) {
                    assert(self.analyzer@.last().contains_key(
                        spec_section_decl_name(before_sections),
                    ));
                    assert(self.analyzer@.last()[spec_section_decl_name(before_sections)]
                        == crate::scope::UsageView::Variable(
                        spec_section_decl_type(before_sections),
                    ));
                    assert(crate::analyzer::spec_find(
                        self.analyzer@,
                        spec_section_decl_name(before_sections),
                    ) == Some(
                        crate::scope::UsageView::Variable(
                            spec_section_decl_type(before_sections),
                        ),
                    ));
                    assert(spec_one_statement_compound_ahead(*self));
                }
                if spec_scenario_program_ahead(*old(self)) {
                    assert(vs.declarations@.len() == 1);
                    assert(self.analyzer@.last().contains_key(
                        spec_section_decl_name(before_sections),
                    ));
                    assert(self.analyzer@.last()[spec_section_decl_name(before_sections)]
                        == crate::scope::UsageView::Variable(
                        spec_section_decl_type(before_sections),
                    ));
                    assert(crate::analyzer::spec_find(
                        self.analyzer@,
                        spec_section_decl_name(before_sections),
                    ) == Some(
                        crate::scope::UsageView::Variable(
                            spec_section_decl_type(before_sections),
                        ),
                    ));
                    assert(spec_one_statement_compound_ahead(*self));
                }
            }
            Some(vs)
        } else {
            None
        };
        proof {
            if spec_scenario_no_var_ahead(*old(self)) {
                assert(self.analyzer@.last() =~= Map::<Seq<char>, crate::scope::UsageView>::empty());
                assert(self.analyzer@.drop_last() =~= old(self).analyzer@);
                assert(crate::analyzer::spec_find(
                    self.analyzer@,
                    spec_compound_stmt_name(*self),
                ) == crate::analyzer::spec_find(
                    old(self).analyzer@,
                    spec_compound_stmt_name(*self),
                ));
                assert(spec_one_statement_compound_ahead(*self));
            }
        }
        let compound = self.parse_compound()?;
        self.parse_period()?;
        self.analyzer.leave_scope();
        proof {
            assert(self.analyzer@ =~= old(self).analyzer@);
        }
        Ok(Program { identifier: id, type_section, var_section, compound })
    }

    /// Parse the token stream as one program. On success the program's name
    /// is the identifier that follows the `program` keyword in the source,
    /// and the scope stack is handed back exactly as it was: every scope
    /// entered was left again and the base scope's bindings are intact.
    ///
    /// The contract also pins whole parses down on the small program shapes:
    /// the smallest program, a one-declaration one-assignment program (with
    /// the diagnostics decided by the strong merge of the declared and
    /// assigned types), and a program assigning to an undeclared name (one
    /// unknown-identifier diagnostic at the reference's position). A missing
    /// `program` keyword fails with a syntax error and an untouched state.
    pub fn parse(&mut self) -> (r: Result<Program, CompilerError>)
        requires
            old(self).inv(),
        ensures
            final(self).inv(),
            Self::spec_frame(*old(self), *final(self)),
            r matches Err(e) ==> e.err_type != ErrorType::Semantic,
            match old(self).current_token {
                Some(Ok(t)) => t.token is ProgramKeyword || (r matches Err(e) && e.err_type
                    == ErrorType::Syntax && e.pos == t.pos && *final(self) == *old(self)),
                Some(Err(le)) => r matches Err(e) && e@ == le@,
                None => r matches Err(e) && e.err_type == ErrorType::Syntax && e.pos == old(
                    self,
                ).current_pos && *final(self) == *old(self),
            },
            spec_minimal_program_ahead(*old(self)) ==> (r matches Ok(p) && p.type_section
                is None && p.var_section is None && p.compound.statements@.len() == 0
                && final(self).errors@ == old(self).errors@),
            spec_scenario_program_ahead(*old(self)) ==> ({
                let s = old(self).lexer.text();
                let step1 = crate::lexer::spec_next_token(s, old(self).lexer.idx());
                let step2 = crate::lexer::spec_next_token(s, step1.next);
                let step3 = crate::lexer::spec_next_token(s, step2.next);
                let step4 = crate::lexer::spec_next_token(s, step3.next);
                let step5 = crate::lexer::spec_next_token(s, step4.next);
                let step6 = crate::lexer::spec_next_token(s, step5.next);
                let step7 = crate::lexer::spec_next_token(s, step6.next);
                let step8 = crate::lexer::spec_next_token(s, step7.next);
                let step9 = crate::lexer::spec_next_token(s, step8.next);
                &&& r matches Ok(p) && (match step1.out {
                    Some(Ok(tv)) => p.identifier.id@ == tv,
                    _ => false,
                }) && p.type_section is None && (match p.var_section {
                    Some(vs) => {
                        &&& vs.declarations@.len() == 1
                        &&& (match step4.out {
                            Some(Ok(tv)) => vs.declarations@[0].id.id@ == tv,
                            _ => false,
                        })
                        &&& (match step6.out {
                            Some(Ok(tv)) => vs.declarations@[0].type_id.id@ == tv,
                            _ => false,
                        })
                    },
                    None => false,
                }) && (if spec_scenario_merge_ok(*old(self)) {
                    p.compound.statements@.len() == 1 && p.compound.statements@[0] is Simple
                        && final(self).errors == old(self).errors
                } else {
                    p.compound.statements@.len() == 0 && final(self).errors@.len() == old(
                        self,
                    ).errors@.len() + 1 && (match step9.out {
                        Some(Ok(tv)) => final(self).errors@.last()@ == (crate::error::ErrorView {
                            description: "Type mismatch"@,
                            pos: tv.pos,
                            err_type: ErrorType::Semantic,
                        }),
                        _ => false,
                    })
                })
            }),
            spec_scenario_no_var_ahead(*old(self)) ==> ({
                let s = old(self).lexer.text();
                let step1 = crate::lexer::spec_next_token(s, old(self).lexer.idx());
                let step2 = crate::lexer::spec_next_token(s, step1.next);
                let step3 = crate::lexer::spec_next_token(s, step2.next);
                let step4 = crate::lexer::spec_next_token(s, step3.next);
                let nm = (match step4.out {
                    Some(Ok(tv)) => match tv.token {
                        crate::token::TokenTypeView::Identifier(n) => n,
                        _ => Seq::<char>::empty(),
                    },
                    _ => Seq::<char>::empty(),
                });
                &&& r matches Ok(p) && (match step1.out {
                    Some(Ok(tv)) => p.identifier.id@ == tv,
                    _ => false,
                }) && p.type_section is None && p.var_section is None
                &&& (match crate::analyzer::spec_find(old(self).analyzer@, nm) {
                    None => r matches Ok(p) && p.compound.statements@.len() == 0
                        && final(self).errors@.len() == old(self).errors@.len() + 1 && (
                    match step4.out {
                        Some(Ok(tv)) => final(self).errors@.last()@ == (crate::error::ErrorView {
                            description: "Unknown identifier "@ + nm,
                            pos: tv.pos,
                            err_type: ErrorType::Semantic,
                        }),
                        _ => false,
                    }),
                    _ => true,
                })
            }),
            spec_scenario_redeclaration_ahead(*old(self)) ==> ({
                let s = old(self).lexer.text();
                let step1 = crate::lexer::spec_next_token(s, old(self).lexer.idx());
                let step2 = crate::lexer::spec_next_token(s, step1.next);
                let step3 = crate::lexer::spec_next_token(s, step2.next);
                let step4 = crate::lexer::spec_next_token(s, step3.next);
                let step5 = crate::lexer::spec_next_token(s, step4.next);
                let step6 = crate::lexer::spec_next_token(s, step5.next);
                let step7 = crate::lexer::spec_next_token(s, step6.next);
                let step8 = crate::lexer::spec_next_token(s, step7.next);
                &&& r matches Ok(p) && (match step1.out {
                    Some(Ok(tv)) => p.identifier.id@ == tv,
                    _ => false,
                }) && p.type_section is None && (match p.var_section {
                    Some(vs) => vs.declarations@.len() == 1 && (match step4.out {
                        Some(Ok(tv)) => vs.declarations@[0].id.id@ == tv,
                        _ => false,
                    }),
                    None => false,
                }) && p.compound.statements@.len() == 1 && p.compound.statements@[0] is Simple
                &&& final(self).errors@.len() == old(self).errors@.len() + 1
                &&& (match (step4.out, step8.out) {
                    (Some(Ok(tv4)), Some(Ok(tv8))) => match tv4.token {
                        crate::token::TokenTypeView::Identifier(nm) => final(self).errors@.last()@
                            == (crate::error::ErrorView {
                            description: "Redeclaration of "@ + nm,
                            pos: tv8.pos,
                            err_type: ErrorType::Semantic,
                        }),
                        _ => false,
                    },
                    _ => false,
                })
            }),
            r matches Ok(p) ==> {
                &&& (match old(self).current_token {
                    Some(Ok(t)) => t.token is ProgramKeyword,
                    _ => false,
                })
                &&& p.identifier.wf()
                &&& ({
                    let step = crate::lexer::spec_next_token(
                        old(self).lexer.text(),
                        old(self).lexer.idx(),
                    );
                    step.out matches Some(o) && o matches Ok(tv) && tv.token is Identifier
                        && p.identifier.id@ == tv
                })
                &&& final(self).analyzer@ =~= old(self).analyzer@
            },
    {
        self.parse_program()
    }

    /// Panic-mode recovery for the statement loop: skip tokens until a
    /// recognized restart point (an identifier, `if`, `while`, `begin` or
    /// `end`) or the end of input, collecting the lexical errors passed
    /// over.
    fn skip_until_starters(&mut self)
        requires
            old(self).inv(),
        ensures
            final(self).inv(),
            Self::spec_frame(*old(self), *final(self)),
            final(self).analyzer == old(self).analyzer,
            forall|k: int|
                old(self).errors@.len() <= k < final(self).errors@.len()
                    ==> (#[trigger] final(self).errors@[k]).err_type == ErrorType::Lexical,
            (match old(self).current_token {
                Some(Ok(t)) => spec_is_starter(t.token),
                _ => false,
            }) ==> *final(self) == *old(self),
            match final(self).current_token {
                None => true,
                Some(Ok(t)) => spec_is_starter(t.token),
                Some(Err(_)) => false,
            },
            (match old(self).current_token {
                Some(Ok(t)) => !spec_is_starter(t.token),
                Some(Err(_)) => true,
                None => false,
            }) ==> final(self).remaining() < old(self).remaining(),
    {
        loop
            invariant
                self.inv(),
                self.lexer.text() == old(self).lexer.text(),
                self.analyzer == old(self).analyzer,
                self.remaining() <= old(self).remaining(),
                old(self).errors@.is_prefix_of(self.errors@),
                forall|k: int|
                    old(self).errors@.len() <= k < self.errors@.len()
                        ==> (#[trigger] self.errors@[k]).err_type == ErrorType::Lexical,
                (match old(self).current_token {
                    Some(Ok(t)) => spec_is_starter(t.token),
                    _ => false,
                }) ==> *self == *old(self),
                (match old(self).current_token {
                    Some(Ok(t)) => !spec_is_starter(t.token),
                    Some(Err(_)) => true,
                    None => false,
                }) && self.remaining() == old(self).remaining() ==> self.current_token == old(
                    self,
                ).current_token,
            decreases self.remaining(),
        {
            match &self.current_token {
                Some(Ok(t)) => {
                    if matches!(
                        t.token,
                        TokenType::Identifier(_) | TokenType::IfKeyword | TokenType::WhileKeyword
                            | TokenType::BeginKeyword | TokenType::EndKeyword,
                    ) {
                        return ;
                    }
                    self.advance();
                },
                Some(Err(e)) => {
                    let e2 = e.clone();
                    self.errors.push(e2);
                    self.advance();
                },
                None => {
                    return ;
                },
            }
        }
    }
}

} // verus!
