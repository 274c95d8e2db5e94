use pascal_compiler::cursor::SourceCursor;
use pascal_compiler::error::{CompilerError, ErrorType};
use pascal_compiler::lexer::Lexer;
use pascal_compiler::parser::Parser;
use pascal_compiler::position::Position;
use pascal_compiler::syntax::{Expression, Program, Statement};

fn parse_text(text: &str) -> (Result<Program, CompilerError>, Vec<CompilerError>) {
    let cursor = SourceCursor::new(text.to_string());
    let lexer = Lexer::new(cursor);
    let mut parser = Parser::new(lexer);
    let result = parser.parse();
    (result, parser.errors)
}

#[test]
fn valid_program_parses_with_no_diagnostics() {
    let (result, errors) = parse_text("program P; var x: integer; begin x := 5; end.");
    let program = result.expect("the program must parse");
    assert!(errors.is_empty(), "unexpected diagnostics: {:?}", errors);
    assert_eq!(program.identifier.get_id(), "P");
    let vs = program.var_section.expect("the var section must be kept");
    assert_eq!(vs.declarations.len(), 1);
    assert_eq!(vs.declarations[0].id.get_id(), "x");
    assert_eq!(vs.declarations[0].type_id.get_id(), "integer");
    assert_eq!(program.compound.statements.len(), 1);
    match &program.compound.statements[0] {
        Statement::Simple(a) => assert_eq!(a.name.get_id(), "x"),
        other => panic!("expected an assignment, found {:?}", other),
    }
}

#[test]
fn real_into_integer_is_one_type_mismatch() {
    let (result, errors) = parse_text("program P; var x: integer; begin x := 5.5; end.");
    assert!(result.is_ok(), "parsing must still complete");
    assert_eq!(errors.len(), 1, "diagnostics: {:?}", errors);
    assert_eq!(errors[0].err_type, ErrorType::Semantic);
    assert_eq!(errors[0].description, "Type mismatch");
}

#[test]
fn undeclared_variable_is_one_unknown_identifier() {
    let (result, errors) = parse_text("program P; begin y := 1; end.");
    assert!(result.is_ok(), "parsing must still complete");
    assert_eq!(errors.len(), 1, "diagnostics: {:?}", errors);
    assert_eq!(errors[0].err_type, ErrorType::Semantic);
    assert_eq!(errors[0].description, "Unknown identifier y");
    assert_eq!((errors[0].pos.line, errors[0].pos.col), (1, 18));
}

#[test]
fn declared_variables_resolve_in_expressions() {
    let (result, errors) = parse_text("program P; var x,y: integer; begin x := y + 1; end.");
    let program = result.expect("the program must parse");
    assert!(errors.is_empty(), "unexpected diagnostics: {:?}", errors);
    let vs = program.var_section.expect("the var section must be kept");
    assert_eq!(vs.declarations.len(), 2);
    assert_eq!(vs.declarations[0].id.get_id(), "x");
    assert_eq!(vs.declarations[1].id.get_id(), "y");
    match &program.compound.statements[0] {
        Statement::Simple(a) => match &a.value {
            Expression::Simple(s) => assert_eq!(s.expr_type, "integer"),
            other => panic!("expected a simple expression, found {:?}", other),
        },
        other => panic!("expected an assignment, found {:?}", other),
    }
}

#[test]
fn widening_merge_resolves_mixed_expression_to_real() {
    let (result, errors) = parse_text("program P; var r: real; begin r := 1 + 0.5; end.");
    let program = result.expect("the program must parse");
    assert!(errors.is_empty(), "unexpected diagnostics: {:?}", errors);
    match &program.compound.statements[0] {
        Statement::Simple(a) => match &a.value {
            Expression::Simple(s) => assert_eq!(s.expr_type, "real"),
            other => panic!("expected a simple expression, found {:?}", other),
        },
        other => panic!("expected an assignment, found {:?}", other),
    }
}

#[test]
fn if_and_while_with_boolean_conditions_parse() {
    let (result, errors) = parse_text(
        "program P; var x: integer; begin if x > 1 then x := 2; else x := 3; while x < 10 do x := x + 1; end.",
    );
    let program = result.expect("the program must parse");
    assert!(errors.is_empty(), "unexpected diagnostics: {:?}", errors);
    assert_eq!(program.compound.statements.len(), 2);
    assert!(matches!(program.compound.statements[0], Statement::Cond(_)));
    assert!(matches!(program.compound.statements[1], Statement::While(_)));
}

#[test]
fn non_boolean_condition_is_type_mismatch() {
    let (result, errors) = parse_text("program P; var x: integer; begin if x then x := 1; end.");
    assert!(result.is_ok(), "parsing must still complete");
    assert_eq!(errors.len(), 1, "diagnostics: {:?}", errors);
    assert_eq!(errors[0].err_type, ErrorType::Semantic);
    assert_eq!(errors[0].description, "Type mismatch");
}

#[test]
fn relational_operands_must_merge_strongly() {
    let (result, errors) =
        parse_text("program P; var x: integer; begin if x > 1.5 then x := 1; end.");
    assert!(result.is_ok(), "parsing must still complete");
    assert_eq!(errors.len(), 1, "diagnostics: {:?}", errors);
    assert_eq!(errors[0].err_type, ErrorType::Semantic);
}

#[test]
fn parenthesized_expressions_parse() {
    let (result, errors) =
        parse_text("program P; var x,y: integer; begin x := (y + 1) * 2; end.");
    let program = result.expect("the program must parse");
    assert!(errors.is_empty(), "unexpected diagnostics: {:?}", errors);
    assert_eq!(program.compound.statements.len(), 1);
}

#[test]
fn redeclaration_is_reported_and_first_declaration_survives() {
    let (result, errors) =
        parse_text("program P; var x: integer; x: real; begin x := 1; end.");
    assert!(result.is_ok(), "parsing must still complete");
    assert_eq!(errors.len(), 1, "diagnostics: {:?}", errors);
    assert_eq!(errors[0].err_type, ErrorType::Semantic);
    assert_eq!(errors[0].description, "Redeclaration of x");
}

#[test]
fn statement_error_recovers_at_next_statement() {
    let (result, errors) =
        parse_text("program P; var x,y: integer; begin x := ; y := 1; end.");
    let program = result.expect("parsing must recover and complete");
    assert_eq!(errors.len(), 1, "diagnostics: {:?}", errors);
    assert_eq!(errors[0].err_type, ErrorType::Syntax);
    assert_eq!(program.compound.statements.len(), 1, "the second statement must be kept");
}

#[test]
fn type_aliases_are_usable_as_declared_types() {
    let (result, errors) = parse_text(
        "program P; type myint: integer; var a,b: myint; begin a := b; end.",
    );
    let program = result.expect("the program must parse");
    assert!(errors.is_empty(), "unexpected diagnostics: {:?}", errors);
    let ts = program.type_section.expect("the type section must be kept");
    assert_eq!(ts.types.len(), 1);
    assert_eq!(ts.types[0].id.get_id(), "myint");
    assert_eq!(ts.types[0].parent.get_id(), "integer");
}

#[test]
fn declared_type_names_are_not_validated_at_declaration() {
    let (result, errors) = parse_text("program P; var x: sometype; begin end.");
    assert!(result.is_ok(), "an unknown declared type is accepted at declaration");
    assert!(errors.is_empty(), "unexpected diagnostics: {:?}", errors);
}

#[test]
fn empty_var_section_is_reported() {
    let (result, errors) = parse_text("program P; var begin x := 1; end.");
    assert!(result.is_ok(), "parsing must still complete");
    assert!(
        errors.iter().any(|e| e.description == "Expected identifier, found 'begin'"),
        "diagnostics: {:?}",
        errors
    );
}

#[test]
fn missing_period_is_fatal() {
    let (result, _) = parse_text("program P; begin end");
    assert!(result.is_err(), "a program without the final period must fail");
}

#[test]
fn missing_program_keyword_is_fatal() {
    let (result, _) = parse_text("begin end.");
    let e = result.unwrap_err();
    assert_eq!(e.err_type, ErrorType::Syntax);
}

#[test]
fn assignment_to_constant_is_semantic_error() {
    let (result, errors) = parse_text("program P; begin true := 1; end.");
    assert!(result.is_ok(), "parsing must still complete");
    assert_eq!(errors.len(), 1, "diagnostics: {:?}", errors);
    assert_eq!(errors[0].err_type, ErrorType::Semantic);
}

#[test]
fn diagnostics_render_with_kind_and_position() {
    let e = CompilerError::semantic("Type mismatch".to_string(), Position::new(3, 7));
    assert_eq!(e.render(), "Semantic Error [3:7] Type mismatch");
    let e = CompilerError::lexical("Invalid int literal 12x".to_string(), Position::new(12, 40));
    assert_eq!(e.render(), "Lexical Error [12:40] Invalid int literal 12x");
    let e = CompilerError::syntax("Expected ';'".to_string(), Position::new(1, 1));
    assert_eq!(e.render(), "Syntax Error [1:1] Expected ';'");
}

#[test]
fn lexical_errors_are_collected_and_parsing_continues() {
    let (result, errors) =
        parse_text("program P; var x: integer; begin x := 1; @ x := 2; end.");
    let program = result.expect("parsing must recover and complete");
    assert_eq!(errors.len(), 1, "diagnostics: {:?}", errors);
    assert_eq!(errors[0].err_type, ErrorType::Lexical);
    assert_eq!(program.compound.statements.len(), 2);
}

#[test]
fn empty_input_is_fatal() {
    let (result, _) = parse_text("");
    let e = result.unwrap_err();
    assert_eq!(e.err_type, ErrorType::Syntax);
}

#[test]
fn nested_parentheses_and_if_statements_parse() {
    let (result, errors) = parse_text(
        "program P; var x: integer; begin if x > ((1 + 2) * 3) then if x < 20 then x := 0; end.",
    );
    let program = result.expect("the program must parse");
    assert!(errors.is_empty(), "unexpected diagnostics: {:?}", errors);
    assert_eq!(program.compound.statements.len(), 1);
}

#[test]
fn string_literal_is_not_a_factor() {
    let (result, errors) = parse_text("program P; var x: integer; begin x := 'a'; end.");
    assert!(result.is_ok(), "parsing must recover and complete");
    assert_eq!(errors.len(), 1, "diagnostics: {:?}", errors);
    assert_eq!(errors[0].err_type, ErrorType::Syntax);
}

#[test]
fn recovery_keeps_an_if_statement_after_a_malformed_statement() {
    let (result, errors) = parse_text(
        "program P; var x: integer; begin x := ; if x > 1 then x := 2; end.",
    );
    let program = result.expect("parsing must recover and complete");
    assert_eq!(errors.len(), 1, "diagnostics: {:?}", errors);
    assert_eq!(errors[0].err_type, ErrorType::Syntax);
    assert_eq!(program.compound.statements.len(), 1, "the if statement must be kept");
    assert!(matches!(program.compound.statements[0], Statement::Cond(_)));
}

#[test]
fn empty_input_error_position_is_one_based() {
    let (result, _) = parse_text("");
    let e = result.unwrap_err();
    assert_eq!(e.err_type, ErrorType::Syntax);
    assert_eq!((e.pos.line, e.pos.col), (1, 1));
}
