use pascal_compiler::analyzer::Analyzer;
use pascal_compiler::error::ErrorType;
use pascal_compiler::position::Position;
use pascal_compiler::scope::{Scope, Usage};
use pascal_compiler::syntax::{Identifier, VarDeclaration};
use pascal_compiler::token::{Token, TokenType};

fn ident(name: &str, line: usize, col: usize) -> Identifier {
    Identifier {
        id: Token::new(
            TokenType::Identifier(name.to_string()),
            Position::new(line, col),
        ),
    }
}

fn decl(name: &str, ty: &str, line: usize, col: usize) -> VarDeclaration {
    VarDeclaration { id: ident(name, line, col), type_id: ident(ty, line, col) }
}

#[test]
fn merge_widens_integer_and_real_when_weak() {
    let a = Analyzer::new();
    let pos = Position::new(1, 1);
    let r = a.merge_types(&"integer".to_string(), &"real".to_string(), pos, false);
    assert_eq!(r.unwrap(), "real");
    let r = a.merge_types(&"real".to_string(), &"integer".to_string(), pos, false);
    assert_eq!(r.unwrap(), "real");
}

#[test]
fn merge_rejects_integer_and_real_when_strong() {
    let a = Analyzer::new();
    let pos = Position::new(2, 5);
    let e = a
        .merge_types(&"integer".to_string(), &"real".to_string(), pos, true)
        .unwrap_err();
    assert_eq!(e.err_type, ErrorType::Semantic);
    assert_eq!(e.description, "Type mismatch");
    assert_eq!((e.pos.line, e.pos.col), (2, 5));
}

#[test]
fn merge_keeps_identical_names() {
    let a = Analyzer::new();
    let pos = Position::new(1, 1);
    let r = a.merge_types(&"boolean".to_string(), &"boolean".to_string(), pos, true);
    assert_eq!(r.unwrap(), "boolean");
}

#[test]
fn merge_treats_empty_as_wildcard() {
    let a = Analyzer::new();
    let pos = Position::new(1, 1);
    for name in ["integer", "real", "boolean", "char", "myalias"] {
        for strong in [false, true] {
            let r = a.merge_types(&name.to_string(), &String::new(), pos, strong);
            assert_eq!(r.unwrap(), name, "wildcard merge must keep {}", name);
        }
    }
}

#[test]
fn merge_rejects_unrelated_names() {
    let a = Analyzer::new();
    let pos = Position::new(1, 1);
    let e = a
        .merge_types(&"boolean".to_string(), &"integer".to_string(), pos, false)
        .unwrap_err();
    assert_eq!(e.err_type, ErrorType::Semantic);
}

#[test]
fn base_scope_has_builtin_names() {
    let s = Scope::default();
    for name in ["integer", "real", "char", "boolean"] {
        match s.get(name.to_string()) {
            Some(Usage::Type(None)) => {},
            other => panic!("{} must be a built-in type, found {:?}", name, other),
        }
    }
    for name in ["true", "false"] {
        match s.get(name.to_string()) {
            Some(Usage::Constant(t)) => assert_eq!(t, "boolean"),
            other => panic!("{} must be a boolean constant, found {:?}", name, other),
        }
    }
    assert!(s.get("x".to_string()).is_none());
}

#[test]
fn scope_insert_binds_and_overwrites() {
    let mut s = Scope::new();
    assert!(s.get("x".to_string()).is_none());
    s.insert(&ident("x", 1, 1), Usage::Variable("integer".to_string()));
    match s.get("x".to_string()) {
        Some(Usage::Variable(t)) => assert_eq!(t, "integer"),
        other => panic!("expected a variable binding, found {:?}", other),
    }
    s.insert(&ident("x", 1, 1), Usage::Variable("real".to_string()));
    match s.get("x".to_string()) {
        Some(Usage::Variable(t)) => assert_eq!(t, "real"),
        other => panic!("expected the binding to be replaced, found {:?}", other),
    }
}

#[test]
fn unknown_identifier_reports_reference_position() {
    let a = Analyzer::new();
    let e = a.find_identifier(&ident("y", 3, 9)).unwrap_err();
    assert_eq!(e.err_type, ErrorType::Semantic);
    assert_eq!(e.description, "Unknown identifier y");
    assert_eq!((e.pos.line, e.pos.col), (3, 9));
}

#[test]
fn find_identifier_sees_builtins() {
    let a = Analyzer::new();
    match a.find_identifier(&ident("true", 1, 1)) {
        Ok(Usage::Constant(t)) => assert_eq!(t, "boolean"),
        other => panic!("true must resolve to a boolean constant, found {:?}", other),
    }
}

#[test]
fn lookup_walks_scopes_innermost_first() {
    let mut a = Analyzer::new();
    a.enter_scope();
    a.check_declaration(decl("x", "integer", 1, 1)).unwrap();
    a.enter_scope();
    a.check_declaration(decl("x", "real", 2, 1)).unwrap();
    match a.find_identifier(&ident("x", 3, 1)) {
        Ok(Usage::Variable(t)) => assert_eq!(t, "real", "the innermost binding wins"),
        other => panic!("x must resolve, found {:?}", other),
    }
    a.leave_scope();
    match a.find_identifier(&ident("x", 4, 1)) {
        Ok(Usage::Variable(t)) => assert_eq!(t, "integer"),
        other => panic!("x must resolve in the outer scope, found {:?}", other),
    }
}

#[test]
fn redeclaration_in_same_scope_is_error_and_first_binding_survives() {
    let mut a = Analyzer::new();
    a.enter_scope();
    a.check_declaration(decl("x", "integer", 1, 5)).unwrap();
    let e = a.check_declaration(decl("x", "real", 2, 5)).unwrap_err();
    assert_eq!(e.err_type, ErrorType::Semantic);
    assert_eq!(e.description, "Redeclaration of x");
    assert_eq!((e.pos.line, e.pos.col), (2, 5));
    match a.find_identifier(&ident("x", 3, 1)) {
        Ok(Usage::Variable(t)) => assert_eq!(t, "integer", "the first declaration stays valid"),
        other => panic!("x must still resolve, found {:?}", other),
    }
}

#[test]
fn same_name_in_inner_scope_is_not_redeclaration() {
    let mut a = Analyzer::new();
    a.enter_scope();
    a.check_declaration(decl("x", "integer", 1, 1)).unwrap();
    a.enter_scope();
    assert!(a.check_declaration(decl("x", "integer", 2, 1)).is_ok());
}
