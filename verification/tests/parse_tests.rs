use mira_core::ast::TypeRef;
use mira_core::names::{Location, NAME_I32, NAME_NEVER};
use mira_core::tokens::{Literal, Parser, ParsingError, Token, TokenType};

fn loc(column: u32) -> Location {
    Location { file: 9, line: 1, column }
}

fn toks(kinds: &[(TokenType, Option<Literal>)]) -> Parser {
    let mut v = Vec::new();
    for (i, &(t, lit)) in kinds.iter().enumerate() {
        v.push(Token { typ: t, literal: lit, location: loc(i as u32) });
    }
    v.push(Token { typ: TokenType::Eof, literal: None, location: loc(kinds.len() as u32) });
    Parser::new(v)
}

fn ident(name: u64) -> (TokenType, Option<Literal>) {
    (TokenType::IdentifierLiteral, Some(Literal::Ident(name)))
}

fn plain(t: TokenType) -> (TokenType, Option<Literal>) {
    (t, None)
}

#[test]
fn parse_plain_identifier() {
    let mut p = toks(&[ident(NAME_I32)]);
    let t = TypeRef::parse(&mut p).unwrap();
    match t {
        TypeRef::Reference { num_references, type_path, loc: l } => {
            assert_eq!(num_references, 0);
            assert_eq!(type_path.entries.len(), 1);
            assert_eq!(type_path.entries[0].name, NAME_I32);
            assert!(type_path.entries[0].generic_args.is_empty());
            assert_eq!(l, loc(0));
        },
        other => panic!("unexpected: {other:?}"),
    }
    assert!(p.is_at_end());
}

#[test]
fn parse_references() {
    // "&x" has one reference, "&&x" two (one double-ampersand token)
    let mut p = toks(&[plain(TokenType::Ampersand), ident(40)]);
    let t = TypeRef::parse(&mut p).unwrap();
    assert_eq!(t.get_ref_count(), 1);
    let mut p2 = toks(&[plain(TokenType::LogicalAnd), ident(40)]);
    let t2 = TypeRef::parse(&mut p2).unwrap();
    assert_eq!(t2.get_ref_count(), 2);
    let mut p3 = toks(&[
        plain(TokenType::Ampersand),
        plain(TokenType::LogicalAnd),
        ident(40),
    ]);
    let t3 = TypeRef::parse(&mut p3).unwrap();
    assert_eq!(t3.get_ref_count(), 3);
}

#[test]
fn parse_never_and_void() {
    let mut p = toks(&[plain(TokenType::LogicalNot)]);
    match TypeRef::parse(&mut p).unwrap() {
        TypeRef::Reference { num_references: 0, type_path, .. } => {
            assert_eq!(type_path.entries[0].name, NAME_NEVER);
        },
        other => panic!("unexpected: {other:?}"),
    }
    let mut p2 = toks(&[plain(TokenType::Ampersand), plain(TokenType::VoidLiteral)]);
    match TypeRef::parse(&mut p2).unwrap() {
        TypeRef::Void(l, 1) => assert_eq!(l, loc(1)),
        other => panic!("unexpected: {other:?}"),
    }
}

#[test]
fn parse_sized_array() {
    // [i32; 4]
    let mut p = toks(&[
        plain(TokenType::BracketLeft),
        ident(NAME_I32),
        plain(TokenType::Semicolon),
        (TokenType::FloatLiteral, Some(Literal::UInt(4))),
        plain(TokenType::BracketRight),
    ]);
    match TypeRef::parse(&mut p).unwrap() {
        TypeRef::SizedArray { num_references, child, number_elements, loc: l } => {
            assert_eq!(num_references, 0);
            assert_eq!(number_elements, 4);
            assert_eq!(l, loc(0));
            assert!(matches!(*child, TypeRef::Reference { .. }));
        },
        other => panic!("unexpected: {other:?}"),
    }
    assert!(p.is_at_end());
}

#[test]
fn parse_unsized_array_of_references() {
    // &[&&u64]
    let mut p = toks(&[
        plain(TokenType::Ampersand),
        plain(TokenType::BracketLeft),
        plain(TokenType::LogicalAnd),
        ident(50),
        plain(TokenType::BracketRight),
    ]);
    match TypeRef::parse(&mut p).unwrap() {
        TypeRef::UnsizedArray { num_references, child, .. } => {
            assert_eq!(num_references, 1);
            assert_eq!(child.get_ref_count(), 2);
        },
        other => panic!("unexpected: {other:?}"),
    }
}

#[test]
fn parse_expects_a_type() {
    let mut p = toks(&[plain(TokenType::Semicolon)]);
    assert_eq!(
        TypeRef::parse(&mut p),
        Err(ParsingError::ExpectedType { loc: loc(0), found: TokenType::Semicolon })
    );
    let mut p2 = toks(&[plain(TokenType::Ampersand)]);
    assert_eq!(
        TypeRef::parse(&mut p2),
        Err(ParsingError::ExpectedType { loc: loc(1), found: TokenType::Eof })
    );
}

#[test]
fn parse_array_wants_closing_bracket() {
    let mut p = toks(&[plain(TokenType::BracketLeft), ident(40)]);
    assert_eq!(
        TypeRef::parse(&mut p),
        Err(ParsingError::ExpectedArbitrary {
            loc: loc(2),
            expected: TokenType::BracketRight,
            found: TokenType::Eof,
        })
    );
}

#[test]
fn parse_sized_array_wants_number() {
    let mut p = toks(&[
        plain(TokenType::BracketLeft),
        ident(40),
        plain(TokenType::Semicolon),
        ident(41),
    ]);
    assert_eq!(
        TypeRef::parse(&mut p),
        Err(ParsingError::ExpectedArbitrary {
            loc: loc(3),
            expected: TokenType::FloatLiteral,
            found: TokenType::IdentifierLiteral,
        })
    );
}

#[test]
fn parse_rejects_bad_number_payload() {
    // a number token whose payload is not an unsigned integer
    let mut p = toks(&[
        plain(TokenType::BracketLeft),
        ident(40),
        plain(TokenType::Semicolon),
        (TokenType::FloatLiteral, Some(Literal::Ident(9))),
        plain(TokenType::BracketRight),
    ]);
    assert_eq!(
        TypeRef::parse(&mut p),
        Err(ParsingError::InvalidTokenization { loc: loc(3) })
    );
}

#[test]
fn parser_cursor_helpers() {
    let mut p = toks(&[ident(40), plain(TokenType::Semicolon)]);
    assert!(!p.is_at_end());
    assert_eq!(p.peek().typ, TokenType::IdentifierLiteral);
    assert!(!p.match_tok(TokenType::Semicolon));
    assert_eq!(p.expect_identifier(), Some(40));
    assert_eq!(p.previous().typ, TokenType::IdentifierLiteral);
    assert!(p.match_tok(TokenType::Semicolon));
    assert!(p.is_at_end());
    assert_eq!(p.expect_identifier(), None);
}
