//! The token stream the parser walks, and the type grammar:
//! `<type> = &<type> | &&<type> | [<type>] | [<type>; <n>] | ! | void | <ident>`.
//!
//! The tokenizer itself lives with the driver; this core consumes its
//! output, a vector of tokens ending in a single end-of-input token. The
//! number token of a sized array is tokenized under the historical name
//! `FloatLiteral` though its payload is an unsigned integer; a number token
//! with any other payload is an `InvalidTokenization` error.

use vstd::prelude::*;

use crate::ast::{Path, TypeRef};
use crate::names::{GlobalStr, Location, NAME_NEVER};

verus! {

/// The kinds of token the type grammar looks at.
#[derive(Debug, Clone, Copy, PartialEq, Eq, Structural)]
pub enum TokenType {
    Ampersand,
    LogicalAnd,
    LogicalNot,
    BracketLeft,
    BracketRight,
    Semicolon,
    VoidLiteral,
    FloatLiteral,
    IdentifierLiteral,
    Eof,
}

/// A token's payload.
#[derive(Debug, Clone, Copy, PartialEq, Eq, Structural)]
pub enum Literal {
    UInt(u64),
    Ident(GlobalStr),
}

/// One token.
#[derive(Debug, Clone, Copy, PartialEq, Eq, Structural)]
pub struct Token {
    pub typ: TokenType,
    pub literal: Option<Literal>,
    pub location: Location,
}

/// A cursor over a token vector.
#[derive(Debug)]
pub struct Parser {
    pub tokens: Vec<Token>,
    pub current: usize,
}

impl Parser {
    /// Well-formed: the cursor is in range, exactly the last token is the
    /// end-of-input token, and every identifier token carries its name.
    pub open spec fn wf(self) -> bool {
        &&& self.tokens@.len() >= 1
        &&& self.current < self.tokens@.len()
        &&& forall|i: int|
            0 <= i < self.tokens@.len() ==> (((#[trigger] self.tokens@[i]).typ is Eof) <==> i
                == self.tokens@.len() - 1)
        &&& forall|i: int|
            0 <= i < self.tokens@.len() ==> ((#[trigger] self.tokens@[i]).typ
                is IdentifierLiteral ==> (self.tokens@[i].literal matches Some(Literal::Ident(g))))
    }

    /// A cursor at the start of a token vector.
    pub fn new(tokens: Vec<Token>) -> (r: Parser)
        ensures
            r.tokens@ == tokens@,
            r.current == 0,
    {
        Parser { tokens, current: 0 }
    }

    /// The token under the cursor.
    pub fn peek(&self) -> (r: &Token)
        requires
            self.wf(),
        ensures
            *r == self.tokens@[self.current as int],
    {
        &self.tokens[self.current]
    }

    /// The token just before the cursor.
    pub fn previous(&self) -> (r: &Token)
        requires
            self.wf(),
            self.current > 0,
        ensures
            *r == self.tokens@[self.current - 1],
    {
        &self.tokens[self.current - 1]
    }

    /// Whether the cursor reached the end-of-input token.
    pub fn is_at_end(&self) -> (r: bool)
        requires
            self.wf(),
        ensures
            r == (self.current == self.tokens@.len() - 1),
    {
        self.current >= self.tokens.len() - 1
    }

    /// Consumes the next token if it has the wanted kind; never called for
    /// the end-of-input kind, so the cursor stays in range.
    pub fn match_tok(&mut self, t: TokenType) -> (r: bool)
        requires
            old(self).wf(),
            !(t is Eof),
        ensures
            final(self).wf(),
            final(self).tokens@ == old(self).tokens@,
            r == (old(self).tokens@[old(self).current as int].typ == t),
            r ==> final(self).current == old(self).current + 1,
            !r ==> final(self).current == old(self).current,
    {
        let n = self.tokens.len();
        if self.tokens[self.current].typ == t {
            self.current = self.current + 1;
            true
        } else {
            false
        }
    }

    /// Consumes an identifier token and hands back its name.
    pub fn expect_identifier(&mut self) -> (r: Option<GlobalStr>)
        requires
            old(self).wf(),
        ensures
            final(self).wf(),
            final(self).tokens@ == old(self).tokens@,
            ({
                let t = old(self).tokens@[old(self).current as int];
                match r {
                    Some(g) => t.typ is IdentifierLiteral && t.literal == Some(Literal::Ident(g))
                        && final(self).current == old(self).current + 1,
                    None => !(t.typ is IdentifierLiteral) && final(self).current == old(
                        self,
                    ).current,
                }
            }),
    {
        let n = self.tokens.len();
        if self.tokens[self.current].typ == TokenType::IdentifierLiteral {
            let lit = self.tokens[self.current].literal;
            match lit {
                Some(Literal::Ident(g)) => {
                    self.current = self.current + 1;
                    Some(g)
                },
                _ => {
                    proof {
                        assert(false);
                    }
                    None
                },
            }
        } else {
            None
        }
    }
}

/// A parsing error, as the parser reports it.
#[derive(Debug, Clone, Copy, PartialEq, Eq, Structural)]
pub enum ParsingError {
    ExpectedArbitrary { loc: Location, expected: TokenType, found: TokenType },
    ExpectedType { loc: Location, found: TokenType },
    InvalidTokenization { loc: Location },
}

/// The reference weight of the run of `&` and `&&` tokens starting at `pos`.
pub open spec fn amp_weight(tokens: Seq<Token>, pos: int) -> int
    decreases tokens.len() - pos,
{
    if pos < 0 || pos >= tokens.len() {
        0
    } else if tokens[pos].typ is Ampersand {
        1 + amp_weight(tokens, pos + 1)
    } else if tokens[pos].typ is LogicalAnd {
        2 + amp_weight(tokens, pos + 1)
    } else {
        0
    }
}

/// A run of reference tokens never weighs less than nothing.
pub proof fn lemma_amp_weight_nonneg(tokens: Seq<Token>, pos: int)
    ensures
        amp_weight(tokens, pos) >= 0,
    decreases tokens.len() - pos,
{
    if 0 <= pos < tokens.len() {
        if tokens[pos].typ is Ampersand || tokens[pos].typ is LogicalAnd {
            lemma_amp_weight_nonneg(tokens, pos + 1);
        }
    }
}

/// Decides whether every run of reference tokens in the stream is light
/// enough for a reference count; the parser's contract asks for this.
pub fn amp_run_check(tokens: &Vec<Token>) -> (r: bool)
    ensures
        r == (forall|p: int| 0 <= p < tokens@.len() ==> amp_weight(tokens@, p) <= 255),
{
    let n = tokens.len();
    let mut w: u32 = 0;
    let mut i: usize = n;
    while i > 0
        invariant
            n == tokens@.len(),
            i <= n,
            w == amp_weight(tokens@, i as int),
            w <= 255,
            forall|q: int| i <= q < n ==> amp_weight(tokens@, q) <= 255,
        decreases i,
    {
        let t = tokens[i - 1].typ;
        let nw: u32 = if t == TokenType::Ampersand {
            1 + w
        } else if t == TokenType::LogicalAnd {
            2 + w
        } else {
            0
        };
        proof {
            assert(amp_weight(tokens@, i - 1) == nw);
        }
        if nw > 255 {
            return false;
        }
        w = nw;
        i -= 1;
    }
    true
}

/// The shape of a parsed type, as the grammar defines it. The parser only
/// ever writes one-segment paths, so a named type is its name.
pub ghost enum ParsedType {
    Named { num_references: u8, name: GlobalStr, loc: Location },
    Void { loc: Location, num_references: u8 },
    UnsizedArray { num_references: u8, child: Box<ParsedType>, loc: Location },
    SizedArray { num_references: u8, child: Box<ParsedType>, number_elements: usize, loc: Location },
}

/// The parse tree `t` is exactly the parsed shape `p`: same references,
/// names, sizes and locations, with each named type a one-segment path.
pub open spec fn represents(t: TypeRef, p: ParsedType) -> bool
    decreases p,
{
    match p {
        ParsedType::Named { num_references, name, loc } => t matches TypeRef::Reference {
            num_references: n2,
            type_path,
            loc: l2,
        } && n2 == num_references && l2 == loc && type_path.is_single(name),
        ParsedType::Void { loc, num_references } => t == TypeRef::Void(loc, num_references),
        ParsedType::UnsizedArray { num_references, child, loc } => t
            matches TypeRef::UnsizedArray { num_references: n2, child: c2, loc: l2 } && n2
            == num_references && l2 == loc && represents(*c2, *child),
        ParsedType::SizedArray { num_references, child, number_elements, loc } => t
            matches TypeRef::SizedArray {
            num_references: n2,
            child: c2,
            number_elements: e2,
            loc: l2,
        } && n2 == num_references && e2 == number_elements && l2 == loc && represents(
            *c2,
            *child,
        ),
    }
}

/// What parsing a type at `pos`, with `refs` references already consumed,
/// yields: the parsed shape and the position after it, or the error.
pub open spec fn spec_parse_type(tokens: Seq<Token>, pos: int, refs: int) -> Result<
    (ParsedType, int),
    ParsingError,
>
    decreases tokens.len() - pos,
{
    if pos < 0 || pos >= tokens.len() - 1 {
        Err(
            ParsingError::ExpectedType {
                loc: tokens[tokens.len() - 1].location,
                found: TokenType::Eof,
            },
        )
    } else {
        let t = tokens[pos];
        if t.typ is Ampersand {
            spec_parse_type(tokens, pos + 1, refs + 1)
        } else if t.typ is LogicalAnd {
            spec_parse_type(tokens, pos + 1, refs + 2)
        } else if t.typ is BracketLeft {
            match spec_parse_type(tokens, pos + 1, 0) {
                Err(e) => Err(e),
                Ok((child, p2)) => {
                    if tokens[p2].typ is Semicolon {
                        if !(tokens[p2 + 1].typ is FloatLiteral) {
                            Err(
                                ParsingError::ExpectedArbitrary {
                                    loc: tokens[p2 + 1].location,
                                    expected: TokenType::FloatLiteral,
                                    found: tokens[p2 + 1].typ,
                                },
                            )
                        } else {
                            match tokens[p2 + 1].literal {
                                Some(Literal::UInt(lit)) => {
                                    if !(tokens[p2 + 2].typ is BracketRight) {
                                        Err(
                                            ParsingError::ExpectedArbitrary {
                                                loc: tokens[p2 + 2].location,
                                                expected: TokenType::BracketRight,
                                                found: tokens[p2 + 2].typ,
                                            },
                                        )
                                    } else {
                                        Ok(
                                            (
                                                ParsedType::SizedArray {
                                                    num_references: refs as u8,
                                                    child: Box::new(child),
                                                    number_elements: lit as usize,
                                                    loc: t.location,
                                                },
                                                p2 + 3,
                                            ),
                                        )
                                    }
                                },
                                _ => Err(
                                    ParsingError::InvalidTokenization {
                                        loc: tokens[p2 + 1].location,
                                    },
                                ),
                            }
                        }
                    } else if !(tokens[p2].typ is BracketRight) {
                        Err(
                            ParsingError::ExpectedArbitrary {
                                loc: tokens[p2].location,
                                expected: TokenType::BracketRight,
                                found: tokens[p2].typ,
                            },
                        )
                    } else {
                        Ok(
                            (
                                ParsedType::UnsizedArray {
                                    num_references: refs as u8,
                                    child: Box::new(child),
                                    loc: t.location,
                                },
                                p2 + 1,
                            ),
                        )
                    }
                },
            }
        } else if t.typ is LogicalNot {
            Ok(
                (
                    ParsedType::Named {
                        num_references: refs as u8,
                        name: NAME_NEVER,
                        loc: t.location,
                    },
                    pos + 1,
                ),
            )
        } else if t.typ is VoidLiteral {
            Ok((ParsedType::Void { loc: t.location, num_references: refs as u8 }, pos + 1))
        } else if t.typ is IdentifierLiteral {
            match t.literal {
                Some(Literal::Ident(g)) => Ok(
                    (
                        ParsedType::Named {
                            num_references: refs as u8,
                            name: g,
                            loc: t.location,
                        },
                        pos + 1,
                    ),
                ),
                _ => Err(ParsingError::ExpectedType { loc: t.location, found: t.typ }),
            }
        } else {
            Err(ParsingError::ExpectedType { loc: t.location, found: t.typ })
        }
    }
}

impl TypeRef {
    /// Parses one type from the token stream: leading references, then an
    /// array, `!`, `void`, or a named type.
    pub fn parse(parser: &mut Parser) -> (r: Result<TypeRef, ParsingError>)
        requires
            old(parser).wf(),
            forall|p: int|
                0 <= p < old(parser).tokens@.len() ==> amp_weight(old(parser).tokens@, p) <= 255,
        ensures
            final(parser).wf(),
            final(parser).tokens@ == old(parser).tokens@,
            final(parser).current >= old(parser).current,
            ({
                let out = spec_parse_type(old(parser).tokens@, old(parser).current as int, 0);
                match out {
                    Ok(tp) => (r matches Ok(t) && represents(t, tp.0)) && final(parser).current
                        == tp.1,
                    Err(e) => r == Err::<TypeRef, ParsingError>(e),
                }
            }),
        decreases old(parser).tokens@.len() - old(parser).current,
    {
        let ghost toks = parser.tokens@;
        let ghost pos0 = parser.current as int;
        let mut number_of_references: u8 = 0;
        loop
            invariant
                parser.wf(),
                parser.tokens@ == toks,
                parser.current >= pos0,
                forall|p: int| 0 <= p < toks.len() ==> amp_weight(toks, p) <= 255,
                number_of_references as int + amp_weight(toks, parser.current as int)
                    == amp_weight(toks, pos0),
                spec_parse_type(toks, pos0, 0) == spec_parse_type(
                    toks,
                    parser.current as int,
                    number_of_references as int,
                ),
            ensures
                parser.wf(),
                parser.tokens@ == toks,
                parser.current >= pos0,
                !(toks[parser.current as int].typ is Ampersand),
                !(toks[parser.current as int].typ is LogicalAnd),
                number_of_references as int + amp_weight(toks, parser.current as int)
                    == amp_weight(toks, pos0),
                spec_parse_type(toks, pos0, 0) == spec_parse_type(
                    toks,
                    parser.current as int,
                    number_of_references as int,
                ),
            decreases toks.len() - parser.current,
        {
            if parser.match_tok(TokenType::Ampersand) {
                proof {
                    assert(amp_weight(toks, parser.current - 1) == 1 + amp_weight(
                        toks,
                        parser.current as int,
                    ));
                    lemma_amp_weight_nonneg(toks, parser.current as int);
                }
                number_of_references = number_of_references + 1;
            } else if parser.match_tok(TokenType::LogicalAnd) {
                proof {
                    assert(amp_weight(toks, parser.current - 1) == 2 + amp_weight(
                        toks,
                        parser.current as int,
                    ));
                    lemma_amp_weight_nonneg(toks, parser.current as int);
                }
                number_of_references = number_of_references + 2;
            } else {
                break ;
            }
        }
        let ghost refs = number_of_references as int;
        let ghost cur = parser.current as int;
        if parser.is_at_end() {
            return Err(
                ParsingError::ExpectedType {
                    loc: parser.peek().location,
                    found: TokenType::Eof,
                },
            );
        }
        let loc = parser.peek().location;
        if parser.match_tok(TokenType::BracketLeft) {
            let child = match Self::parse(parser) {
                Ok(c) => c,
                Err(e) => {
                    return Err(e);
                },
            };
            if parser.match_tok(TokenType::Semicolon) {
                if !parser.match_tok(TokenType::FloatLiteral) {
                    return Err(
                        ParsingError::ExpectedArbitrary {
                            loc: parser.peek().location,
                            expected: TokenType::FloatLiteral,
                            found: parser.peek().typ,
                        },
                    );
                }
                let lit: u64 = match parser.previous().literal {
                    Some(Literal::UInt(lit)) => lit,
                    _ => {
                        return Err(
                            ParsingError::InvalidTokenization { loc: parser.previous().location },
                        );
                    },
                };
                if !parser.match_tok(TokenType::BracketRight) {
                    return Err(
                        ParsingError::ExpectedArbitrary {
                            loc: parser.peek().location,
                            expected: TokenType::BracketRight,
                            found: parser.peek().typ,
                        },
                    );
                }
                return Ok(
                    TypeRef::SizedArray {
                        num_references: number_of_references,
                        child: Box::new(child),
                        number_elements: lit as usize,
                        loc,
                    },
                );
            } else if !parser.match_tok(TokenType::BracketRight) {
                return Err(
                    ParsingError::ExpectedArbitrary {
                        loc: parser.peek().location,
                        expected: TokenType::BracketRight,
                        found: parser.peek().typ,
                    },
                );
            } else {
                return Ok(
                    TypeRef::UnsizedArray {
                        num_references: number_of_references,
                        child: Box::new(child),
                        loc,
                    },
                );
            }
        } else if parser.match_tok(TokenType::LogicalNot) {
            return Ok(
                TypeRef::Reference {
                    num_references: number_of_references,
                    type_path: Path::single(NAME_NEVER),
                    loc,
                },
            );
        } else if parser.match_tok(TokenType::VoidLiteral) {
            return Ok(TypeRef::Void(loc, number_of_references));
        } else {
            let ident = match parser.expect_identifier() {
                Some(ident) => ident,
                None => {
                    return Err(
                        ParsingError::ExpectedType {
                            loc: parser.peek().location,
                            found: parser.peek().typ,
                        },
                    );
                },
            };
            return Ok(
                TypeRef::Reference {
                    num_references: number_of_references,
                    type_path: Path::single(ident),
                    loc,
                },
            );
        }
    }
}

} // verus!
