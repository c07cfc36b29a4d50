//! Lexical tokens: a classified unit with its source text and, for number
//! tokens, the parsed numeric literal.
use vstd::prelude::*;

use crate::num::Num;

verus! {

/// The classification of a token.
#[derive(Clone, Copy, PartialEq, Eq, Structural, Debug)]
pub enum TokenKind {
    LeftParen,
    RightParen,
    Dot,
    Minus,
    Plus,
    Slash,
    Star,
    Caret,
    Comma,
    Bang,
    Equal,
    Greater,
    GreaterEqual,
    Less,
    LessEqual,
    Identifier,
    Number,
    Eof,
    Print,
}

/// A token's numeric payload; only number tokens carry one.
#[derive(Clone, Copy, PartialEq, Eq, Structural, Debug)]
pub enum LiteralKind {
    Number(Num),
}

/// One token: kind, the exact source substring it came from, and the parsed
/// literal when the kind is `Number`.
#[derive(Debug)]
pub struct Token {
    pub kind: TokenKind,
    pub lexeme: String,
    pub literal: Option<LiteralKind>,
}

/// The mathematical model of a token: the lexeme as a sequence of characters.
pub ghost struct TokenM {
    pub kind: TokenKind,
    pub lexeme: Seq<char>,
    pub literal: Option<LiteralKind>,
}

impl View for Token {
    type V = TokenM;

    open spec fn view(&self) -> TokenM {
        TokenM { kind: self.kind, lexeme: self.lexeme@, literal: self.literal }
    }
}

impl Clone for Token {
    fn clone(&self) -> (r: Token)
        ensures
            r@ == self@,
    {
        Token { kind: self.kind, lexeme: self.lexeme.clone(), literal: self.literal }
    }
}

impl TokenM {
    /// The model of the sentinel token that closes every token sequence.
    pub open spec fn eof_m() -> TokenM {
        TokenM { kind: TokenKind::Eof, lexeme: Seq::empty(), literal: None }
    }

    /// The model of a synthesized multiplication token (implicit
    /// multiplication inserts these without a source substring of their own).
    pub open spec fn star_m() -> TokenM {
        TokenM { kind: TokenKind::Star, lexeme: seq!['*'], literal: None }
    }
}

impl Token {
    /// The sentinel token that closes every token sequence.
    pub fn eof() -> (r: Token)
        ensures
            r@ == TokenM::eof_m(),
    {
        let r = Token { kind: TokenKind::Eof, lexeme: String::new(), literal: None };
        r
    }

    /// A synthesized multiplication token.
    pub fn star() -> (r: Token)
        ensures
            r@ == TokenM::star_m(),
    {
        let s = String::from_str("*");
        proof {
            reveal_strlit("*");
            assert(s@ =~= seq!['*']);
        }
        Token { kind: TokenKind::Star, lexeme: s, literal: None }
    }
}

/// The models of a sequence of tokens, element by element.
pub open spec fn tokens_view(ts: Seq<Token>) -> Seq<TokenM> {
    Seq::new(ts.len(), |i: int| ts[i]@)
}

} // verus!
