//! The lexer: turns source text into an ordered token sequence that ends with
//! exactly one end-of-input sentinel. `spec_scan` is the mathematical
//! definition of the token sequence of a text; `Scanner::scan` computes it.
use vstd::prelude::*;

use crate::error::Error;
use crate::num::{dec_bits, Num};
use crate::token::{tokens_view, LiteralKind, Token, TokenKind, TokenM};

verus! {

/// A decimal digit.
pub open spec fn is_digit_c(c: char) -> bool {
    ('0' as u32) <= (c as u32) && (c as u32) <= ('9' as u32)
}

/// A letter or an underscore: what may start an identifier.
pub open spec fn is_alpha_c(c: char) -> bool {
    (('a' as u32) <= (c as u32) && (c as u32) <= ('z' as u32))
    || (('A' as u32) <= (c as u32) && (c as u32) <= ('Z' as u32))
    || c == '_'
}

/// What may continue an identifier.
pub open spec fn is_alnum_c(c: char) -> bool {
    is_digit_c(c) || is_alpha_c(c)
}

fn is_digit(c: char) -> (r: bool)
    ensures
        r == is_digit_c(c),
{
    (c as u32) >= ('0' as u32) && (c as u32) <= ('9' as u32)
}

fn is_alpha(c: char) -> (r: bool)
    ensures
        r == is_alpha_c(c),
{
    ((c as u32) >= ('a' as u32) && (c as u32) <= ('z' as u32))
    || ((c as u32) >= ('A' as u32) && (c as u32) <= ('Z' as u32))
    || c == '_'
}

fn is_alnum(c: char) -> (r: bool)
    ensures
        r == is_alnum_c(c),
{
    is_digit(c) || is_alpha(c)
}

/// The first position at or after `i` that does not hold a digit.
pub open spec fn digit_run_end(s: Seq<char>, i: int) -> int
    decreases s.len() - i when 0 <= i <= s.len()
{
    if i >= s.len() {
        i
    } else if is_digit_c(s[i]) {
        digit_run_end(s, i + 1)
    } else {
        i
    }
}

/// The first position at or after `i` that does not hold an identifier
/// character.
pub open spec fn alnum_run_end(s: Seq<char>, i: int) -> int
    decreases s.len() - i when 0 <= i <= s.len()
{
    if i >= s.len() {
        i
    } else if is_alnum_c(s[i]) {
        alnum_run_end(s, i + 1)
    } else {
        i
    }
}

/// The position of the next newline at or after `i`, or the end of the text.
pub open spec fn line_end(s: Seq<char>, i: int) -> int
    decreases s.len() - i when 0 <= i <= s.len()
{
    if i >= s.len() {
        i
    } else if s[i] == '\n' {
        i
    } else {
        line_end(s, i + 1)
    }
}

/// Clamps a target position so that it strictly advances past `i` and stays
/// inside the text; the scanner only reaches it with positions that already
/// do both, so this is a termination guard, not a semantic device.
pub open spec fn adv(s: Seq<char>, i: int, j: int) -> int {
    if j <= i {
        i + 1
    } else if j > s.len() {
        s.len() as int
    } else {
        j
    }
}

/// The kind of a token made of this single character, if there is one.
pub open spec fn single_kind(c: char) -> Option<TokenKind> {
    if c == '(' {
        Some(TokenKind::LeftParen)
    } else if c == ')' {
        Some(TokenKind::RightParen)
    } else if c == '.' {
        Some(TokenKind::Dot)
    } else if c == '-' {
        Some(TokenKind::Minus)
    } else if c == '+' {
        Some(TokenKind::Plus)
    } else if c == '*' {
        Some(TokenKind::Star)
    } else if c == '^' {
        Some(TokenKind::Caret)
    } else if c == '!' {
        Some(TokenKind::Bang)
    } else if c == '=' {
        Some(TokenKind::Equal)
    } else if c == ',' {
        Some(TokenKind::Comma)
    } else {
        None
    }
}

fn single_token_kind(c: char) -> (r: Option<TokenKind>)
    ensures
        r == single_kind(c),
{
    match c {
        '(' => Some(TokenKind::LeftParen),
        ')' => Some(TokenKind::RightParen),
        '.' => Some(TokenKind::Dot),
        '-' => Some(TokenKind::Minus),
        '+' => Some(TokenKind::Plus),
        '*' => Some(TokenKind::Star),
        '^' => Some(TokenKind::Caret),
        '!' => Some(TokenKind::Bang),
        '=' => Some(TokenKind::Equal),
        ',' => Some(TokenKind::Comma),
        _ => None,
    }
}

/// A token without a literal payload.
pub open spec fn simple_m(kind: TokenKind, lexeme: Seq<char>) -> TokenM {
    TokenM { kind, lexeme, literal: None }
}

/// A number token: its literal is the binary64 value its numeral denotes.
pub open spec fn num_m(lexeme: Seq<char>) -> TokenM {
    TokenM {
        kind: TokenKind::Number,
        lexeme,
        literal: Some(LiteralKind::Number(Num { bits: dec_bits(lexeme) })),
    }
}

/// The name of the print keyword.
pub open spec fn print_seq() -> Seq<char> {
    seq!['p', 'r', 'i', 'n', 't']
}

/// Prepends one token to a scan result, keeping failure as failure.
pub open spec fn cons_tok(t: TokenM, rest: Option<Seq<TokenM>>) -> Option<Seq<TokenM>> {
    match rest {
        Some(r) => Some(seq![t] + r),
        None => None,
    }
}

/// The token sequence of the text from position `i` on: `None` when an
/// unrecognized character stops the lexer, otherwise the tokens in order,
/// closed by the end-of-input sentinel.
pub open spec fn spec_scan(s: Seq<char>, i: int) -> Option<Seq<TokenM>>
    decreases s.len() - i when 0 <= i <= s.len()
{
    if i >= s.len() {
        Some(seq![TokenM::eof_m()])
    } else {
        let c = s[i];
        if single_kind(c) is Some {
            cons_tok(simple_m(single_kind(c)->Some_0, s.subrange(i, i + 1)), spec_scan(s, i + 1))
        } else if c == '<' {
            if i + 1 < s.len() && s[i + 1] == '=' {
                cons_tok(simple_m(TokenKind::LessEqual, s.subrange(i, i + 2)), spec_scan(s, i + 2))
            } else {
                cons_tok(simple_m(TokenKind::Less, s.subrange(i, i + 1)), spec_scan(s, i + 1))
            }
        } else if c == '>' {
            if i + 1 < s.len() && s[i + 1] == '=' {
                cons_tok(
                    simple_m(TokenKind::GreaterEqual, s.subrange(i, i + 2)),
                    spec_scan(s, i + 2),
                )
            } else {
                cons_tok(simple_m(TokenKind::Greater, s.subrange(i, i + 1)), spec_scan(s, i + 1))
            }
        } else if c == '/' {
            if i + 1 < s.len() && s[i + 1] == '/' {
                spec_scan(s, adv(s, i, line_end(s, i + 2)))
            } else {
                cons_tok(simple_m(TokenKind::Slash, s.subrange(i, i + 1)), spec_scan(s, i + 1))
            }
        } else if c == ' ' || c == '\r' || c == '\t' || c == '\n' {
            spec_scan(s, i + 1)
        } else if is_digit_c(c) {
            let j1 = adv(s, i, digit_run_end(s, i + 1));
            let j2 = if j1 + 1 < s.len() && s[j1] == '.' && is_digit_c(s[j1 + 1]) {
                adv(s, j1, digit_run_end(s, j1 + 1))
            } else {
                j1
            };
            let rest = if j2 < s.len() && is_alpha_c(s[j2]) {
                cons_tok(TokenM::star_m(), spec_scan(s, j2))
            } else {
                spec_scan(s, j2)
            };
            cons_tok(num_m(s.subrange(i, j2)), rest)
        } else if is_alpha_c(c) {
            let j = adv(s, i, alnum_run_end(s, i + 1));
            let lex = s.subrange(i, j);
            let kind = if lex == print_seq() {
                TokenKind::Print
            } else {
                TokenKind::Identifier
            };
            cons_tok(simple_m(kind, lex), spec_scan(s, j))
        } else {
            None
        }
    }
}

/// Appends a finished prefix of tokens in front of a scan result.
pub open spec fn glue(done: Seq<TokenM>, rest: Option<Seq<TokenM>>) -> Option<Seq<TokenM>> {
    match rest {
        Some(r) => Some(done + r),
        None => None,
    }
}

proof fn lemma_glue_step(done: Seq<TokenM>, t: TokenM, rest: Option<Seq<TokenM>>)
    ensures
        glue(done, cons_tok(t, rest)) == glue(done.push(t), rest),
{
    match rest {
        Some(r) => {
            assert(done + (seq![t] + r) =~= done.push(t) + r);
        },
        None => {},
    }
}

proof fn lemma_tokens_view_push(ts: Seq<Token>, t: Token)
    ensures
        tokens_view(ts.push(t)) == tokens_view(ts).push(t@),
{
    assert(tokens_view(ts.push(t)) =~= tokens_view(ts).push(t@));
}

/// The lexer over one piece of source text.
pub struct Scanner {
    source: String,
    chars: Vec<char>,
}

impl View for Scanner {
    type V = Seq<char>;

    closed spec fn view(&self) -> Seq<char> {
        self.source@
    }
}

impl Scanner {
    /// The characters mirror the source text exactly.
    pub closed spec fn wf(&self) -> bool {
        self.chars@ == self.source@
    }

    pub fn new(source: String) -> (s: Scanner)
        ensures
            s.wf(),
            s@ == source@,
    {
        let n = source.as_str().unicode_len();
        let mut chars: Vec<char> = Vec::new();
        let mut i: usize = 0;
        while i < n
            invariant
                i <= n,
                n == source@.len(),
                chars@ == source@.subrange(0, i as int),
            decreases n - i,
        {
            let c = source.as_str().get_char(i);
            chars.push(c);
            proof {
                assert(chars@ =~= source@.subrange(0, i + 1 as int));
            }
            i = i + 1;
        }
        proof {
            assert(source@.subrange(0, n as int) =~= source@);
        }
        Scanner { source, chars }
    }

    /// Scans the whole text. On success the tokens are exactly `spec_scan` of
    /// the text; the single lexical failure is an unrecognized character.
    pub fn scan(&self) -> (r: Result<Vec<Token>, Error>)
        requires
            self.wf(),
        ensures
            match r {
                Ok(ts) => spec_scan(self@, 0) == Some(tokens_view(ts@)),
                Err(e) => spec_scan(self@, 0) == None::<Seq<TokenM>> && e == Error::LexError,
            },
    {
        let ghost s = self@;
        let n = self.chars.len();
        let mut toks: Vec<Token> = Vec::new();
        let mut i: usize = 0;
        while i < n
            invariant
                i <= n,
                n == self.chars.len(),
                self.wf(),
                s == self@,
                spec_scan(s, 0) == glue(tokens_view(toks@), spec_scan(s, i as int)),
            decreases n - i,
        {
            let ghost i0 = i as int;
            let c = self.chars[i];
            if let Some(kind) = single_token_kind(c) {
                let lexeme = self.source.as_str().substring_char(i, i + 1).to_owned();
                let tok = Token { kind, lexeme, literal: None };
                proof {
                    assert(spec_scan(s, i0) == cons_tok(simple_m(kind, s.subrange(i0, i0 + 1)), spec_scan(s, i0 + 1)));
                    lemma_glue_step(tokens_view(toks@), tok@, spec_scan(s, i0 + 1));
                    lemma_tokens_view_push(toks@, tok);
                }
                toks.push(tok);
                i = i + 1;
            } else if c == '<' || c == '>' {
                let two = i + 1 < n && self.chars[i + 1] == '=';
                let kind = if c == '<' {
                    if two { TokenKind::LessEqual } else { TokenKind::Less }
                } else {
                    if two { TokenKind::GreaterEqual } else { TokenKind::Greater }
                };
                let j = if two { i + 2 } else { i + 1 };
                let lexeme = self.source.as_str().substring_char(i, j).to_owned();
                let tok = Token { kind, lexeme, literal: None };
                proof {
                    assert(spec_scan(s, i0) == cons_tok(simple_m(kind, s.subrange(i0, j as int)), spec_scan(s, j as int)));
                    lemma_glue_step(tokens_view(toks@), tok@, spec_scan(s, j as int));
                    lemma_tokens_view_push(toks@, tok);
                }
                toks.push(tok);
                i = j;
            } else if c == '/' {
                if i + 1 < n && self.chars[i + 1] == '/' {
                    let mut j: usize = i + 2;
                    while j < n && self.chars[j] != '\n'
                        invariant
                            i + 2 <= j <= n,
                            n == self.chars.len(),
                            self.wf(),
                            s == self@,
                            line_end(s, i0 + 2) == line_end(s, j as int),
                        decreases n - j,
                    {
                        proof {
                            assert(line_end(s, j as int) == line_end(s, j + 1 as int));
                        }
                        j = j + 1;
                    }
                    proof {
                        assert(line_end(s, j as int) == j as int);
                        assert(spec_scan(s, i0) == spec_scan(s, adv(s, i0, line_end(s, i0 + 2))));
                        assert(adv(s, i0, line_end(s, i0 + 2)) == j as int);
                    }
                    i = j;
                } else {
                    let lexeme = self.source.as_str().substring_char(i, i + 1).to_owned();
                    let tok = Token { kind: TokenKind::Slash, lexeme, literal: None };
                    proof {
                        assert(spec_scan(s, i0) == cons_tok(simple_m(TokenKind::Slash, s.subrange(i0, i0 + 1)), spec_scan(s, i0 + 1)));
                        lemma_glue_step(tokens_view(toks@), tok@, spec_scan(s, i0 + 1));
                        lemma_tokens_view_push(toks@, tok);
                    }
                    toks.push(tok);
                    i = i + 1;
                }
            } else if c == ' ' || c == '\r' || c == '\t' || c == '\n' {
                proof {
                    assert(spec_scan(s, i0) == spec_scan(s, i0 + 1));
                }
                i = i + 1;
            } else if is_digit(c) {
                let mut j: usize = i + 1;
                while j < n && is_digit(self.chars[j])
                    invariant
                        i + 1 <= j <= n,
                        n == self.chars.len(),
                        self.wf(),
                        s == self@,
                        digit_run_end(s, i0 + 1) == digit_run_end(s, j as int),
                    decreases n - j,
                {
                    proof {
                        assert(digit_run_end(s, j as int) == digit_run_end(s, j + 1 as int));
                    }
                    j = j + 1;
                }
                proof {
                    assert(digit_run_end(s, j as int) == j as int);
                }
                let ghost j1 = adv(s, i0, digit_run_end(s, i0 + 1));
                proof {
                    assert(j1 == j as int);
                }
                let mut j2: usize = j;
                if j < n && self.chars[j] == '.' && j + 1 < n && is_digit(self.chars[j + 1]) {
                    let mut k: usize = j + 1;
                    while k < n && is_digit(self.chars[k])
                        invariant
                            j + 1 <= k <= n,
                            n == self.chars.len(),
                            self.wf(),
                            s == self@,
                            digit_run_end(s, j + 1 as int) == digit_run_end(s, k as int),
                        decreases n - k,
                    {
                        proof {
                            assert(digit_run_end(s, k as int) == digit_run_end(s, k + 1 as int));
                        }
                        k = k + 1;
                    }
                    proof {
                        assert(digit_run_end(s, k as int) == k as int);
                        assert(k as int == adv(s, j1, digit_run_end(s, j1 + 1)));
                    }
                    j2 = k;
                }
                let lexeme_str = self.source.as_str().substring_char(i, j2);
                let value = Num::from_decimal(lexeme_str);
                let tok = Token {
                    kind: TokenKind::Number,
                    lexeme: lexeme_str.to_owned(),
                    literal: Some(LiteralKind::Number(value)),
                };
                proof {
                    assert(tok@ == num_m(s.subrange(i0, j2 as int)));
                    lemma_glue_step(tokens_view(toks@), tok@, spec_scan(s, i0));
                }
                let ghost rest0 = if j2 < n && is_alpha_c(s[j2 as int]) {
                    cons_tok(TokenM::star_m(), spec_scan(s, j2 as int))
                } else {
                    spec_scan(s, j2 as int)
                };
                proof {
                    assert(spec_scan(s, i0) == cons_tok(num_m(s.subrange(i0, j2 as int)), rest0));
                    lemma_glue_step(tokens_view(toks@), tok@, rest0);
                    lemma_tokens_view_push(toks@, tok);
                }
                toks.push(tok);
                if j2 < n && is_alpha(self.chars[j2]) {
                    let star = Token::star();
                    proof {
                        lemma_glue_step(tokens_view(toks@), star@, spec_scan(s, j2 as int));
                        lemma_tokens_view_push(toks@, star);
                    }
                    toks.push(star);
                }
                i = j2;
            } else if is_alpha(c) {
                let mut j: usize = i + 1;
                while j < n && is_alnum(self.chars[j])
                    invariant
                        i + 1 <= j <= n,
                        n == self.chars.len(),
                        self.wf(),
                        s == self@,
                        alnum_run_end(s, i0 + 1) == alnum_run_end(s, j as int),
                    decreases n - j,
                {
                    proof {
                        assert(alnum_run_end(s, j as int) == alnum_run_end(s, j + 1 as int));
                    }
                    j = j + 1;
                }
                proof {
                    assert(alnum_run_end(s, j as int) == j as int);
                    assert(adv(s, i0, alnum_run_end(s, i0 + 1)) == j as int);
                }
                let lexeme_str = self.source.as_str().substring_char(i, j);
                let lexeme = lexeme_str.to_owned();
                let keyword = String::from_str("print");
                let is_print = lexeme.eq(&keyword);
                proof {
                    reveal_strlit("print");
                    assert(keyword@ =~= print_seq());
                }
                let kind = if is_print {
                    TokenKind::Print
                } else {
                    TokenKind::Identifier
                };
                let tok = Token { kind, lexeme, literal: None };
                proof {
                    assert(spec_scan(s, i0) == cons_tok(simple_m(kind, s.subrange(i0, j as int)), spec_scan(s, j as int)));
                    lemma_glue_step(tokens_view(toks@), tok@, spec_scan(s, j as int));
                    lemma_tokens_view_push(toks@, tok);
                }
                toks.push(tok);
                i = j;
            } else {
                proof {
                    assert(spec_scan(s, i0) == None::<Seq<TokenM>>);
                }
                return Err(Error::LexError);
            }
        }
        let eof = Token::eof();
        proof {
            assert(spec_scan(s, n as int) == Some(seq![TokenM::eof_m()]));
            lemma_tokens_view_push(toks@, eof);
            assert(tokens_view(toks@) + seq![TokenM::eof_m()] =~= tokens_view(toks@.push(eof)));
        }
        toks.push(eof);
        Ok(toks)
    }
}

} // verus!
