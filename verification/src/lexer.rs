//! The lexer: source text to an ordered token sequence. Whitespace is
//! skipped; single characters map to punctuation tokens with two-character
//! lookahead for `->`, `==` and `=!`; digit runs become 64-bit integer
//! literals; letter runs become keywords or identifiers. An unrecognized
//! character or an oversized integer literal is reported as an error with
//! its position. The spec function `spec_tokenize` states the whole
//! translation, and `tokenize` is proved to implement it.

use vstd::prelude::*;
use vstd::string::StrSliceExecFns;

verus! {

/// One token of the language.
#[derive(Debug, PartialEq)]
pub enum Token {
    Identifier(String),
    Minus,
    Plus,
    Divide,
    Multiply,
    CompareEqual,
    CompareNotEqual,
    Equal,
    Return,
    If,
    Else,
    Func,
    Print,
    This,
    LeftParen,
    RightParen,
    LeftBracket,
    RightBracket,
    Colon,
    Comma,
    SemiColon,
    Arrow,
    Integer(i64),
}

/// Ghost mirror of `Token`.
pub enum TokenV {
    Identifier(Seq<char>),
    Minus,
    Plus,
    Divide,
    Multiply,
    CompareEqual,
    CompareNotEqual,
    Equal,
    Return,
    If,
    Else,
    Func,
    Print,
    This,
    LeftParen,
    RightParen,
    LeftBracket,
    RightBracket,
    Colon,
    Comma,
    SemiColon,
    Arrow,
    Integer(i64),
}

/// A lexical failure: the offending position in characters, and what stood
/// there.
#[derive(Debug, PartialEq)]
pub enum LexError {
    UnexpectedCharacter { character: char, position: usize },
    IntegerOutOfRange { position: usize },
}

/// The view of a token.
pub open spec fn token_view(t: Token) -> TokenV {
    match t {
        Token::Identifier(name) => TokenV::Identifier(name@),
        Token::Minus => TokenV::Minus,
        Token::Plus => TokenV::Plus,
        Token::Divide => TokenV::Divide,
        Token::Multiply => TokenV::Multiply,
        Token::CompareEqual => TokenV::CompareEqual,
        Token::CompareNotEqual => TokenV::CompareNotEqual,
        Token::Equal => TokenV::Equal,
        Token::Return => TokenV::Return,
        Token::If => TokenV::If,
        Token::Else => TokenV::Else,
        Token::Func => TokenV::Func,
        Token::Print => TokenV::Print,
        Token::This => TokenV::This,
        Token::LeftParen => TokenV::LeftParen,
        Token::RightParen => TokenV::RightParen,
        Token::LeftBracket => TokenV::LeftBracket,
        Token::RightBracket => TokenV::RightBracket,
        Token::Colon => TokenV::Colon,
        Token::Comma => TokenV::Comma,
        Token::SemiColon => TokenV::SemiColon,
        Token::Arrow => TokenV::Arrow,
        Token::Integer(value) => TokenV::Integer(value),
    }
}

/// The view of a token sequence, elementwise.
pub open spec fn tokens_view(ts: Seq<Token>) -> Seq<TokenV> {
    Seq::new(ts.len(), |i: int| token_view(ts[i]))
}

/// Views commute with `push` on token lists.
pub proof fn lemma_tokens_view_push(ts: Seq<Token>, t: Token)
    ensures
        tokens_view(ts.push(t)) == tokens_view(ts).push(token_view(t)),
{
    assert(tokens_view(ts.push(t)) =~= tokens_view(ts).push(token_view(t)));
}

/// Whether two tokens are the same token, identifiers and integer literals
/// included.
#[verifier::rlimit(60)]
pub fn token_eq(a: &Token, b: &Token) -> (r: bool)
    ensures
        r == (token_view(*a) == token_view(*b)),
{
    match (a, b) {
        (Token::Identifier(x), Token::Identifier(y)) => *x == *y,
        (Token::Integer(x), Token::Integer(y)) => *x == *y,
        (Token::Minus, Token::Minus) => true,
        (Token::Plus, Token::Plus) => true,
        (Token::Divide, Token::Divide) => true,
        (Token::Multiply, Token::Multiply) => true,
        (Token::CompareEqual, Token::CompareEqual) => true,
        (Token::CompareNotEqual, Token::CompareNotEqual) => true,
        (Token::Equal, Token::Equal) => true,
        (Token::Return, Token::Return) => true,
        (Token::If, Token::If) => true,
        (Token::Else, Token::Else) => true,
        (Token::Func, Token::Func) => true,
        (Token::Print, Token::Print) => true,
        (Token::This, Token::This) => true,
        (Token::LeftParen, Token::LeftParen) => true,
        (Token::RightParen, Token::RightParen) => true,
        (Token::LeftBracket, Token::LeftBracket) => true,
        (Token::RightBracket, Token::RightBracket) => true,
        (Token::Colon, Token::Colon) => true,
        (Token::Comma, Token::Comma) => true,
        (Token::SemiColon, Token::SemiColon) => true,
        (Token::Arrow, Token::Arrow) => true,
        _ => false,
    }
}

/// A copy of a token, equal to the original under the view.
pub fn clone_token(t: &Token) -> (r: Token)
    ensures
        token_view(r) == token_view(*t),
{
    match t {
        Token::Identifier(name) => Token::Identifier(name.clone()),
        Token::Integer(value) => Token::Integer(*value),
        Token::Minus => Token::Minus,
        Token::Plus => Token::Plus,
        Token::Divide => Token::Divide,
        Token::Multiply => Token::Multiply,
        Token::CompareEqual => Token::CompareEqual,
        Token::CompareNotEqual => Token::CompareNotEqual,
        Token::Equal => Token::Equal,
        Token::Return => Token::Return,
        Token::If => Token::If,
        Token::Else => Token::Else,
        Token::Func => Token::Func,
        Token::Print => Token::Print,
        Token::This => Token::This,
        Token::LeftParen => Token::LeftParen,
        Token::RightParen => Token::RightParen,
        Token::LeftBracket => Token::LeftBracket,
        Token::RightBracket => Token::RightBracket,
        Token::Colon => Token::Colon,
        Token::Comma => Token::Comma,
        Token::SemiColon => Token::SemiColon,
        Token::Arrow => Token::Arrow,
    }
}

/// The whitespace characters that the lexer skips.
pub open spec fn is_space(c: char) -> bool {
    c == ' ' || c == '\n' || c == '\t'
}

/// A decimal digit.
pub open spec fn is_digit(c: char) -> bool {
    48 <= c as u32 && c as u32 <= 57
}

/// A letter; identifiers and keywords are letter runs.
pub open spec fn is_alpha(c: char) -> bool {
    (65 <= c as u32 && c as u32 <= 90) || (97 <= c as u32 && c as u32 <= 122)
}

/// The numeric value of a decimal digit.
pub open spec fn digit_val(c: char) -> int {
    c as u32 - 48
}

/// The first index at or after `i` that does not hold a digit.
pub open spec fn digit_run_end(s: Seq<char>, i: int) -> int
    decreases s.len() - i,
    when 0 <= i <= s.len()
{
    if i < s.len() && is_digit(s[i]) {
        digit_run_end(s, i + 1)
    } else {
        i
    }
}

/// The first index at or after `i` that does not hold a letter.
pub open spec fn alpha_run_end(s: Seq<char>, i: int) -> int
    decreases s.len() - i,
    when 0 <= i <= s.len()
{
    if i < s.len() && is_alpha(s[i]) {
        alpha_run_end(s, i + 1)
    } else {
        i
    }
}

/// A digit run ends within the text, contains only digits, and stops at the
/// first non-digit.
pub proof fn lemma_digit_run_end(s: Seq<char>, i: int)
    requires
        0 <= i <= s.len(),
    ensures
        i <= digit_run_end(s, i) <= s.len(),
        forall|j: int| i <= j < digit_run_end(s, i) ==> is_digit(#[trigger] s[j]),
        digit_run_end(s, i) == s.len() || !is_digit(s[digit_run_end(s, i)]),
    decreases s.len() - i,
{
    if i < s.len() && is_digit(s[i]) {
        lemma_digit_run_end(s, i + 1);
    }
}

/// A letter run ends within the text, contains only letters, and stops at
/// the first non-letter.
pub proof fn lemma_alpha_run_end(s: Seq<char>, i: int)
    requires
        0 <= i <= s.len(),
    ensures
        i <= alpha_run_end(s, i) <= s.len(),
        forall|j: int| i <= j < alpha_run_end(s, i) ==> is_alpha(#[trigger] s[j]),
        alpha_run_end(s, i) == s.len() || !is_alpha(s[alpha_run_end(s, i)]),
    decreases s.len() - i,
{
    if i < s.len() && is_alpha(s[i]) {
        lemma_alpha_run_end(s, i + 1);
    }
}

/// The base-10 value of a digit run, as an unbounded integer.
pub open spec fn digits_value(ds: Seq<char>) -> int
    decreases ds,
{
    if ds.len() == 0 {
        0
    } else {
        digits_value(ds.subrange(0, ds.len() - 1)) * 10 + digit_val(ds[ds.len() - 1])
    }
}

/// The value of a digit run is nonnegative and no prefix exceeds it.
pub proof fn lemma_digits_value_bounds(ds: Seq<char>)
    requires
        forall|j: int| 0 <= j < ds.len() ==> is_digit(#[trigger] ds[j]),
    ensures
        digits_value(ds) >= 0,
        forall|j: int|
            0 <= j <= ds.len() ==> digits_value(#[trigger] ds.subrange(0, j)) <= digits_value(ds),
    decreases ds,
{
    if ds.len() == 0 {
        assert(ds.subrange(0, 0) =~= ds);
    } else {
        let front = ds.subrange(0, ds.len() - 1);
        lemma_digits_value_bounds(front);
        assert forall|j: int|
            0 <= j <= ds.len() implies digits_value(#[trigger] ds.subrange(0, j)) <= digits_value(
            ds,
        ) by {
            if j < ds.len() {
                assert(ds.subrange(0, j) =~= front.subrange(0, j));
            } else {
                assert(ds.subrange(0, j) =~= ds);
            }
        }
    }
}

/// The token for a letter run: one of the fixed keywords, else an
/// identifier.
pub open spec fn keyword_or_identifier(w: Seq<char>) -> TokenV {
    if w == "if"@ {
        TokenV::If
    } else if w == "else"@ {
        TokenV::Else
    } else if w == "fn"@ {
        TokenV::Func
    } else if w == "print"@ {
        TokenV::Print
    } else if w == "return"@ {
        TokenV::Return
    } else if w == "this"@ {
        TokenV::This
    } else {
        TokenV::Identifier(w)
    }
}

/// Prepends a token to a tokenization result, keeping a failure as it is.
pub open spec fn cons_token(t: TokenV, rest: Result<Seq<TokenV>, LexError>) -> Result<
    Seq<TokenV>,
    LexError,
> {
    match rest {
        Ok(ts) => Ok(seq![t] + ts),
        Err(e) => Err(e),
    }
}

/// The token sequence of the text from position `i` on, or the first
/// lexical failure.
pub open spec fn spec_tokenize_from(s: Seq<char>, i: int) -> Result<Seq<TokenV>, LexError>
    decreases s.len() - i,
    when 0 <= i <= s.len()
{
    if i >= s.len() {
        Ok(Seq::empty())
    } else {
        let c = s[i];
        if is_space(c) {
            spec_tokenize_from(s, i + 1)
        } else if c == '+' {
            cons_token(TokenV::Plus, spec_tokenize_from(s, i + 1))
        } else if c == '-' {
            if i + 1 < s.len() && s[i + 1] == '>' {
                cons_token(TokenV::Arrow, spec_tokenize_from(s, i + 2))
            } else {
                cons_token(TokenV::Minus, spec_tokenize_from(s, i + 1))
            }
        } else if c == '*' {
            cons_token(TokenV::Multiply, spec_tokenize_from(s, i + 1))
        } else if c == '/' {
            cons_token(TokenV::Divide, spec_tokenize_from(s, i + 1))
        } else if c == '=' {
            if i + 1 < s.len() && s[i + 1] == '=' {
                cons_token(TokenV::CompareEqual, spec_tokenize_from(s, i + 2))
            } else if i + 1 < s.len() && s[i + 1] == '!' {
                cons_token(TokenV::CompareNotEqual, spec_tokenize_from(s, i + 2))
            } else {
                cons_token(TokenV::Equal, spec_tokenize_from(s, i + 1))
            }
        } else if c == '(' {
            cons_token(TokenV::LeftParen, spec_tokenize_from(s, i + 1))
        } else if c == ')' {
            cons_token(TokenV::RightParen, spec_tokenize_from(s, i + 1))
        } else if c == '{' {
            cons_token(TokenV::LeftBracket, spec_tokenize_from(s, i + 1))
        } else if c == '}' {
            cons_token(TokenV::RightBracket, spec_tokenize_from(s, i + 1))
        } else if c == ',' {
            cons_token(TokenV::Comma, spec_tokenize_from(s, i + 1))
        } else if c == ':' {
            cons_token(TokenV::Colon, spec_tokenize_from(s, i + 1))
        } else if c == ';' {
            cons_token(TokenV::SemiColon, spec_tokenize_from(s, i + 1))
        } else if is_digit(c) {
            let e = ({
                proof {
                    lemma_digit_run_end(s, i);
                }
                digit_run_end(s, i)
            });
            let v = digits_value(s.subrange(i, e));
            if v > i64::MAX {
                Err(LexError::IntegerOutOfRange { position: i as usize })
            } else {
                cons_token(TokenV::Integer(v as i64), spec_tokenize_from(s, e))
            }
        } else if is_alpha(c) {
            let e = ({
                proof {
                    lemma_alpha_run_end(s, i);
                }
                alpha_run_end(s, i)
            });
            cons_token(keyword_or_identifier(s.subrange(i, e)), spec_tokenize_from(s, e))
        } else {
            Err(LexError::UnexpectedCharacter { character: c, position: i as usize })
        }
    }
}

/// The token sequence of a whole text, or its first lexical failure.
pub open spec fn spec_tokenize(s: Seq<char>) -> Result<Seq<TokenV>, LexError> {
    spec_tokenize_from(s, 0)
}

/// Tokens already produced, together with what remains from position `i`,
/// make up the tokenization of the whole text.
pub open spec fn lex_completes(s: Seq<char>, done: Seq<TokenV>, i: int) -> bool {
    match spec_tokenize_from(s, i) {
        Ok(rest) => spec_tokenize(s) == Ok::<Seq<TokenV>, LexError>(done + rest),
        Err(e) => spec_tokenize(s) == Err::<Seq<TokenV>, LexError>(e),
    }
}

/// Taking one specified token keeps the completion relation.
proof fn lemma_lex_step(s: Seq<char>, done: Seq<TokenV>, i: int, t: TokenV, j: int)
    requires
        lex_completes(s, done, i),
        spec_tokenize_from(s, i) == cons_token(t, spec_tokenize_from(s, j)),
    ensures
        lex_completes(s, done.push(t), j),
{
    match spec_tokenize_from(s, j) {
        Ok(rest) => {
            assert(done + (seq![t] + rest) =~= done.push(t) + rest);
        },
        Err(_) => {},
    }
}

/// The lexer.
pub struct Lexer;

impl Lexer {
    /// Turns source text into its token sequence, or reports the first
    /// lexical failure with its character position.
    #[verifier::loop_isolation(false)]
    #[verifier::rlimit(30)]
    pub fn tokenize(input: &str) -> (r: Result<Vec<Token>, LexError>)
        ensures
            match r {
                Ok(ts) => spec_tokenize(input@) == Ok::<Seq<TokenV>, LexError>(tokens_view(ts@)),
                Err(e) => spec_tokenize(input@) == Err::<Seq<TokenV>, LexError>(e),
            },
    {
        let n = input.unicode_len();
        let mut tokens: Vec<Token> = Vec::new();
        let mut i: usize = 0;
        while i < n
            invariant
                i <= n,
                lex_completes(input@, tokens_view(tokens@), i as int),
            decreases n - i,
        {
            let ghost s = input@;
            let ghost done = tokens_view(tokens@);
            let ghost i0 = i as int;
            let c = input.get_char(i);
            if c == ' ' || c == '\n' || c == '\t' {
                i = i + 1;
            } else if c == '+' {
                Self::push_token(&mut tokens, Token::Plus);
                i = i + 1;
                proof {
                    lemma_lex_step(s, done, i0, TokenV::Plus, i as int);
                }
            } else if c == '-' {
                if i + 1 < n && input.get_char(i + 1) == '>' {
                    Self::push_token(&mut tokens, Token::Arrow);
                    i = i + 2;
                    proof {
                        lemma_lex_step(s, done, i0, TokenV::Arrow, i as int);
                    }
                } else {
                    Self::push_token(&mut tokens, Token::Minus);
                    i = i + 1;
                    proof {
                        lemma_lex_step(s, done, i0, TokenV::Minus, i as int);
                    }
                }
            } else if c == '*' {
                Self::push_token(&mut tokens, Token::Multiply);
                i = i + 1;
                proof {
                    lemma_lex_step(s, done, i0, TokenV::Multiply, i as int);
                }
            } else if c == '/' {
                Self::push_token(&mut tokens, Token::Divide);
                i = i + 1;
                proof {
                    lemma_lex_step(s, done, i0, TokenV::Divide, i as int);
                }
            } else if c == '=' {
                if i + 1 < n && input.get_char(i + 1) == '=' {
                    Self::push_token(&mut tokens, Token::CompareEqual);
                    i = i + 2;
                    proof {
                        lemma_lex_step(s, done, i0, TokenV::CompareEqual, i as int);
                    }
                } else if i + 1 < n && input.get_char(i + 1) == '!' {
                    Self::push_token(&mut tokens, Token::CompareNotEqual);
                    i = i + 2;
                    proof {
                        lemma_lex_step(s, done, i0, TokenV::CompareNotEqual, i as int);
                    }
                } else {
                    Self::push_token(&mut tokens, Token::Equal);
                    i = i + 1;
                    proof {
                        lemma_lex_step(s, done, i0, TokenV::Equal, i as int);
                    }
                }
            } else if c == '(' {
                Self::push_token(&mut tokens, Token::LeftParen);
                i = i + 1;
                proof {
                    lemma_lex_step(s, done, i0, TokenV::LeftParen, i as int);
                }
            } else if c == ')' {
                Self::push_token(&mut tokens, Token::RightParen);
                i = i + 1;
                proof {
                    lemma_lex_step(s, done, i0, TokenV::RightParen, i as int);
                }
            } else if c == '{' {
                Self::push_token(&mut tokens, Token::LeftBracket);
                i = i + 1;
                proof {
                    lemma_lex_step(s, done, i0, TokenV::LeftBracket, i as int);
                }
            } else if c == '}' {
                Self::push_token(&mut tokens, Token::RightBracket);
                i = i + 1;
                proof {
                    lemma_lex_step(s, done, i0, TokenV::RightBracket, i as int);
                }
            } else if c == ',' {
                Self::push_token(&mut tokens, Token::Comma);
                i = i + 1;
                proof {
                    lemma_lex_step(s, done, i0, TokenV::Comma, i as int);
                }
            } else if c == ':' {
                Self::push_token(&mut tokens, Token::Colon);
                i = i + 1;
                proof {
                    lemma_lex_step(s, done, i0, TokenV::Colon, i as int);
                }
            } else if c == ';' {
                Self::push_token(&mut tokens, Token::SemiColon);
                i = i + 1;
                proof {
                    lemma_lex_step(s, done, i0, TokenV::SemiColon, i as int);
                }
            } else {
                let u = c as u32;
                if 48 <= u && u <= 57 {
                    let start = i;
                    proof {
                        lemma_digit_run_end(s, i0);
                    }
                    let ghost e = digit_run_end(s, i0);
                    let mut value: i64 = 0;
                    while i < n && Self::digit_at(input, i)
                        invariant
                            start <= i <= n,
                            i0 == start as int,
                            start as int <= i as int <= e,
                            value == digits_value(s.subrange(start as int, i as int)),
                            0 <= value,
                        decreases n - i,
                    {
                        proof {
                            if !((i as int) < e) {
                                assert(is_digit(s[i as int]));
                                assert(false);
                            }
                        }
                        let d = (input.get_char(i) as u32 - 48) as i64;
                        let ghost pre = s.subrange(start as int, i as int);
                        let ghost cur = s.subrange(start as int, i as int + 1);
                        proof {
                            assert(cur.subrange(0, cur.len() - 1) =~= pre);
                            assert(cur[cur.len() - 1] == s[i as int]);
                        }
                        let stepped = match value.checked_mul(10) {
                            Some(v10) => v10.checked_add(d),
                            None => None,
                        };
                        match stepped {
                            Some(v) => {
                                value = v;
                                i = i + 1;
                            },
                            None => {
                                proof {
                                    Self::lemma_run_overflow(s, start as int, i as int, e);
                                    assert(spec_tokenize_from(s, i0) == Err::<
                                        Seq<TokenV>,
                                        LexError,
                                    >(LexError::IntegerOutOfRange { position: start }));
                                }
                                return Err(LexError::IntegerOutOfRange { position: start });
                            },
                        }
                    }
                    proof {
                        assert(i as int == e) by {
                            if (i as int) < e {
                                assert(is_digit(s[i as int]));
                                assert(i < n);
                            }
                        }
                        lemma_digits_value_bounds(s.subrange(start as int, e));
                        lemma_lex_step(s, done, i0, TokenV::Integer(value), i as int);
                    }
                    Self::push_token(&mut tokens, Token::Integer(value));
                } else if (65 <= u && u <= 90) || (97 <= u && u <= 122) {
                    let start = i;
                    proof {
                        lemma_alpha_run_end(s, i0);
                    }
                    let ghost e = alpha_run_end(s, i0);
                    while i < n && Self::alpha_at(input, i)
                        invariant
                            start <= i <= n,
                            i0 == start as int,
                            start as int <= i as int <= e,
                        decreases n - i,
                    {
                        proof {
                            if !((i as int) < e) {
                                assert(is_alpha(s[i as int]));
                                assert(false);
                            }
                        }
                        i = i + 1;
                    }
                    proof {
                        assert(i as int == e) by {
                            if (i as int) < e {
                                assert(is_alpha(s[i as int]));
                                assert(i < n);
                            }
                        }
                    }
                    let word = input.substring_char(start, i).to_owned();
                    let t = if word == "if".to_owned() {
                        Token::If
                    } else if word == "else".to_owned() {
                        Token::Else
                    } else if word == "fn".to_owned() {
                        Token::Func
                    } else if word == "print".to_owned() {
                        Token::Print
                    } else if word == "return".to_owned() {
                        Token::Return
                    } else if word == "this".to_owned() {
                        Token::This
                    } else {
                        Token::Identifier(word)
                    };
                    proof {
                        assert(token_view(t) == keyword_or_identifier(s.subrange(i0, e)));
                        lemma_lex_step(s, done, i0, keyword_or_identifier(s.subrange(i0, e)), e);
                    }
                    Self::push_token(&mut tokens, t);
                } else {
                    proof {
                        assert(spec_tokenize_from(s, i0) == Err::<Seq<TokenV>, LexError>(
                            LexError::UnexpectedCharacter { character: c, position: i },
                        ));
                    }
                    return Err(LexError::UnexpectedCharacter { character: c, position: i });
                }
            }
        }
        proof {
            assert(tokens_view(tokens@) + Seq::<TokenV>::empty() =~= tokens_view(tokens@));
        }
        Ok(tokens)
    }

    /// Whether the character at `i` is a decimal digit.
    fn digit_at(input: &str, i: usize) -> (b: bool)
        requires
            i < input@.len(),
        ensures
            b == is_digit(input@[i as int]),
    {
        let u = input.get_char(i) as u32;
        48 <= u && u <= 57
    }

    /// Whether the character at `i` is a letter.
    fn alpha_at(input: &str, i: usize) -> (b: bool)
        requires
            i < input@.len(),
        ensures
            b == is_alpha(input@[i as int]),
    {
        let u = input.get_char(i) as u32;
        (65 <= u && u <= 90) || (97 <= u && u <= 122)
    }

    /// Appends one token, keeping its view relation.
    fn push_token(tokens: &mut Vec<Token>, t: Token)
        ensures
            final(tokens)@ == old(tokens)@.push(t),
            tokens_view(final(tokens)@) == tokens_view(old(tokens)@).push(token_view(t)),
    {
        proof {
            lemma_tokens_view_push(tokens@, t);
        }
        tokens.push(t);
    }

    /// A digit run whose value already exceeds the largest 64-bit integer at
    /// some prefix exceeds it as a whole.
    proof fn lemma_run_overflow(s: Seq<char>, start: int, i: int, e: int)
        requires
            0 <= start <= i < e <= s.len(),
            forall|j: int| start <= j < e ==> is_digit(#[trigger] s[j]),
            digits_value(s.subrange(start, i)) * 10 + digit_val(s[i]) > i64::MAX,
            digits_value(s.subrange(start, i)) >= 0,
        ensures
            digits_value(s.subrange(start, e)) > i64::MAX,
    {
        let run = s.subrange(start, e);
        let cur = s.subrange(start, i + 1);
        assert(cur.subrange(0, cur.len() - 1) =~= s.subrange(start, i));
        assert(cur[cur.len() - 1] == s[i]);
        assert(digits_value(cur) > i64::MAX);
        lemma_digits_value_bounds(run);
        assert(run.subrange(0, i + 1 - start) =~= cur);
    }
}

} // verus!
