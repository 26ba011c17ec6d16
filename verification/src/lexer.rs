//! Lexical analysis: turns Monkey C source text into a sequence of
//! positioned tokens.
//!
//! The scan is specified by [`spec_lex_at`], a mathematical model of the
//! whole pass: one recursive function over the character sequence that
//! yields either every token with its literal, row and column, or the
//! single fatal error a malformed numeric-literal suffix causes.
//! [`MonkeyCLexer::lex`] is proved to return exactly that outcome.

use vstd::prelude::*;
use vstd::math::{max, min};
use crate::text::{char_to_string, chars_to_string};
use crate::tokens::{keyword_kind, word_kind, Token, TokenKind, TokenV};

verus! {

/// Which rule a malformed numeric literal broke: a decorator applied to
/// a literal that already holds `.`, or a second decorator.
#[derive(Debug, Clone, Copy, PartialEq, Eq, Structural)]
pub enum LexReason {
    FloatWithL,
    FloatWithD,
    MultipleDecorators,
}

/// The mathematical image of a [`LexError`].
pub ghost struct LexErrV {
    pub row: int,
    pub column: int,
    pub reason: LexReason,
}

/// The single fatal lexical error: the 1-based position of the offending
/// character of a numeric literal, and the rule it broke.
#[derive(Debug, Clone, PartialEq)]
pub struct LexError {
    pub row: u64,
    pub column: u64,
    pub reason: LexReason,
}

impl View for LexError {
    type V = LexErrV;

    open spec fn view(&self) -> LexErrV {
        LexErrV { row: self.row as int, column: self.column as int, reason: self.reason }
    }
}

impl LexError {
    /// The wording of the rule this error reports, as used inside
    /// rendered messages.
    pub fn reason_text(&self) -> (s: String)
        ensures
            s@ == reason_text_of(self.reason),
    {
        match self.reason {
            LexReason::FloatWithL => "A Float can't have 'l' at the end".to_owned(),
            LexReason::FloatWithD => "A Float can't have 'd' at the end".to_owned(),
            LexReason::MultipleDecorators => "You can't have multiple number decorators".to_owned(),
        }
    }
}

/// The wording belonging to each numeric-suffix rule.
pub open spec fn reason_text_of(reason: LexReason) -> Seq<char> {
    match reason {
        LexReason::FloatWithL => "A Float can't have 'l' at the end"@,
        LexReason::FloatWithD => "A Float can't have 'd' at the end"@,
        LexReason::MultipleDecorators => "You can't have multiple number decorators"@,
    }
}

/// ASCII letters; identifiers and reserved words consist of these alone.
pub open spec fn is_ascii_letter(c: char) -> bool {
    (97 <= c as u32 && c as u32 <= 122) || (65 <= c as u32 && c as u32 <= 90)
}

/// ASCII decimal digits; these begin a numeric literal.
pub open spec fn is_ascii_digit(c: char) -> bool {
    48 <= c as u32 && c as u32 <= 57
}

/// The characters a numeric literal may continue with: ASCII letters and
/// digits, the decimal point, and the `l`/`d` decorators.
pub open spec fn is_numeric_part(c: char) -> bool {
    is_ascii_letter(c) || is_ascii_digit(c) || c == '.' || c == 'l' || c == 'd'
}

/// The single-character punctuation and operator tokens, or `None` for
/// every other character.
pub open spec fn punct_kind(c: char) -> Option<TokenKind> {
    if c == '{' {
        Some(TokenKind::OpeningBracket)
    } else if c == '}' {
        Some(TokenKind::ClosingBracket)
    } else if c == '(' {
        Some(TokenKind::OpeningBrace)
    } else if c == ')' {
        Some(TokenKind::ClosingBrace)
    } else if c == '~' {
        Some(TokenKind::Tilde)
    } else if c == '=' {
        Some(TokenKind::Assign)
    } else if c == '-' {
        Some(TokenKind::Minus)
    } else if c == '+' {
        Some(TokenKind::Plus)
    } else if c == '/' {
        Some(TokenKind::Slash)
    } else if c == ',' {
        Some(TokenKind::Comma)
    } else if c == ';' {
        Some(TokenKind::Semicolon)
    } else if c == '!' {
        Some(TokenKind::Bang)
    } else if c == '^' {
        Some(TokenKind::Caret)
    } else if c == '>' {
        Some(TokenKind::GreaterThan)
    } else if c == '<' {
        Some(TokenKind::LessThan)
    } else if c == '&' {
        Some(TokenKind::Ampersand)
    } else if c == '|' {
        Some(TokenKind::VerticalBar)
    } else {
        None
    }
}

/// First position at or after `i` that ends a run of ASCII letters.
pub open spec fn word_end(src: Seq<char>, i: int) -> int
    decreases src.len() - i,
{
    if i < 0 || i >= src.len() {
        i
    } else if is_ascii_letter(src[i]) {
        word_end(src, i + 1)
    } else {
        i
    }
}

/// First position at or after `i` holding a closing double quote, or the
/// input's length when none follows.
pub open spec fn string_end(src: Seq<char>, i: int) -> int
    decreases src.len() - i,
{
    if i < 0 || i >= src.len() {
        src.len() as int
    } else if src[i] == '"' {
        i
    } else {
        string_end(src, i + 1)
    }
}

/// Outcome of scanning the continuation of one numeric literal.
pub ghost enum NumScan {
    /// The literal ends before `end`; it lexes with kind `kind`, and the
    /// scan leaves the cursor at column `column`.
    Done { end: int, kind: TokenKind, column: int },
    /// The character at column `column` broke a numeric-suffix rule.
    Fail { column: int, reason: LexReason },
}

/// Scans a numeric literal from position `i` at column `column`, with
/// `kind` the kind scanned so far and `decorated` whether an `l` or `d`
/// decorator was already consumed.
///
/// A `.` switches the kind to `FloatLiteral`; `l` and `d` switch it to
/// `LongLiteral` and `DoubleLiteral` once, and fail on a literal that is
/// already a float or already decorated. Any other letter or digit is
/// consumed without effect on the kind.
pub open spec fn num_scan(
    src: Seq<char>,
    i: int,
    column: int,
    kind: TokenKind,
    decorated: bool,
) -> NumScan
    decreases src.len() - i,
{
    if i < 0 || i >= src.len() || !is_numeric_part(src[i]) {
        NumScan::Done { end: i, kind, column }
    } else if src[i] == '.' {
        num_scan(src, i + 1, column + 1, TokenKind::FloatLiteral, decorated)
    } else if src[i] == 'l' {
        if decorated {
            NumScan::Fail { column, reason: LexReason::MultipleDecorators }
        } else if kind == TokenKind::FloatLiteral {
            NumScan::Fail { column, reason: LexReason::FloatWithL }
        } else {
            num_scan(src, i + 1, column + 1, TokenKind::LongLiteral, true)
        }
    } else if src[i] == 'd' {
        if decorated {
            NumScan::Fail { column, reason: LexReason::MultipleDecorators }
        } else if kind == TokenKind::FloatLiteral {
            NumScan::Fail { column, reason: LexReason::FloatWithD }
        } else {
            num_scan(src, i + 1, column + 1, TokenKind::DoubleLiteral, true)
        }
    } else {
        num_scan(src, i + 1, column + 1, kind, decorated)
    }
}

/// Puts a token in front of a scan outcome; an error swallows the token.
pub open spec fn lex_cons(t: TokenV, rest: Result<Seq<TokenV>, LexErrV>) -> Result<
    Seq<TokenV>,
    LexErrV,
> {
    match rest {
        Ok(ts) => Ok(seq![t] + ts),
        Err(e) => Err(e),
    }
}

/// The model of the whole scan from position `i` on, the cursor standing
/// at 1-based `row` and `column`.
///
/// In priority order: a line break advances the row and resets the
/// column; a single-character token maps to its kind; `'` takes the next
/// character as a character literal and advances past an assumed closing
/// quote (at the very end of the input, where no character follows, the
/// quote is skipped like any unrecognized character); `"` buffers
/// characters verbatim up to the next double quote or the end of the
/// input; a letter starts a reserved word or identifier; a digit starts
/// a numeric literal, the one construct whose failure aborts the scan;
/// anything else is skipped silently.
///
/// The jump targets are clamped into `i + 1 ..= src.len()`, which
/// leaves every scan position unchanged (the scans only end inside
/// that range) and keeps the recursion visibly bounded.
pub open spec fn spec_lex_at(src: Seq<char>, i: int, row: int, column: int) -> Result<
    Seq<TokenV>,
    LexErrV,
>
    decreases src.len() - i,
{
    let n = src.len() as int;
    if i < 0 || i >= n {
        Ok(Seq::empty())
    } else {
        let c = src[i];
        if c == '\n' {
            spec_lex_at(src, i + 1, row + 1, 1)
        } else if punct_kind(c) is Some {
            lex_cons(
                TokenV { kind: punct_kind(c)->0, literal: seq![c], row, column },
                spec_lex_at(src, i + 1, row, column + 1),
            )
        } else if c == '\'' {
            if i + 1 < n {
                lex_cons(
                    TokenV {
                        kind: TokenKind::CharLiteral,
                        literal: seq![src[i + 1]],
                        row,
                        column: column + 1,
                    },
                    spec_lex_at(src, min(i + 3, n), row, column + 3),
                )
            } else {
                spec_lex_at(src, i + 1, row, column + 1)
            }
        } else if c == '"' {
            let j = max(i + 1, min(string_end(src, i + 1), n));
            lex_cons(
                TokenV {
                    kind: TokenKind::StringLiteral,
                    literal: src.subrange(i + 1, j),
                    row,
                    column,
                },
                spec_lex_at(src, max(i + 1, min(j + 1, n)), row, column + (j + 1 - i)),
            )
        } else if is_ascii_letter(c) {
            let j = max(i + 1, min(word_end(src, i), n));
            lex_cons(
                TokenV {
                    kind: keyword_kind(src.subrange(i, j)),
                    literal: src.subrange(i, j),
                    row,
                    column,
                },
                spec_lex_at(src, j, row, column + (j - i)),
            )
        } else if is_ascii_digit(c) {
            match num_scan(src, i, column, TokenKind::IntLiteral, false) {
                NumScan::Done { end, kind, column: after } => {
                    let j = max(i + 1, min(end, n));
                    lex_cons(
                        TokenV { kind, literal: src.subrange(i, j), row, column },
                        spec_lex_at(src, j, row, after),
                    )
                },
                NumScan::Fail { column: at, reason } => Err(LexErrV { row, column: at, reason }),
            }
        } else {
            spec_lex_at(src, i + 1, row, column + 1)
        }
    }
}

/// The model of a full scan of `src` from its beginning.
pub open spec fn spec_lex(src: Seq<char>) -> Result<Seq<TokenV>, LexErrV> {
    spec_lex_at(src, 0, 1, 1)
}

/// Executable twin of [`is_ascii_letter`].
fn ascii_letter(c: char) -> (b: bool)
    ensures
        b == is_ascii_letter(c),
{
    let u = c as u32;
    (97 <= u && u <= 122) || (65 <= u && u <= 90)
}

/// Executable twin of [`is_ascii_digit`].
fn ascii_digit(c: char) -> (b: bool)
    ensures
        b == is_ascii_digit(c),
{
    let u = c as u32;
    48 <= u && u <= 57
}

/// Executable twin of [`is_numeric_part`].
fn numeric_part(c: char) -> (b: bool)
    ensures
        b == is_numeric_part(c),
{
    ascii_letter(c) || ascii_digit(c) || c == '.' || c == 'l' || c == 'd'
}

/// Executable twin of [`punct_kind`].
fn punct_token_kind(c: char) -> (k: Option<TokenKind>)
    ensures
        k == punct_kind(c),
{
    if c == '{' {
        Some(TokenKind::OpeningBracket)
    } else if c == '}' {
        Some(TokenKind::ClosingBracket)
    } else if c == '(' {
        Some(TokenKind::OpeningBrace)
    } else if c == ')' {
        Some(TokenKind::ClosingBrace)
    } else if c == '~' {
        Some(TokenKind::Tilde)
    } else if c == '=' {
        Some(TokenKind::Assign)
    } else if c == '-' {
        Some(TokenKind::Minus)
    } else if c == '+' {
        Some(TokenKind::Plus)
    } else if c == '/' {
        Some(TokenKind::Slash)
    } else if c == ',' {
        Some(TokenKind::Comma)
    } else if c == ';' {
        Some(TokenKind::Semicolon)
    } else if c == '!' {
        Some(TokenKind::Bang)
    } else if c == '^' {
        Some(TokenKind::Caret)
    } else if c == '>' {
        Some(TokenKind::GreaterThan)
    } else if c == '<' {
        Some(TokenKind::LessThan)
    } else if c == '&' {
        Some(TokenKind::Ampersand)
    } else if c == '|' {
        Some(TokenKind::VerticalBar)
    } else {
        None
    }
}

/// Tokens already emitted, put in front of the outcome of the remaining
/// scan; an error in the remainder discards them all.
pub open spec fn lex_combine(prefix: Seq<TokenV>, rest: Result<Seq<TokenV>, LexErrV>) -> Result<
    Seq<TokenV>,
    LexErrV,
> {
    match rest {
        Ok(ts) => Ok(prefix + ts),
        Err(e) => Err(e),
    }
}

proof fn lemma_combine_cons(prefix: Seq<TokenV>, t: TokenV, rest: Result<Seq<TokenV>, LexErrV>)
    ensures
        lex_combine(prefix, lex_cons(t, rest)) == lex_combine(prefix.push(t), rest),
{
    match rest {
        Ok(ts) => {
            assert(prefix + (seq![t] + ts) =~= prefix.push(t) + ts);
        },
        Err(e) => {},
    }
}

/// The executable tokens carry exactly the literals and positions of the
/// model tokens.
pub open spec fn tokens_match(ts: Seq<Token>, model: Seq<TokenV>) -> bool {
    &&& ts.len() == model.len()
    &&& forall|k: int| 0 <= k < ts.len() ==> #[trigger] ts[k]@ == model[k]
}

/// The executable result of a scan agrees with the model's outcome.
pub open spec fn lex_result_matches(
    outcome: Result<Seq<TokenV>, LexErrV>,
    r: Result<Vec<Token>, LexError>,
) -> bool {
    match r {
        Ok(ts) => outcome is Ok && tokens_match(ts@, outcome->Ok_0),
        Err(e) => outcome is Err && e@ == outcome->Err_0,
    }
}

/// Scans Monkey C source text left to right, one cursor that only moves
/// forward, tracking the 1-based row and column of the character it
/// stands on.
#[derive(Debug)]
pub struct MonkeyCLexer {
    pub source: Vec<char>,
    pub currently_at: usize,
    pub current_column: u64,
    pub current_row: u64,
}

impl MonkeyCLexer {
    /// A fresh lexer standing on the first character of `source`.
    pub fn new(source: Vec<char>) -> (l: MonkeyCLexer)
        ensures
            l.source@ == source@,
            l.currently_at == 0,
            l.current_column == 1,
            l.current_row == 1,
    {
        MonkeyCLexer { source, currently_at: 0, current_column: 1, current_row: 1 }
    }

    /// Steps past the character the cursor stands on, within one row.
    fn next(&mut self)
        requires
            old(self).currently_at < usize::MAX,
            old(self).current_column < u64::MAX,
        ensures
            final(self).source@ == old(self).source@,
            final(self).currently_at == old(self).currently_at + 1,
            final(self).current_column == old(self).current_column + 1,
            final(self).current_row == old(self).current_row,
    {
        self.currently_at += 1;
        self.current_column += 1;
    }

    /// The character the cursor stands on.
    fn current_char(&self) -> (c: char)
        requires
            self.currently_at < self.source@.len(),
        ensures
            c == self.source@[self.currently_at as int],
    {
        self.source[self.currently_at]
    }

    /// Scans the remaining input into tokens, or fails with the one
    /// fatal error a malformed numeric suffix causes: the outcome is
    /// exactly what [`spec_lex_at`] states for the cursor's position.
    ///
    /// The bounds below only keep the cursor's row, column and index
    /// arithmetic within their machine words.
    #[verifier::loop_isolation(false)]
    #[verifier::rlimit(100)]
    pub fn lex(&mut self) -> (r: Result<Vec<Token>, LexError>)
        requires
            old(self).source@.len() + 3 <= usize::MAX,
            old(self).current_row as int + old(self).source@.len() <= u64::MAX,
            old(self).current_column as int + old(self).source@.len() + 3 <= u64::MAX,
        ensures
            final(self).source@ == old(self).source@,
            lex_result_matches(
                spec_lex_at(
                    old(self).source@,
                    old(self).currently_at as int,
                    old(self).current_row as int,
                    old(self).current_column as int,
                ),
                r,
            ),
    {
        let ghost src = self.source@;
        let ghost n = src.len() as int;
        let ghost a0 = self.currently_at as int;
        let ghost r0 = self.current_row as int;
        let ghost c0 = self.current_column as int;
        let ghost full = spec_lex_at(src, a0, r0, c0);
        let mut tokens: Vec<Token> = Vec::new();
        let ghost mut prefix: Seq<TokenV> = Seq::empty();
        while self.source.len() > self.currently_at
            invariant
                self.source@ == src,
                a0 <= self.currently_at as int,
                self.currently_at as int <= max(a0, n + 1),
                self.current_row as int <= r0 + (self.currently_at as int - a0),
                self.current_column as int <= max(
                    c0 + (self.currently_at as int - a0),
                    self.currently_at as int + 1,
                ),
                tokens_match(tokens@, prefix),
                lex_combine(
                    prefix,
                    spec_lex_at(
                        src,
                        self.currently_at as int,
                        self.current_row as int,
                        self.current_column as int,
                    ),
                ) == full,
            decreases n - min(self.currently_at as int, n),
        {
            let ghost at_i = self.currently_at as int;
            let ghost row_i = self.current_row as int;
            let ghost col_i = self.current_column as int;
            let ghost rest_i = spec_lex_at(src, at_i, row_i, col_i);
            let c = self.current_char();
            if c == '\n' {
                self.current_row += 1;
                self.current_column = 1;
                self.currently_at += 1;
                proof {
                    assert(rest_i == spec_lex_at(src, at_i + 1, row_i + 1, 1));
                }
            } else if let Some(k) = punct_token_kind(c) {
                let lit = char_to_string(c);
                let t = Token::new(k, lit, self.current_row, self.current_column);
                tokens.push(t);
                proof {
                    let tv = TokenV { kind: k, literal: seq![c], row: row_i, column: col_i };
                    let after = spec_lex_at(src, at_i + 1, row_i, col_i + 1);
                    assert(rest_i == lex_cons(tv, after));
                    lemma_combine_cons(prefix, tv, after);
                    prefix = prefix.push(tv);
                }
                self.next();
            } else if c == '\'' {
                if self.currently_at + 1 < self.source.len() {
                    let cc = self.source[self.currently_at + 1];
                    let lit = char_to_string(cc);
                    let t = Token::new(
                        TokenKind::CharLiteral,
                        lit,
                        self.current_row,
                        self.current_column + 1,
                    );
                    tokens.push(t);
                    self.currently_at += 3;
                    self.current_column += 3;
                    proof {
                        let tv = TokenV {
                            kind: TokenKind::CharLiteral,
                            literal: seq![src[at_i + 1]],
                            row: row_i,
                            column: col_i + 1,
                        };
                        let after = spec_lex_at(src, min(at_i + 3, n), row_i, col_i + 3);
                        assert(rest_i == lex_cons(tv, after));
                        assert(after == spec_lex_at(
                            src,
                            self.currently_at as int,
                            row_i,
                            col_i + 3,
                        ));
                        lemma_combine_cons(prefix, tv, after);
                        prefix = prefix.push(tv);
                    }
                } else {
                    self.next();
                    proof {
                        assert(rest_i == spec_lex_at(src, at_i + 1, row_i, col_i + 1));
                    }
                }
            } else if c == '"' {
                let row0 = self.current_row;
                let col0 = self.current_column;
                self.next();
                let mut buf: Vec<char> = Vec::new();
                while self.currently_at < self.source.len() && self.source[self.currently_at]
                    != '"'
                    invariant
                        self.source@ == src,
                        at_i + 1 <= self.currently_at as int <= n,
                        self.current_row == row0,
                        self.current_column as int == col0 + 1 + (self.currently_at as int - (at_i
                            + 1)),
                        buf@ == src.subrange(at_i + 1, self.currently_at as int),
                        string_end(src, at_i + 1) == string_end(src, self.currently_at as int),
                    decreases n - self.currently_at as int,
                {
                    let ch = self.current_char();
                    buf.push(ch);
                    proof {
                        assert(src.subrange(at_i + 1, self.currently_at as int + 1)
                            =~= src.subrange(at_i + 1, self.currently_at as int).push(
                            src[self.currently_at as int],
                        ));
                        assert(string_end(src, self.currently_at as int) == string_end(
                            src,
                            self.currently_at as int + 1,
                        ));
                    }
                    self.next();
                }
                let ghost j = string_end(src, at_i + 1);
                proof {
                    assert(string_end(src, self.currently_at as int) == self.currently_at as int);
                    assert(j == self.currently_at as int);
                }
                let lit = chars_to_string(&buf);
                let t = Token::new(TokenKind::StringLiteral, lit, row0, col0);
                tokens.push(t);
                self.next();
                proof {
                    let tv = TokenV {
                        kind: TokenKind::StringLiteral,
                        literal: src.subrange(at_i + 1, j),
                        row: row_i,
                        column: col_i,
                    };
                    let after = spec_lex_at(
                        src,
                        max(at_i + 1, min(j + 1, n)),
                        row_i,
                        col_i + (j + 1 - at_i),
                    );
                    assert(rest_i == lex_cons(tv, after));
                    assert(after == spec_lex_at(
                        src,
                        self.currently_at as int,
                        row_i,
                        col_i + (j + 1 - at_i),
                    ));
                    lemma_combine_cons(prefix, tv, after);
                    prefix = prefix.push(tv);
                }
            } else if ascii_letter(c) {
                let row0 = self.current_row;
                let col0 = self.current_column;
                let mut buf: Vec<char> = Vec::new();
                buf.push(c);
                self.next();
                proof {
                    assert(word_end(src, at_i) == word_end(src, at_i + 1));
                    assert(buf@ =~= src.subrange(at_i, at_i + 1));
                }
                while self.currently_at < self.source.len() && ascii_letter(
                    self.source[self.currently_at],
                )
                    invariant
                        self.source@ == src,
                        at_i + 1 <= self.currently_at as int <= n,
                        self.current_row == row0,
                        self.current_column as int == col0 + (self.currently_at as int - at_i),
                        buf@ == src.subrange(at_i, self.currently_at as int),
                        word_end(src, at_i) == word_end(src, self.currently_at as int),
                    decreases n - self.currently_at as int,
                {
                    let ch = self.current_char();
                    buf.push(ch);
                    proof {
                        assert(src.subrange(at_i, self.currently_at as int + 1) =~= src.subrange(
                            at_i,
                            self.currently_at as int,
                        ).push(src[self.currently_at as int]));
                        assert(word_end(src, self.currently_at as int) == word_end(
                            src,
                            self.currently_at as int + 1,
                        ));
                    }
                    self.next();
                }
                let ghost j = word_end(src, at_i);
                proof {
                    assert(word_end(src, self.currently_at as int) == self.currently_at as int);
                    assert(j == self.currently_at as int);
                }
                let kind = word_kind(&buf);
                let lit = chars_to_string(&buf);
                let t = Token::new(kind, lit, row0, col0);
                tokens.push(t);
                proof {
                    let tv = TokenV {
                        kind: keyword_kind(src.subrange(at_i, j)),
                        literal: src.subrange(at_i, j),
                        row: row_i,
                        column: col_i,
                    };
                    let after = spec_lex_at(src, j, row_i, col_i + (j - at_i));
                    assert(rest_i == lex_cons(tv, after));
                    lemma_combine_cons(prefix, tv, after);
                    prefix = prefix.push(tv);
                }
            } else if ascii_digit(c) {
                let row0 = self.current_row;
                let col0 = self.current_column;
                let mut buf: Vec<char> = Vec::new();
                let mut kind = TokenKind::IntLiteral;
                let mut decorated = false;
                buf.push(c);
                self.next();
                proof {
                    assert(num_scan(src, at_i, col_i, TokenKind::IntLiteral, false) == num_scan(
                        src,
                        at_i + 1,
                        col_i + 1,
                        TokenKind::IntLiteral,
                        false,
                    ));
                    assert(buf@ =~= src.subrange(at_i, at_i + 1));
                }
                while self.currently_at < self.source.len() && numeric_part(
                    self.source[self.currently_at],
                )
                    invariant
                        self.source@ == src,
                        at_i + 1 <= self.currently_at as int <= n,
                        self.current_row == row0,
                        self.current_column as int == col_i + (self.currently_at as int - at_i),
                        buf@ == src.subrange(at_i, self.currently_at as int),
                        num_scan(src, at_i, col_i, TokenKind::IntLiteral, false) == num_scan(
                            src,
                            self.currently_at as int,
                            self.current_column as int,
                            kind,
                            decorated,
                        ),
                    decreases n - self.currently_at as int,
                {
                    let ch = self.current_char();
                    if ch == '.' {
                        kind = TokenKind::FloatLiteral;
                    } else if ch == 'l' {
                        if decorated {
                            return Err(
                                LexError {
                                    row: self.current_row,
                                    column: self.current_column,
                                    reason: LexReason::MultipleDecorators,
                                },
                            );
                        }
                        if kind == TokenKind::FloatLiteral {
                            return Err(
                                LexError {
                                    row: self.current_row,
                                    column: self.current_column,
                                    reason: LexReason::FloatWithL,
                                },
                            );
                        }
                        decorated = true;
                        kind = TokenKind::LongLiteral;
                    } else if ch == 'd' {
                        if decorated {
                            return Err(
                                LexError {
                                    row: self.current_row,
                                    column: self.current_column,
                                    reason: LexReason::MultipleDecorators,
                                },
                            );
                        }
                        if kind == TokenKind::FloatLiteral {
                            return Err(
                                LexError {
                                    row: self.current_row,
                                    column: self.current_column,
                                    reason: LexReason::FloatWithD,
                                },
                            );
                        }
                        decorated = true;
                        kind = TokenKind::DoubleLiteral;
                    }
                    buf.push(ch);
                    proof {
                        assert(src.subrange(at_i, self.currently_at as int + 1) =~= src.subrange(
                            at_i,
                            self.currently_at as int,
                        ).push(src[self.currently_at as int]));
                    }
                    self.next();
                }
                let ghost scanned = num_scan(src, at_i, col_i, TokenKind::IntLiteral, false);
                proof {
                    assert(scanned == NumScan::Done {
                        end: self.currently_at as int,
                        kind: kind,
                        column: self.current_column as int,
                    });
                }
                let lit = chars_to_string(&buf);
                let t = Token::new(kind, lit, row0, col0);
                tokens.push(t);
                proof {
                    let tv = TokenV {
                        kind: kind,
                        literal: src.subrange(at_i, self.currently_at as int),
                        row: row_i,
                        column: col_i,
                    };
                    let after = spec_lex_at(
                        src,
                        self.currently_at as int,
                        row_i,
                        self.current_column as int,
                    );
                    assert(rest_i == lex_cons(tv, after));
                    lemma_combine_cons(prefix, tv, after);
                    prefix = prefix.push(tv);
                }
            } else {
                self.next();
                proof {
                    assert(rest_i == spec_lex_at(src, at_i + 1, row_i, col_i + 1));
                }
            }
        }
        proof {
            assert(spec_lex_at(
                src,
                self.currently_at as int,
                self.current_row as int,
                self.current_column as int,
            ) == Ok::<Seq<TokenV>, LexErrV>(Seq::empty()));
            assert(prefix + Seq::<TokenV>::empty() =~= prefix);
        }
        Ok(tokens)
    }
}

} // verus!
