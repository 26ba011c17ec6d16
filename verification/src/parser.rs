//! The error-recovering statement parser: walks the token sequence with
//! a per-statement state machine, assembles variable declarations, and
//! accumulates diagnostics instead of stopping at the first bad token.
//!
//! The pass is specified by [`p_run`]: a fold of the one-token
//! transition [`p_step`] over the token sequence, carrying the
//! environment (the expectation of what may come next and the stack of
//! statements under construction), the finished statements, and the
//! diagnostics. [`MonkeyCParser::parse`] is proved to return exactly
//! what the fold states: the statements when no diagnostic was
//! recorded, and the full diagnostic list otherwise.

use vstd::prelude::*;
use vstd::math::{max, min};
use vstd::string::{StrSliceExecFns, StringExecFns};
use crate::ast::{stmt_matches, ExprV, MonkeyCExpression, MonkeyCStatement, VarDeclV};
use crate::parse_error::{MCParseError, ParseErrV};
use crate::text::{dec_of, u64_dec};
use crate::tokens::{is_keyword_kind, kind_is_keyword, Token, TokenKind, TokenV};

verus! {

/// The set of token kinds that are syntactically valid next, as the
/// small number of shapes that set ever takes.
#[derive(Debug, Clone, Copy, PartialEq, Eq, Structural)]
pub enum Expectation {
    /// The start of a statement: any reserved word.
    StatementStart,
    /// The name of a declaration or of its type: an identifier alone.
    DeclarationName,
    /// What may follow a freshly named declaration: `as`, `=`, or `;`.
    AfterName,
    /// An `=` alone, after a type annotation.
    AssignOnly,
    /// A `;` alone, after a default value.
    StatementEnd,
    /// The start of an expression: an identifier or a literal.
    ExpressionValue,
}

/// Kinds usable as an expression value besides identifiers: the literal
/// kinds the tokenizer can produce.
pub open spec fn is_type_kind(k: TokenKind) -> bool {
    ||| k == TokenKind::BoolLiteral
    ||| k == TokenKind::CharLiteral
    ||| k == TokenKind::StringLiteral
    ||| k == TokenKind::LongLiteral
    ||| k == TokenKind::DoubleLiteral
    ||| k == TokenKind::FloatLiteral
    ||| k == TokenKind::IntLiteral
}

/// Membership of a token kind in the set an [`Expectation`] stands for.
pub open spec fn expectation_allows(e: Expectation, k: TokenKind) -> bool {
    match e {
        Expectation::StatementStart => is_keyword_kind(k),
        Expectation::DeclarationName => k == TokenKind::Identifier,
        Expectation::AfterName => k == TokenKind::As || k == TokenKind::Assign || k
            == TokenKind::Semicolon,
        Expectation::AssignOnly => k == TokenKind::Assign,
        Expectation::StatementEnd => k == TokenKind::Semicolon,
        Expectation::ExpressionValue => k == TokenKind::Identifier || is_type_kind(k),
    }
}

/// The members of the set an [`Expectation`] stands for, lowercase and
/// comma-joined, as diagnostic messages enumerate them.
pub open spec fn expected_phrase(e: Expectation) -> Seq<char> {
    match e {
        Expectation::StatementStart => "as, and, break, case, catch, class, const, continue, default, do, else, enum, extends, finally, for, function, has, hidden, if, instanceof, import, me, module, new, null, nan, private, protected, public, or, return, self, static, switch, throw, try, using, var, while"@,
        Expectation::DeclarationName => "identifier"@,
        Expectation::AfterName => "as, assign, semicolon"@,
        Expectation::AssignOnly => "assign"@,
        Expectation::StatementEnd => "semicolon"@,
        Expectation::ExpressionValue => "identifier, boolliteral, charliteral, stringliteral, longliteral, doubleliteral, floatliteral, intliteral"@,
    }
}

/// The headline of a sequencing diagnostic: what was expected, what
/// stood there.
pub open spec fn expect_msg(phrase: Seq<char>, literal: Seq<char>) -> Seq<char> {
    "Expected "@ + phrase + ", found '"@ + literal + "'"@
}

/// The headline of the diagnostic for an identifier with no declaration
/// under construction to receive it.
pub open spec fn outside_msg(literal: Seq<char>) -> Seq<char> {
    "Identifier '"@ + literal + "' outside of any declaration"@
}

/// A headline message with the file identifier and position put in
/// front, as the fully formatted form carries them.
pub open spec fn located_msg(file: Seq<char>, row: int, column: int, msg: Seq<char>) -> Seq<
    char,
> {
    "Syntax error at "@ + file + ":"@ + dec_of(row) + ":"@ + dec_of(column) + ": "@ + msg
}

/// The diagnostic recorded when a token's kind is not in the expected
/// set.
pub open spec fn mk_expect_err(file: Seq<char>, e: Expectation, t: TokenV) -> ParseErrV {
    ParseErrV {
        row: t.row,
        column: t.column,
        literal_len: t.literal.len() as int,
        full_msg: located_msg(file, t.row, t.column, expect_msg(expected_phrase(e), t.literal)),
        msg: expect_msg(expected_phrase(e), t.literal),
    }
}

/// The diagnostic recorded for an identifier outside any declaration.
pub open spec fn mk_outside_err(file: Seq<char>, t: TokenV) -> ParseErrV {
    ParseErrV {
        row: t.row,
        column: t.column,
        literal_len: t.literal.len() as int,
        full_msg: located_msg(file, t.row, t.column, outside_msg(t.literal)),
        msg: outside_msg(t.literal),
    }
}

/// The parser's whole state between two tokens: the environment (the
/// expectation and the stack of declarations under construction), the
/// statements already finalized, and the diagnostics already recorded.
pub ghost struct ParseStateV {
    pub expected: Expectation,
    pub ctx: Seq<VarDeclV>,
    pub stmts: Seq<VarDeclV>,
    pub errs: Seq<ParseErrV>,
}

/// The state a parse starts from: a statement start is expected and
/// everything else is empty.
pub open spec fn parse_init() -> ParseStateV {
    ParseStateV {
        expected: Expectation::StatementStart,
        ctx: Seq::empty(),
        stmts: Seq::empty(),
        errs: Seq::empty(),
    }
}

/// One step of the parser's state machine.
///
/// A token whose kind is outside the expected set only records a
/// diagnostic; the cursor's advance past it is the whole error
/// recovery. `var` and `const` open a declaration; `as` and `=`
/// redirect the expectation; an identifier or literal fills the field
/// the expectation points at (the name, the type name, or the default
/// value, an identifier becoming a reference and anything else a
/// verbatim literal); `;` finalizes the top of the stack into the
/// output; every other reserved word is accepted as a no-op.
pub open spec fn p_step(file: Seq<char>, s: ParseStateV, t: TokenV) -> ParseStateV {
    if !expectation_allows(s.expected, t.kind) {
        ParseStateV {
            expected: s.expected,
            ctx: s.ctx,
            stmts: s.stmts,
            errs: s.errs.push(mk_expect_err(file, s.expected, t)),
        }
    } else if t.kind == TokenKind::Var || t.kind == TokenKind::Const {
        ParseStateV {
            expected: Expectation::DeclarationName,
            ctx: s.ctx.push(
                VarDeclV {
                    name: None,
                    var_type: None,
                    default_val: None,
                    is_const: t.kind == TokenKind::Const,
                },
            ),
            stmts: s.stmts,
            errs: s.errs,
        }
    } else if t.kind == TokenKind::As {
        ParseStateV { expected: Expectation::DeclarationName, ctx: s.ctx, stmts: s.stmts, errs: s.errs }
    } else if t.kind == TokenKind::Assign {
        ParseStateV { expected: Expectation::ExpressionValue, ctx: s.ctx, stmts: s.stmts, errs: s.errs }
    } else if t.kind == TokenKind::Identifier || is_type_kind(t.kind) {
        if s.ctx.len() == 0 {
            ParseStateV {
                expected: s.expected,
                ctx: s.ctx,
                stmts: s.stmts,
                errs: s.errs.push(mk_outside_err(file, t)),
            }
        } else {
            let top = s.ctx.last();
            if s.expected == Expectation::DeclarationName {
                if top.name is None {
                    ParseStateV {
                        expected: Expectation::AfterName,
                        ctx: s.ctx.update(
                            s.ctx.len() - 1,
                            VarDeclV {
                                name: Some(t.literal),
                                var_type: top.var_type,
                                default_val: top.default_val,
                                is_const: top.is_const,
                            },
                        ),
                        stmts: s.stmts,
                        errs: s.errs,
                    }
                } else {
                    ParseStateV {
                        expected: Expectation::AssignOnly,
                        ctx: s.ctx.update(
                            s.ctx.len() - 1,
                            VarDeclV {
                                name: top.name,
                                var_type: Some(t.literal),
                                default_val: top.default_val,
                                is_const: top.is_const,
                            },
                        ),
                        stmts: s.stmts,
                        errs: s.errs,
                    }
                }
            } else if s.expected == Expectation::ExpressionValue {
                let e = if t.kind == TokenKind::Identifier {
                    ExprV::Reference(t.literal)
                } else {
                    ExprV::Simple(t.literal)
                };
                ParseStateV {
                    expected: Expectation::StatementEnd,
                    ctx: s.ctx.update(
                        s.ctx.len() - 1,
                        VarDeclV {
                            name: top.name,
                            var_type: top.var_type,
                            default_val: Some(e),
                            is_const: top.is_const,
                        },
                    ),
                    stmts: s.stmts,
                    errs: s.errs,
                }
            } else {
                s
            }
        }
    } else if t.kind == TokenKind::Semicolon {
        if s.ctx.len() == 0 {
            ParseStateV { expected: Expectation::StatementStart, ctx: s.ctx, stmts: s.stmts, errs: s.errs }
        } else {
            ParseStateV {
                expected: Expectation::StatementStart,
                ctx: s.ctx.drop_last(),
                stmts: s.stmts.push(s.ctx.last()),
                errs: s.errs,
            }
        }
    } else {
        s
    }
}

/// The fold of [`p_step`] over the token sequence from position `i` on.
pub open spec fn p_run(file: Seq<char>, s: ParseStateV, toks: Seq<TokenV>, i: int) -> ParseStateV
    decreases toks.len() - i,
{
    if i < 0 || i >= toks.len() {
        s
    } else {
        p_run(file, p_step(file, s, toks[i]), toks, i + 1)
    }
}

/// The images of a sequence of tokens.
pub open spec fn tokens_view(ts: Seq<Token>) -> Seq<TokenV> {
    ts.map(|i: int, t: Token| t@)
}

/// The executable statements carry exactly what the model statements
/// hold.
pub open spec fn stmts_match(ss: Seq<MonkeyCStatement>, vs: Seq<VarDeclV>) -> bool {
    &&& ss.len() == vs.len()
    &&& forall|k: int| 0 <= k < ss.len() ==> stmt_matches(#[trigger] ss[k], vs[k])
}

/// The executable diagnostics carry exactly what the model diagnostics
/// hold.
pub open spec fn errs_match(es: Seq<MCParseError>, vs: Seq<ParseErrV>) -> bool {
    &&& es.len() == vs.len()
    &&& forall|k: int| 0 <= k < es.len() ==> #[trigger] es[k]@ == vs[k]
}

/// The executable result of a parse agrees with the model's final
/// state: the statements exactly when no diagnostic was recorded, the
/// full diagnostic list otherwise.
pub open spec fn parse_result_matches(
    fin: ParseStateV,
    r: Result<Vec<MonkeyCStatement>, Vec<MCParseError>>,
) -> bool {
    match r {
        Ok(ss) => fin.errs.len() == 0 && stmts_match(ss@, fin.stmts),
        Err(es) => fin.errs.len() > 0 && errs_match(es@, fin.errs),
    }
}

/// The parser's per-call mutable environment: the expectation of what
/// may come next, and the stack of statements under construction.
pub struct ParserEnvironment {
    pub next_expected: Expectation,
    pub context: Vec<MonkeyCStatement>,
}

impl ParserEnvironment {
    /// A fresh environment: a statement start is expected, nothing is
    /// under construction.
    pub fn new() -> (env: ParserEnvironment)
        ensures
            env.next_expected == Expectation::StatementStart,
            env.context@.len() == 0,
    {
        ParserEnvironment { next_expected: Expectation::StatementStart, context: Vec::new() }
    }
}

/// Executable twin of [`expectation_allows`].
fn kind_allowed(e: Expectation, k: TokenKind) -> (b: bool)
    ensures
        b == expectation_allows(e, k),
{
    match e {
        Expectation::StatementStart => kind_is_keyword(k),
        Expectation::DeclarationName => k == TokenKind::Identifier,
        Expectation::AfterName => k == TokenKind::As || k == TokenKind::Assign || k
            == TokenKind::Semicolon,
        Expectation::AssignOnly => k == TokenKind::Assign,
        Expectation::StatementEnd => k == TokenKind::Semicolon,
        Expectation::ExpressionValue => k == TokenKind::Identifier || kind_is_type(k),
    }
}

/// Executable twin of [`is_type_kind`].
fn kind_is_type(k: TokenKind) -> (b: bool)
    ensures
        b == is_type_kind(k),
{
    k == TokenKind::BoolLiteral || k == TokenKind::CharLiteral || k == TokenKind::StringLiteral
        || k == TokenKind::LongLiteral || k == TokenKind::DoubleLiteral || k
        == TokenKind::FloatLiteral || k == TokenKind::IntLiteral
}

/// Executable twin of [`expected_phrase`].
fn expectation_message(e: Expectation) -> (s: String)
    ensures
        s@ == expected_phrase(e),
{
    match e {
        Expectation::StatementStart => "as, and, break, case, catch, class, const, continue, default, do, else, enum, extends, finally, for, function, has, hidden, if, instanceof, import, me, module, new, null, nan, private, protected, public, or, return, self, static, switch, throw, try, using, var, while".to_owned(),
        Expectation::DeclarationName => "identifier".to_owned(),
        Expectation::AfterName => "as, assign, semicolon".to_owned(),
        Expectation::AssignOnly => "assign".to_owned(),
        Expectation::StatementEnd => "semicolon".to_owned(),
        Expectation::ExpressionValue => "identifier, boolliteral, charliteral, stringliteral, longliteral, doubleliteral, floatliteral, intliteral".to_owned(),
    }
}

/// Builds the diagnostic of [`mk_expect_err`].
fn make_expect_error(file: &String, e: Expectation, t: &Token) -> (err: MCParseError)
    ensures
        err@ == mk_expect_err(file@, e, t@),
{
    let phrase = expectation_message(e);
    let mut msg = "Expected ".to_owned();
    msg.append(phrase.as_str());
    msg.append(", found '");
    msg.append(t.literal.as_str());
    msg.append("'");
    let row_text = u64_dec(t.row);
    let column_text = u64_dec(t.column);
    let mut full = "Syntax error at ".to_owned();
    full.append(file.as_str());
    full.append(":");
    full.append(row_text.as_str());
    full.append(":");
    full.append(column_text.as_str());
    full.append(": ");
    full.append(msg.as_str());
    MCParseError {
        at: (t.row, t.column),
        literal_len: t.literal.as_str().unicode_len(),
        full_msg: full,
        msg,
    }
}

/// Builds the diagnostic of [`mk_outside_err`].
fn make_outside_error(file: &String, t: &Token) -> (err: MCParseError)
    ensures
        err@ == mk_outside_err(file@, t@),
{
    let mut msg = "Identifier '".to_owned();
    msg.append(t.literal.as_str());
    msg.append("' outside of any declaration");
    let row_text = u64_dec(t.row);
    let column_text = u64_dec(t.column);
    let mut full = "Syntax error at ".to_owned();
    full.append(file.as_str());
    full.append(":");
    full.append(row_text.as_str());
    full.append(":");
    full.append(column_text.as_str());
    full.append(": ");
    full.append(msg.as_str());
    MCParseError {
        at: (t.row, t.column),
        literal_len: t.literal.as_str().unicode_len(),
        full_msg: full,
        msg,
    }
}

/// Walks a token sequence and assembles variable-declaration
/// statements, collecting diagnostics instead of stopping at the first
/// malformed token.
pub struct MonkeyCParser {
    pub token_list: Vec<Token>,
    pub file_path: String,
    pub currently_at: usize,
}

impl MonkeyCParser {
    /// A fresh parser standing on the first token; `file_path` is an
    /// opaque identifier used only inside diagnostic messages.
    pub fn new(token_list: Vec<Token>, file_path: String) -> (p: MonkeyCParser)
        ensures
            p.token_list@ == token_list@,
            p.file_path@ == file_path@,
            p.currently_at == 0,
    {
        MonkeyCParser { token_list, file_path, currently_at: 0 }
    }

    /// True exactly of the literal kinds usable as an expression value.
    pub fn is_kind_a_type(&self, k: TokenKind) -> (b: bool)
        ensures
            b == is_type_kind(k),
    {
        kind_is_type(k)
    }

    /// A copy of the token the cursor stands on.
    fn current_token(&self) -> (t: Token)
        requires
            self.currently_at < self.token_list@.len(),
        ensures
            t@ == self.token_list@[self.currently_at as int]@,
    {
        let tok = &self.token_list[self.currently_at];
        Token::new(tok.kind, tok.literal.clone(), tok.row, tok.column)
    }

    /// Consumes the remaining tokens through the state machine: the
    /// outcome is exactly what [`p_run`] states from a fresh
    /// environment at the cursor's position. The statements are
    /// returned only when no diagnostic was recorded; otherwise the
    /// full diagnostic list is, in detection order.
    #[verifier::loop_isolation(false)]
    #[verifier::rlimit(100)]
    pub fn parse(&mut self) -> (r: Result<Vec<MonkeyCStatement>, Vec<MCParseError>>)
        ensures
            final(self).token_list@ == old(self).token_list@,
            final(self).file_path@ == old(self).file_path@,
            parse_result_matches(
                p_run(
                    old(self).file_path@,
                    parse_init(),
                    tokens_view(old(self).token_list@),
                    old(self).currently_at as int,
                ),
                r,
            ),
    {
        let ghost toks = tokens_view(self.token_list@);
        let ghost file = self.file_path@;
        let ghost a0 = self.currently_at as int;
        let ghost fin = p_run(file, parse_init(), toks, a0);
        let mut statements: Vec<MonkeyCStatement> = Vec::new();
        let mut errors: Vec<MCParseError> = Vec::new();
        let mut env = ParserEnvironment::new();
        let ghost mut g = parse_init();
        while self.token_list.len() > self.currently_at
            invariant
                self.token_list@ == old(self).token_list@,
                self.file_path@ == old(self).file_path@,
                a0 <= self.currently_at as int,
                self.currently_at as int <= max(a0, toks.len() as int),
                env.next_expected == g.expected,
                stmts_match(env.context@, g.ctx),
                stmts_match(statements@, g.stmts),
                errs_match(errors@, g.errs),
                fin == p_run(file, g, toks, self.currently_at as int),
            decreases toks.len() - min(self.currently_at as int, toks.len() as int),
        {
            let ghost g0 = g;
            let ghost at_i = self.currently_at as int;
            let t = self.current_token();
            let ghost tv = toks[at_i];
            proof {
                assert(tv == self.token_list@[at_i]@);
                assert(t@ == tv);
            }
            let allowed = kind_allowed(env.next_expected, t.kind);
            if !allowed {
                let err = make_expect_error(&self.file_path, env.next_expected, &t);
                errors.push(err);
            } else if t.kind == TokenKind::Var || t.kind == TokenKind::Const {
                let is_const = t.kind == TokenKind::Const;
                env.context.push(
                    MonkeyCStatement::VariableDeclaration {
                        name: None,
                        default_val: None,
                        var_type: None,
                        is_const,
                    },
                );
                env.next_expected = Expectation::DeclarationName;
            } else if t.kind == TokenKind::As {
                env.next_expected = Expectation::DeclarationName;
            } else if t.kind == TokenKind::Assign {
                env.next_expected = Expectation::ExpressionValue;
            } else if t.kind == TokenKind::Identifier || kind_is_type(t.kind) {
                if env.context.len() == 0 {
                    let err = make_outside_error(&self.file_path, &t);
                    errors.push(err);
                } else {
                    let top = env.context.pop().unwrap();
                    if let MonkeyCStatement::VariableDeclaration {
                        name,
                        default_val,
                        var_type,
                        is_const,
                    } = top {
                        match env.next_expected {
                            Expectation::DeclarationName => {
                                if name.is_none() {
                                    env.context.push(
                                        MonkeyCStatement::VariableDeclaration {
                                            name: Some(t.literal),
                                            default_val,
                                            var_type,
                                            is_const,
                                        },
                                    );
                                    env.next_expected = Expectation::AfterName;
                                } else {
                                    env.context.push(
                                        MonkeyCStatement::VariableDeclaration {
                                            name,
                                            default_val,
                                            var_type: Some(t.literal),
                                            is_const,
                                        },
                                    );
                                    env.next_expected = Expectation::AssignOnly;
                                }
                            },
                            Expectation::ExpressionValue => {
                                let value = if t.kind == TokenKind::Identifier {
                                    MonkeyCExpression::Reference(t.literal)
                                } else {
                                    MonkeyCExpression::Simple(t.literal)
                                };
                                env.context.push(
                                    MonkeyCStatement::VariableDeclaration {
                                        name,
                                        default_val: Some(value),
                                        var_type,
                                        is_const,
                                    },
                                );
                                env.next_expected = Expectation::StatementEnd;
                            },
                            _ => {
                                env.context.push(
                                    MonkeyCStatement::VariableDeclaration {
                                        name,
                                        default_val,
                                        var_type,
                                        is_const,
                                    },
                                );
                            },
                        }
                    } else {
                        env.context.push(top);
                    }
                }
            } else if t.kind == TokenKind::Semicolon {
                if env.context.len() > 0 {
                    let top = env.context.pop().unwrap();
                    statements.push(top);
                }
                env.next_expected = Expectation::StatementStart;
            }
            proof {
                g = p_step(file, g0, tv);
                assert(fin == p_run(file, g, toks, at_i + 1));
            }
            self.currently_at += 1;
        }
        proof {
            assert(fin == g);
        }
        if errors.len() > 0 {
            Err(errors)
        } else {
            Ok(statements)
        }
    }
}

} // verus!
