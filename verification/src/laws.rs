//! The general guarantees of the front end, stated over the models of
//! the two passes and proved once and for all: what a well-shaped
//! declaration parses to, how an unexpected token is recovered from,
//! why two runs over the same input agree, and how positions move.

use vstd::prelude::*;
use crate::ast::{stmt_matches, ExprV, MonkeyCStatement, VarDeclV};
use crate::lexer::{
    is_numeric_part, lex_cons, lex_result_matches, num_scan, spec_lex, spec_lex_at, LexErrV,
    LexError, NumScan,
};
use crate::parse_error::MCParseError;
use crate::parser::{
    expectation_allows, is_type_kind, mk_expect_err, p_run, p_step, parse_init,
    parse_result_matches, ParseStateV,
};
use crate::tokens::{Token, TokenKind, TokenV};

verus! {

/// A token moved down by `d` rows, otherwise unchanged.
pub open spec fn shift_token(t: TokenV, d: int) -> TokenV {
    TokenV { kind: t.kind, literal: t.literal, row: t.row + d, column: t.column }
}

/// A lexical error moved down by `d` rows, otherwise unchanged.
pub open spec fn shift_err(e: LexErrV, d: int) -> LexErrV {
    LexErrV { row: e.row + d, column: e.column, reason: e.reason }
}

/// The two scan outcomes differ exactly by `d` in every row.
pub open spec fn outcome_shifted_by(
    a: Result<Seq<TokenV>, LexErrV>,
    b: Result<Seq<TokenV>, LexErrV>,
    d: int,
) -> bool {
    &&& (a is Ok <==> b is Ok)
    &&& (a is Ok ==> b->Ok_0.len() == a->Ok_0.len())
    &&& (a is Ok ==> forall|k: int|
        0 <= k < a->Ok_0.len() ==> #[trigger] b->Ok_0[k] == shift_token(a->Ok_0[k], d))
    &&& (a is Err ==> b->Err_0 == shift_err(a->Err_0, d))
}

proof fn lemma_shift_cons(
    t: TokenV,
    ra: Result<Seq<TokenV>, LexErrV>,
    rb: Result<Seq<TokenV>, LexErrV>,
    d: int,
)
    requires
        outcome_shifted_by(ra, rb, d),
    ensures
        outcome_shifted_by(lex_cons(t, ra), lex_cons(shift_token(t, d), rb), d),
{
    if ra is Ok {
        let sa = ra->Ok_0;
        let sb = rb->Ok_0;
        let ca = seq![t] + sa;
        let cb = seq![shift_token(t, d)] + sb;
        assert(lex_cons(t, ra)->Ok_0 == ca);
        assert(lex_cons(shift_token(t, d), rb)->Ok_0 == cb);
        assert forall|k: int| 0 <= k < ca.len() implies #[trigger] cb[k] == shift_token(
            ca[k],
            d,
        ) by {
            if k == 0 {
                assert(ca[0] == t);
                assert(cb[0] == shift_token(t, d));
            } else {
                assert(ca[k] == sa[k - 1]);
                assert(cb[k] == sb[k - 1]);
            }
        }
    }
}

/// Row and column tracking: the starting row shifts every reported
/// position uniformly and changes nothing else. Together with the
/// definition of the scan at a line break — the rest of the input is
/// scanned from the next row with the column counting from 1 again —
/// this pins how positions after a line break relate to those before
/// it.
pub proof fn lemma_lex_row_shift(src: Seq<char>, i: int, row: int, col: int, d: int)
    ensures
        outcome_shifted_by(
            spec_lex_at(src, i, row, col),
            spec_lex_at(src, i, row + d, col),
            d,
        ),
    decreases src.len() - i,
{
    let a = spec_lex_at(src, i, row, col);
    let b = spec_lex_at(src, i, row + d, col);
    if 0 <= i < src.len() {
        let c = src[i];
        if c == '\n' {
            lemma_lex_row_shift(src, i + 1, row + 1, 1, d);
        } else if crate::lexer::punct_kind(c) is Some {
            lemma_lex_row_shift(src, i + 1, row, col + 1, d);
            let t = TokenV {
                kind: crate::lexer::punct_kind(c)->0,
                literal: seq![c],
                row,
                column: col,
            };
            lemma_shift_cons(t, spec_lex_at(src, i + 1, row, col + 1), spec_lex_at(src, i + 1, row + d, col + 1), d);
        } else if c == '\'' {
            if i + 1 < src.len() {
                let n = src.len() as int;
                lemma_lex_row_shift(src, vstd::math::min(i + 3, n), row, col + 3, d);
                let t = TokenV {
                    kind: TokenKind::CharLiteral,
                    literal: seq![src[i + 1]],
                    row,
                    column: col + 1,
                };
                lemma_shift_cons(
                    t,
                    spec_lex_at(src, vstd::math::min(i + 3, n), row, col + 3),
                    spec_lex_at(src, vstd::math::min(i + 3, n), row + d, col + 3),
                    d,
                );
            } else {
                lemma_lex_row_shift(src, i + 1, row, col + 1, d);
            }
        } else if c == '"' {
            let n = src.len() as int;
            let j = vstd::math::max(i + 1, vstd::math::min(crate::lexer::string_end(src, i + 1), n));
            let jn = vstd::math::max(i + 1, vstd::math::min(j + 1, n));
            lemma_lex_row_shift(src, jn, row, col + (j + 1 - i), d);
            let t = TokenV {
                kind: TokenKind::StringLiteral,
                literal: src.subrange(i + 1, j),
                row,
                column: col,
            };
            lemma_shift_cons(
                t,
                spec_lex_at(src, jn, row, col + (j + 1 - i)),
                spec_lex_at(src, jn, row + d, col + (j + 1 - i)),
                d,
            );
        } else if crate::lexer::is_ascii_letter(c) {
            let n = src.len() as int;
            let j = vstd::math::max(i + 1, vstd::math::min(crate::lexer::word_end(src, i), n));
            lemma_lex_row_shift(src, j, row, col + (j - i), d);
            let t = TokenV {
                kind: crate::tokens::keyword_kind(src.subrange(i, j)),
                literal: src.subrange(i, j),
                row,
                column: col,
            };
            lemma_shift_cons(
                t,
                spec_lex_at(src, j, row, col + (j - i)),
                spec_lex_at(src, j, row + d, col + (j - i)),
                d,
            );
        } else if crate::lexer::is_ascii_digit(c) {
            let n = src.len() as int;
            match num_scan(src, i, col, TokenKind::IntLiteral, false) {
                NumScan::Done { end, kind, column: after } => {
                    let j = vstd::math::max(i + 1, vstd::math::min(end, n));
                    lemma_lex_row_shift(src, j, row, after, d);
                    let t = TokenV { kind, literal: src.subrange(i, j), row, column: col };
                    lemma_shift_cons(
                        t,
                        spec_lex_at(src, j, row, after),
                        spec_lex_at(src, j, row + d, after),
                        d,
                    );
                },
                NumScan::Fail { column: at, reason } => {},
            }
        } else {
            lemma_lex_row_shift(src, i + 1, row, col + 1, d);
        }
    }
}

proof fn lemma_rows_cons(t: TokenV, rest: Result<Seq<TokenV>, LexErrV>, row: int, row2: int)
    requires
        t.row == row,
        row <= row2,
        rest is Ok ==> forall|k: int|
            0 <= k < rest->Ok_0.len() ==> #[trigger] rest->Ok_0[k].row >= row2,
        rest is Ok ==> forall|k: int, l: int|
            0 <= k <= l < rest->Ok_0.len() ==> #[trigger] rest->Ok_0[k].row
                <= #[trigger] rest->Ok_0[l].row,
    ensures
        lex_cons(t, rest) is Ok ==> forall|k: int|
            0 <= k < lex_cons(t, rest)->Ok_0.len() ==> #[trigger] lex_cons(t, rest)->Ok_0[k].row
                >= row,
        lex_cons(t, rest) is Ok ==> forall|k: int, l: int|
            0 <= k <= l < lex_cons(t, rest)->Ok_0.len() ==> #[trigger] lex_cons(
                t,
                rest,
            )->Ok_0[k].row <= #[trigger] lex_cons(t, rest)->Ok_0[l].row,
{
    if rest is Ok {
        let s = rest->Ok_0;
        let cs = seq![t] + s;
        assert(lex_cons(t, rest)->Ok_0 == cs);
        assert forall|k: int| 0 <= k < cs.len() implies #[trigger] cs[k].row >= row by {
            if k > 0 {
                assert(cs[k] == s[k - 1]);
            }
        }
        assert forall|k: int, l: int| 0 <= k <= l < cs.len() implies #[trigger] cs[k].row
            <= #[trigger] cs[l].row by {
            if k > 0 {
                assert(cs[k] == s[k - 1]);
                assert(cs[l] == s[l - 1]);
            } else if l > 0 {
                assert(cs[l] == s[l - 1]);
                assert(s[l - 1].row >= row2);
            }
        }
    }
}

/// Rows never move backwards: every token of a scan reports a row at
/// least the starting one, and the rows come out in nondecreasing
/// order.
pub proof fn lemma_lex_rows_monotonic(src: Seq<char>, i: int, row: int, col: int)
    ensures
        spec_lex_at(src, i, row, col) is Ok ==> forall|k: int|
            0 <= k < spec_lex_at(src, i, row, col)->Ok_0.len() ==> #[trigger] spec_lex_at(
                src,
                i,
                row,
                col,
            )->Ok_0[k].row >= row,
        spec_lex_at(src, i, row, col) is Ok ==> forall|k: int, l: int|
            0 <= k <= l < spec_lex_at(src, i, row, col)->Ok_0.len() ==> #[trigger] spec_lex_at(
                src,
                i,
                row,
                col,
            )->Ok_0[k].row <= #[trigger] spec_lex_at(src, i, row, col)->Ok_0[l].row,
    decreases src.len() - i,
{
    let a = spec_lex_at(src, i, row, col);
    if 0 <= i < src.len() {
        let c = src[i];
        if c == '\n' {
            lemma_lex_rows_monotonic(src, i + 1, row + 1, 1);
        } else if crate::lexer::punct_kind(c) is Some {
            lemma_lex_rows_monotonic(src, i + 1, row, col + 1);
            let t = TokenV {
                kind: crate::lexer::punct_kind(c)->0,
                literal: seq![c],
                row,
                column: col,
            };
            lemma_rows_cons(t, spec_lex_at(src, i + 1, row, col + 1), row, row);
        } else if c == '\'' {
            let n = src.len() as int;
            if i + 1 < src.len() {
                lemma_lex_rows_monotonic(src, vstd::math::min(i + 3, n), row, col + 3);
                let t = TokenV {
                    kind: TokenKind::CharLiteral,
                    literal: seq![src[i + 1]],
                    row,
                    column: col + 1,
                };
                lemma_rows_cons(t, spec_lex_at(src, vstd::math::min(i + 3, n), row, col + 3), row, row);
            } else {
                lemma_lex_rows_monotonic(src, i + 1, row, col + 1);
            }
        } else if c == '"' {
            let n = src.len() as int;
            let j = vstd::math::max(i + 1, vstd::math::min(crate::lexer::string_end(src, i + 1), n));
            let jn = vstd::math::max(i + 1, vstd::math::min(j + 1, n));
            lemma_lex_rows_monotonic(src, jn, row, col + (j + 1 - i));
            let t = TokenV {
                kind: TokenKind::StringLiteral,
                literal: src.subrange(i + 1, j),
                row,
                column: col,
            };
            lemma_rows_cons(t, spec_lex_at(src, jn, row, col + (j + 1 - i)), row, row);
        } else if crate::lexer::is_ascii_letter(c) {
            let n = src.len() as int;
            let j = vstd::math::max(i + 1, vstd::math::min(crate::lexer::word_end(src, i), n));
            lemma_lex_rows_monotonic(src, j, row, col + (j - i));
            let t = TokenV {
                kind: crate::tokens::keyword_kind(src.subrange(i, j)),
                literal: src.subrange(i, j),
                row,
                column: col,
            };
            lemma_rows_cons(t, spec_lex_at(src, j, row, col + (j - i)), row, row);
        } else if crate::lexer::is_ascii_digit(c) {
            let n = src.len() as int;
            match num_scan(src, i, col, TokenKind::IntLiteral, false) {
                NumScan::Done { end, kind, column: after } => {
                    let j = vstd::math::max(i + 1, vstd::math::min(end, n));
                    lemma_lex_rows_monotonic(src, j, row, after);
                    let t = TokenV { kind, literal: src.subrange(i, j), row, column: col };
                    lemma_rows_cons(t, spec_lex_at(src, j, row, after), row, row);
                },
                NumScan::Fail { column: at, reason } => {},
            }
        } else {
            lemma_lex_rows_monotonic(src, i + 1, row, col + 1);
        }
    }
}

proof fn lemma_num_scan_decorated(
    src: Seq<char>,
    i: int,
    col: int,
    kind: TokenKind,
    decorated: bool,
    q: int,
)
    requires
        0 <= i <= q < src.len(),
        forall|r: int| i <= r <= q ==> is_numeric_part(#[trigger] src[r]),
        src[q] == 'l' || src[q] == 'd',
        kind == TokenKind::FloatLiteral || decorated,
    ensures
        num_scan(src, i, col, kind, decorated) is Fail,
    decreases q - i,
{
    if i < q {
        if src[i] == '.' {
            lemma_num_scan_decorated(src, i + 1, col + 1, TokenKind::FloatLiteral, decorated, q);
        } else if src[i] == 'l' || src[i] == 'd' {
        } else {
            lemma_num_scan_decorated(src, i + 1, col + 1, kind, decorated, q);
        }
    }
}

/// Numeric-suffix invariant, first half: a numeric literal holding a
/// decimal point anywhere before an `l` or `d` decorator fails the
/// scan with a positioned error, whatever state the scan is in when it
/// enters the run.
pub proof fn lemma_numeric_float_decorator_fails(
    src: Seq<char>,
    i: int,
    col: int,
    kind: TokenKind,
    decorated: bool,
    p: int,
    q: int,
)
    requires
        0 <= i <= p < q < src.len(),
        forall|r: int| i <= r <= q ==> is_numeric_part(#[trigger] src[r]),
        src[p] == '.',
        src[q] == 'l' || src[q] == 'd',
    ensures
        num_scan(src, i, col, kind, decorated) is Fail,
    decreases p - i,
{
    if i < p {
        if src[i] == '.' {
            lemma_numeric_float_decorator_fails(
                src,
                i + 1,
                col + 1,
                TokenKind::FloatLiteral,
                decorated,
                p,
                q,
            );
        } else if src[i] == 'l' {
            if !decorated && kind != TokenKind::FloatLiteral {
                lemma_num_scan_decorated(src, i + 1, col + 1, TokenKind::LongLiteral, true, q);
            }
        } else if src[i] == 'd' {
            if !decorated && kind != TokenKind::FloatLiteral {
                lemma_num_scan_decorated(src, i + 1, col + 1, TokenKind::DoubleLiteral, true, q);
            }
        } else {
            lemma_numeric_float_decorator_fails(src, i + 1, col + 1, kind, decorated, p, q);
        }
    } else {
        lemma_num_scan_decorated(src, p + 1, col + 1, TokenKind::FloatLiteral, decorated, q);
    }
}

/// Numeric-suffix invariant, second half: a numeric literal holding
/// two decorators out of `l` and `d`, in any combination, fails the
/// scan with a positioned error.
pub proof fn lemma_numeric_two_decorators_fail(
    src: Seq<char>,
    i: int,
    col: int,
    kind: TokenKind,
    decorated: bool,
    p: int,
    q: int,
)
    requires
        0 <= i <= p < q < src.len(),
        forall|r: int| i <= r <= q ==> is_numeric_part(#[trigger] src[r]),
        src[p] == 'l' || src[p] == 'd',
        src[q] == 'l' || src[q] == 'd',
    ensures
        num_scan(src, i, col, kind, decorated) is Fail,
    decreases p - i,
{
    if i < p {
        if src[i] == '.' {
            lemma_numeric_two_decorators_fail(
                src,
                i + 1,
                col + 1,
                TokenKind::FloatLiteral,
                decorated,
                p,
                q,
            );
        } else if src[i] == 'l' {
            if !decorated && kind != TokenKind::FloatLiteral {
                lemma_num_scan_decorated(src, i + 1, col + 1, TokenKind::LongLiteral, true, q);
            }
        } else if src[i] == 'd' {
            if !decorated && kind != TokenKind::FloatLiteral {
                lemma_num_scan_decorated(src, i + 1, col + 1, TokenKind::DoubleLiteral, true, q);
            }
        } else {
            lemma_numeric_two_decorators_fail(src, i + 1, col + 1, kind, decorated, p, q);
        }
    } else {
        if !decorated && kind != TokenKind::FloatLiteral {
            if src[p] == 'l' {
                lemma_num_scan_decorated(src, p + 1, col + 1, TokenKind::LongLiteral, true, q);
            } else {
                lemma_num_scan_decorated(src, p + 1, col + 1, TokenKind::DoubleLiteral, true, q);
            }
        }
    }
}

/// A single well-shaped declaration without a type annotation —
/// `var <id> = <value>;`, or `const` in place of `var` — parses to
/// exactly one statement carrying the name and the value, with no
/// type, no diagnostic, and the constancy of the keyword; an
/// identifier value becomes a reference, any literal a verbatim value.
pub proof fn lemma_single_declaration(
    file: Seq<char>,
    kw: TokenV,
    name: TokenV,
    assign: TokenV,
    value: TokenV,
    semi: TokenV,
)
    requires
        kw.kind == TokenKind::Var || kw.kind == TokenKind::Const,
        name.kind == TokenKind::Identifier,
        assign.kind == TokenKind::Assign,
        value.kind == TokenKind::Identifier || is_type_kind(value.kind),
        semi.kind == TokenKind::Semicolon,
    ensures
        ({
            let fin = p_run(file, parse_init(), seq![kw, name, assign, value, semi], 0);
            &&& fin.errs.len() == 0
            &&& fin.stmts.len() == 1
            &&& fin.stmts[0] == (VarDeclV {
                name: Some(name.literal),
                var_type: None,
                default_val: Some(
                    if value.kind == TokenKind::Identifier {
                        ExprV::Reference(value.literal)
                    } else {
                        ExprV::Simple(value.literal)
                    },
                ),
                is_const: kw.kind == TokenKind::Const,
            })
        }),
{
    let toks = seq![kw, name, assign, value, semi];
    let s0 = parse_init();
    let s1 = p_step(file, s0, kw);
    let s2 = p_step(file, s1, name);
    let s3 = p_step(file, s2, assign);
    let s4 = p_step(file, s3, value);
    let s5 = p_step(file, s4, semi);
    assert(p_run(file, s0, toks, 0) == p_run(file, s1, toks, 1));
    assert(p_run(file, s1, toks, 1) == p_run(file, s2, toks, 2));
    assert(p_run(file, s2, toks, 2) == p_run(file, s3, toks, 3));
    assert(p_run(file, s3, toks, 3) == p_run(file, s4, toks, 4));
    assert(p_run(file, s4, toks, 4) == p_run(file, s5, toks, 5));
    assert(p_run(file, s5, toks, 5) == s5);
}

/// A single well-shaped declaration with a type annotation —
/// `var <id> as <id> = <value>;`, or `const` in place of `var` —
/// parses to exactly one statement carrying the name, the type name
/// and the value, with no diagnostic.
pub proof fn lemma_single_declaration_typed(
    file: Seq<char>,
    kw: TokenV,
    name: TokenV,
    as_kw: TokenV,
    ty: TokenV,
    assign: TokenV,
    value: TokenV,
    semi: TokenV,
)
    requires
        kw.kind == TokenKind::Var || kw.kind == TokenKind::Const,
        name.kind == TokenKind::Identifier,
        as_kw.kind == TokenKind::As,
        ty.kind == TokenKind::Identifier,
        assign.kind == TokenKind::Assign,
        value.kind == TokenKind::Identifier || is_type_kind(value.kind),
        semi.kind == TokenKind::Semicolon,
    ensures
        ({
            let fin = p_run(
                file,
                parse_init(),
                seq![kw, name, as_kw, ty, assign, value, semi],
                0,
            );
            &&& fin.errs.len() == 0
            &&& fin.stmts.len() == 1
            &&& fin.stmts[0] == (VarDeclV {
                name: Some(name.literal),
                var_type: Some(ty.literal),
                default_val: Some(
                    if value.kind == TokenKind::Identifier {
                        ExprV::Reference(value.literal)
                    } else {
                        ExprV::Simple(value.literal)
                    },
                ),
                is_const: kw.kind == TokenKind::Const,
            })
        }),
{
    let toks = seq![kw, name, as_kw, ty, assign, value, semi];
    let s0 = parse_init();
    let s1 = p_step(file, s0, kw);
    let s2 = p_step(file, s1, name);
    let s3 = p_step(file, s2, as_kw);
    let s4 = p_step(file, s3, ty);
    let s5 = p_step(file, s4, assign);
    let s6 = p_step(file, s5, value);
    let s7 = p_step(file, s6, semi);
    assert(p_run(file, s0, toks, 0) == p_run(file, s1, toks, 1));
    assert(p_run(file, s1, toks, 1) == p_run(file, s2, toks, 2));
    assert(p_run(file, s2, toks, 2) == p_run(file, s3, toks, 3));
    assert(p_run(file, s3, toks, 3) == p_run(file, s4, toks, 4));
    assert(p_run(file, s4, toks, 4) == p_run(file, s5, toks, 5));
    assert(p_run(file, s5, toks, 5) == p_run(file, s6, toks, 6));
    assert(p_run(file, s6, toks, 6) == p_run(file, s7, toks, 7));
    assert(p_run(file, s7, toks, 7) == s7);
}

/// Error recovery is a single skipped token: a token whose kind is not
/// in the expected set records exactly one diagnostic, and leaves the
/// environment, the statements and the earlier diagnostics unchanged,
/// so parsing continues behind it.
pub proof fn lemma_error_recovery(file: Seq<char>, s: ParseStateV, t: TokenV)
    requires
        !expectation_allows(s.expected, t.kind),
    ensures
        ({
            let s2 = p_step(file, s, t);
            &&& s2.expected == s.expected
            &&& s2.ctx == s.ctx
            &&& s2.stmts == s.stmts
            &&& s2.errs == s.errs.push(mk_expect_err(file, s.expected, t))
        }),
{
}

/// Diagnostics only accumulate: whatever tokens follow, every
/// diagnostic already recorded stays, in its place.
pub proof fn lemma_parse_errors_accumulate(
    file: Seq<char>,
    s: ParseStateV,
    toks: Seq<TokenV>,
    i: int,
)
    ensures
        ({
            let fin = p_run(file, s, toks, i);
            &&& fin.errs.len() >= s.errs.len()
            &&& forall|k: int| 0 <= k < s.errs.len() ==> fin.errs[k] == s.errs[k]
        }),
    decreases toks.len() - i,
{
    if 0 <= i < toks.len() {
        let s2 = p_step(file, s, toks[i]);
        assert(s2.errs == s.errs || s2.errs.len() == s.errs.len() + 1);
        lemma_parse_errors_accumulate(file, s2, toks, i + 1);
    }
}

/// At a line break the scan simply continues on the next row with the
/// column counting from 1 again, emitting no token for the break: what
/// follows a top-level line break is scanned exactly as the remaining
/// input, one row further down.
pub proof fn lemma_lex_newline(src: Seq<char>, i: int, row: int, col: int)
    requires
        0 <= i < src.len(),
        src[i] == '\n',
    ensures
        spec_lex_at(src, i, row, col) == spec_lex_at(src, i + 1, row + 1, 1),
{
}

/// Scanning is a function of the source alone: any two results the
/// scan may return for the same characters are the same tokens, or the
/// same error.
pub proof fn lemma_lex_deterministic(
    src: Seq<char>,
    r1: Result<Vec<Token>, LexError>,
    r2: Result<Vec<Token>, LexError>,
)
    requires
        lex_result_matches(spec_lex(src), r1),
        lex_result_matches(spec_lex(src), r2),
    ensures
        r1 is Ok <==> r2 is Ok,
        r1 is Ok ==> r1->Ok_0@.len() == r2->Ok_0@.len(),
        r1 is Ok ==> forall|k: int|
            0 <= k < r1->Ok_0@.len() ==> #[trigger] r1->Ok_0@[k]@ == r2->Ok_0@[k]@,
        r1 is Err ==> r1->Err_0@ == r2->Err_0@,
{
}

/// Parsing is a function of the tokens and the file identifier alone:
/// any two results the parser may return against the same final model
/// state carry the same statements, or the same diagnostics.
pub proof fn lemma_parse_deterministic(
    fin: ParseStateV,
    r1: Result<Vec<MonkeyCStatement>, Vec<MCParseError>>,
    r2: Result<Vec<MonkeyCStatement>, Vec<MCParseError>>,
)
    requires
        parse_result_matches(fin, r1),
        parse_result_matches(fin, r2),
    ensures
        r1 is Ok <==> r2 is Ok,
        r1 is Ok ==> r1->Ok_0@.len() == r2->Ok_0@.len() && r2->Ok_0@.len() == fin.stmts.len(),
        r1 is Ok ==> forall|k: int|
            0 <= k < fin.stmts.len() ==> stmt_matches(#[trigger] r1->Ok_0@[k], fin.stmts[k])
                && stmt_matches(r2->Ok_0@[k], fin.stmts[k]),
        r1 is Err ==> r1->Err_0@.len() == r2->Err_0@.len(),
        r1 is Err ==> forall|k: int|
            0 <= k < r1->Err_0@.len() ==> #[trigger] r1->Err_0@[k]@ == r2->Err_0@[k]@,
{
}

} // verus!
