//! The abstract syntax tree the parser produces, and the mathematical
//! images the parser's model builds of it.
//!
//! The parser of this crate populates `VariableDeclaration` statements
//! and the `Simple`/`Reference` expressions alone; the remaining
//! variants belong to the data model for grammar left to later passes.

use vstd::prelude::*;

verus! {

/// A Monkey C statement. Fields of a `VariableDeclaration` are filled
/// one token at a time while the statement is parsed; `None` means "not
/// yet parsed".
#[derive(Debug, PartialEq)]
pub enum MonkeyCStatement {
    VariableDeclaration {
        name: Option<String>,
        default_val: Option<MonkeyCExpression>,
        var_type: Option<String>,
        is_const: bool,
    },
    ClassDeclaration { name: String, extends: Option<String>, children: Vec<MonkeyCStatement> },
    EnumDeclaration { name: String, items: Option<Vec<String>> },
}

/// A Monkey C expression. The statement parser builds `Simple` (a
/// literal taken verbatim) and `Reference` (a name referring to another
/// declared entity); the operator forms await an expression parser.
#[derive(Debug, PartialEq)]
pub enum MonkeyCExpression {
    Simple(String),
    Reference(String),
    Mathematical(Box<MonkeyCExpression>, MonkeyCExprMathOperation, Box<MonkeyCExpression>),
    Binary(Box<MonkeyCExpression>, MonkeyCExprBinaryOperation, Box<MonkeyCExpression>),
    Bitwise(Box<MonkeyCExpression>, MonkeyCExprBitwiseOperation, Box<MonkeyCExpression>),
}

#[derive(Debug, PartialEq, Clone)]
pub enum MonkeyCExprBitwiseOperation {
    LeftShift,
    RightShift,
    And,
    Or,
    Xor,
}

#[derive(Debug, PartialEq, Clone)]
pub enum MonkeyCExprBinaryOperation {
    LessThan,
    LessThanEquals,
    GreaterThan,
    GreaterThanEquals,
    Equals,
    NotEquals,
}

#[derive(Debug, PartialEq, Clone)]
pub enum MonkeyCExprMathOperation {
    Add,
    Subtract,
    Divide,
    Multiply,
    Modulo,
}

/// The mathematical image of an expression the statement parser can
/// build: a literal taken verbatim, or a reference to a name.
pub ghost enum ExprV {
    Simple(Seq<char>),
    Reference(Seq<char>),
}

/// The mathematical image of a variable declaration under construction
/// or completed.
pub ghost struct VarDeclV {
    pub name: Option<Seq<char>>,
    pub var_type: Option<Seq<char>>,
    pub default_val: Option<ExprV>,
    pub is_const: bool,
}

/// An optional owned string carries exactly an optional character
/// sequence.
pub open spec fn opt_str_matches(s: Option<String>, v: Option<Seq<char>>) -> bool {
    match s {
        Some(x) => v is Some && x@ == v->0,
        None => v is None,
    }
}

/// The executable expression is the form the model describes, with the
/// same characters.
pub open spec fn expr_matches(e: MonkeyCExpression, v: ExprV) -> bool {
    match e {
        MonkeyCExpression::Simple(s) => v is Simple && s@ == v->Simple_0,
        MonkeyCExpression::Reference(s) => v is Reference && s@ == v->Reference_0,
        _ => false,
    }
}

pub open spec fn opt_expr_matches(e: Option<MonkeyCExpression>, v: Option<ExprV>) -> bool {
    match e {
        Some(x) => v is Some && expr_matches(x, v->0),
        None => v is None,
    }
}

/// The executable statement is a variable declaration whose fields carry
/// exactly what the model holds.
pub open spec fn stmt_matches(s: MonkeyCStatement, v: VarDeclV) -> bool {
    match s {
        MonkeyCStatement::VariableDeclaration { name, default_val, var_type, is_const } => {
            &&& opt_str_matches(name, v.name)
            &&& opt_expr_matches(default_val, v.default_val)
            &&& opt_str_matches(var_type, v.var_type)
            &&& is_const == v.is_const
        },
        _ => false,
    }
}

} // verus!
