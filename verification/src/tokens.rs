//! Tokens of the Monkey C language: the kind enumeration, the positioned
//! token record, and the classification of identifier words into reserved
//! words, shared by the lexer and the parser so the two can never drift
//! apart.

use vstd::prelude::*;

verus! {

/// The lexical classes of Monkey C: reserved words, literal kinds,
/// identifiers, punctuation and operators.
#[derive(Debug, Clone, Copy, PartialEq, Eq, Structural)]
pub enum TokenKind {
    As,
    And,
    Break,
    Case,
    Catch,
    Class,
    Const,
    Continue,
    Default,
    Do,
    Else,
    Enum,
    Extends,
    Finally,
    For,
    Function,
    Has,
    Hidden,
    If,
    InstanceOf,
    Import,
    Me,
    Module,
    Private,
    Protected,
    Public,
    Or,
    Return,
    /// The `self` reserved word; the trailing underscore keeps the
    /// variant clear of Rust's own `Self`.
    Self_,
    Static,
    Switch,
    Throw,
    Try,
    Using,
    Var,
    While,
    BoolLiteral,
    StringLiteral,
    IntLiteral,
    LongLiteral,
    FloatLiteral,
    DoubleLiteral,
    CharLiteral,
    DictionaryLiteral,
    ArrayLiteral,
    Null,
    Nan,
    New,
    Identifier,
    Semicolon,
    Comma,
    /// This one: {
    OpeningBracket,
    /// This one: }
    ClosingBracket,
    /// This one: (
    OpeningBrace,
    /// This one: )
    ClosingBrace,
    Asterisk,
    Percent,
    Assign,
    Bang,
    Tilde,
    Plus,
    Minus,
    Slash,
    /// This one: &
    Ampersand,
    LessThan,
    GreaterThan,
    /// This one: ^
    Caret,
    VerticalBar,
}

/// The mathematical image of a [`Token`]: its literal as a sequence of
/// characters and its position as unbounded integers.
pub ghost struct TokenV {
    pub kind: TokenKind,
    pub literal: Seq<char>,
    pub row: int,
    pub column: int,
}

/// The smallest lexical unit: a kind, the literal text it was scanned
/// from, and the 1-based row and column of its first character.
#[derive(Debug, Clone, PartialEq)]
pub struct Token {
    pub kind: TokenKind,
    pub literal: String,
    pub row: u64,
    pub column: u64,
}

impl View for Token {
    type V = TokenV;

    open spec fn view(&self) -> TokenV {
        TokenV {
            kind: self.kind,
            literal: self.literal@,
            row: self.row as int,
            column: self.column as int,
        }
    }
}

impl Token {
    pub fn new(kind: TokenKind, literal: String, row: u64, column: u64) -> (t: Token)
        ensures
            t.kind == kind,
            t.literal@ == literal@,
            t.row == row,
            t.column == column,
    {
        Token { kind, literal, row, column }
    }
}

/// Reserved-word classification of an identifier word: the kind of the
/// reserved word the characters spell, or `Identifier` for any other word.
pub open spec fn keyword_kind(word: Seq<char>) -> TokenKind {
    if word == "as"@ {
        TokenKind::As
    } else if word == "and"@ {
        TokenKind::And
    } else if word == "break"@ {
        TokenKind::Break
    } else if word == "case"@ {
        TokenKind::Case
    } else if word == "catch"@ {
        TokenKind::Catch
    } else if word == "class"@ {
        TokenKind::Class
    } else if word == "const"@ {
        TokenKind::Const
    } else if word == "continue"@ {
        TokenKind::Continue
    } else if word == "default"@ {
        TokenKind::Default
    } else if word == "do"@ {
        TokenKind::Do
    } else if word == "else"@ {
        TokenKind::Else
    } else if word == "enum"@ {
        TokenKind::Enum
    } else if word == "extends"@ {
        TokenKind::Extends
    } else if word == "finally"@ {
        TokenKind::Finally
    } else if word == "for"@ {
        TokenKind::For
    } else if word == "function"@ {
        TokenKind::Function
    } else if word == "has"@ {
        TokenKind::Has
    } else if word == "hidden"@ {
        TokenKind::Hidden
    } else if word == "if"@ {
        TokenKind::If
    } else if word == "instanceof"@ {
        TokenKind::InstanceOf
    } else if word == "import"@ {
        TokenKind::Import
    } else if word == "me"@ {
        TokenKind::Me
    } else if word == "module"@ {
        TokenKind::Module
    } else if word == "new"@ {
        TokenKind::New
    } else if word == "null"@ {
        TokenKind::Null
    } else if word == "NaN"@ {
        TokenKind::Nan
    } else if word == "private"@ {
        TokenKind::Private
    } else if word == "protected"@ {
        TokenKind::Protected
    } else if word == "public"@ {
        TokenKind::Public
    } else if word == "or"@ {
        TokenKind::Or
    } else if word == "return"@ {
        TokenKind::Return
    } else if word == "self"@ {
        TokenKind::Self_
    } else if word == "static"@ {
        TokenKind::Static
    } else if word == "switch"@ {
        TokenKind::Switch
    } else if word == "throw"@ {
        TokenKind::Throw
    } else if word == "try"@ {
        TokenKind::Try
    } else if word == "using"@ {
        TokenKind::Using
    } else if word == "var"@ {
        TokenKind::Var
    } else if word == "while"@ {
        TokenKind::While
    } else {
        TokenKind::Identifier
    }
}

/// Holds of the kinds that [`keyword_kind`] can classify a word into:
/// the reserved words of the language. This is also the set of kinds a
/// statement may start with.
pub open spec fn is_keyword_kind(k: TokenKind) -> bool {
    ||| k == TokenKind::As
    ||| k == TokenKind::And
    ||| k == TokenKind::Break
    ||| k == TokenKind::Case
    ||| k == TokenKind::Catch
    ||| k == TokenKind::Class
    ||| k == TokenKind::Const
    ||| k == TokenKind::Continue
    ||| k == TokenKind::Default
    ||| k == TokenKind::Do
    ||| k == TokenKind::Else
    ||| k == TokenKind::Enum
    ||| k == TokenKind::Extends
    ||| k == TokenKind::Finally
    ||| k == TokenKind::For
    ||| k == TokenKind::Function
    ||| k == TokenKind::Has
    ||| k == TokenKind::Hidden
    ||| k == TokenKind::If
    ||| k == TokenKind::InstanceOf
    ||| k == TokenKind::Import
    ||| k == TokenKind::Me
    ||| k == TokenKind::Module
    ||| k == TokenKind::New
    ||| k == TokenKind::Null
    ||| k == TokenKind::Nan
    ||| k == TokenKind::Private
    ||| k == TokenKind::Protected
    ||| k == TokenKind::Public
    ||| k == TokenKind::Or
    ||| k == TokenKind::Return
    ||| k == TokenKind::Self_
    ||| k == TokenKind::Static
    ||| k == TokenKind::Switch
    ||| k == TokenKind::Throw
    ||| k == TokenKind::Try
    ||| k == TokenKind::Using
    ||| k == TokenKind::Var
    ||| k == TokenKind::While
}

/// Executable twin of [`is_keyword_kind`].
pub fn kind_is_keyword(k: TokenKind) -> (b: bool)
    ensures
        b == is_keyword_kind(k),
{
    k == TokenKind::As || k == TokenKind::And || k == TokenKind::Break || k == TokenKind::Case
        || k == TokenKind::Catch || k == TokenKind::Class || k == TokenKind::Const || k
        == TokenKind::Continue || k == TokenKind::Default || k == TokenKind::Do || k
        == TokenKind::Else || k == TokenKind::Enum || k == TokenKind::Extends || k
        == TokenKind::Finally || k == TokenKind::For || k == TokenKind::Function || k
        == TokenKind::Has || k == TokenKind::Hidden || k == TokenKind::If || k
        == TokenKind::InstanceOf || k == TokenKind::Import || k == TokenKind::Me || k
        == TokenKind::Module || k == TokenKind::New || k == TokenKind::Null || k == TokenKind::Nan
        || k == TokenKind::Private || k == TokenKind::Protected || k == TokenKind::Public || k
        == TokenKind::Or || k == TokenKind::Return || k == TokenKind::Self_ || k
        == TokenKind::Static || k == TokenKind::Switch || k == TokenKind::Throw || k
        == TokenKind::Try || k == TokenKind::Using || k == TokenKind::Var || k == TokenKind::While
}

/// Compares a scanned word, held as characters, with a string slice.
pub fn chars_eq_str(word: &Vec<char>, s: &str) -> (b: bool)
    ensures
        b == (word@ == s@),
{
    let n = s.unicode_len();
    if word.len() != n {
        return false;
    }
    let mut i: usize = 0;
    while i < n
        invariant
            i <= n,
            n == s@.len(),
            word@.len() == n,
            forall|j: int| 0 <= j < i ==> word@[j] == s@[j],
        decreases n - i,
    {
        if word[i] != s.get_char(i) {
            return false;
        }
        i += 1;
    }
    proof {
        assert(word@ =~= s@);
    }
    true
}

/// Classifies a scanned word as a reserved word or an identifier;
/// the executable twin of [`keyword_kind`].
pub fn word_kind(word: &Vec<char>) -> (k: TokenKind)
    ensures
        k == keyword_kind(word@),
{
    if chars_eq_str(word, "as") {
        TokenKind::As
    } else if chars_eq_str(word, "and") {
        TokenKind::And
    } else if chars_eq_str(word, "break") {
        TokenKind::Break
    } else if chars_eq_str(word, "case") {
        TokenKind::Case
    } else if chars_eq_str(word, "catch") {
        TokenKind::Catch
    } else if chars_eq_str(word, "class") {
        TokenKind::Class
    } else if chars_eq_str(word, "const") {
        TokenKind::Const
    } else if chars_eq_str(word, "continue") {
        TokenKind::Continue
    } else if chars_eq_str(word, "default") {
        TokenKind::Default
    } else if chars_eq_str(word, "do") {
        TokenKind::Do
    } else if chars_eq_str(word, "else") {
        TokenKind::Else
    } else if chars_eq_str(word, "enum") {
        TokenKind::Enum
    } else if chars_eq_str(word, "extends") {
        TokenKind::Extends
    } else if chars_eq_str(word, "finally") {
        TokenKind::Finally
    } else if chars_eq_str(word, "for") {
        TokenKind::For
    } else if chars_eq_str(word, "function") {
        TokenKind::Function
    } else if chars_eq_str(word, "has") {
        TokenKind::Has
    } else if chars_eq_str(word, "hidden") {
        TokenKind::Hidden
    } else if chars_eq_str(word, "if") {
        TokenKind::If
    } else if chars_eq_str(word, "instanceof") {
        TokenKind::InstanceOf
    } else if chars_eq_str(word, "import") {
        TokenKind::Import
    } else if chars_eq_str(word, "me") {
        TokenKind::Me
    } else if chars_eq_str(word, "module") {
        TokenKind::Module
    } else if chars_eq_str(word, "new") {
        TokenKind::New
    } else if chars_eq_str(word, "null") {
        TokenKind::Null
    } else if chars_eq_str(word, "NaN") {
        TokenKind::Nan
    } else if chars_eq_str(word, "private") {
        TokenKind::Private
    } else if chars_eq_str(word, "protected") {
        TokenKind::Protected
    } else if chars_eq_str(word, "public") {
        TokenKind::Public
    } else if chars_eq_str(word, "or") {
        TokenKind::Or
    } else if chars_eq_str(word, "return") {
        TokenKind::Return
    } else if chars_eq_str(word, "self") {
        TokenKind::Self_
    } else if chars_eq_str(word, "static") {
        TokenKind::Static
    } else if chars_eq_str(word, "switch") {
        TokenKind::Switch
    } else if chars_eq_str(word, "throw") {
        TokenKind::Throw
    } else if chars_eq_str(word, "try") {
        TokenKind::Try
    } else if chars_eq_str(word, "using") {
        TokenKind::Using
    } else if chars_eq_str(word, "var") {
        TokenKind::Var
    } else if chars_eq_str(word, "while") {
        TokenKind::While
    } else {
        TokenKind::Identifier
    }
}

/// The classification of a word lands either on `Identifier` or inside
/// the reserved-word set: the lexer's keyword table and the parser's
/// statement-start set cannot drift apart.
pub proof fn lemma_keyword_kind_is_keyword(word: Seq<char>)
    ensures
        keyword_kind(word) == TokenKind::Identifier || is_keyword_kind(keyword_kind(word)),
{
}

} // verus!
