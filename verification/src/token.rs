//! The token data model: classified fragments of source text.

use vstd::prelude::*;

verus! {

/// A classified fragment of the source text.
///
/// `text` borrows the exact contiguous range of the original input that was
/// consumed for this token: tokens are views into the input, never copies.
#[derive(Debug, Clone, PartialEq, Eq)]
pub struct Token<'source> {
    pub kind: TokenKind,
    pub text: &'source str,
}

/// The closed set of token classifications.
///
/// Every token carries exactly one of these kinds; input that matches no
/// lexical rule is classified `Illegal` rather than rejected.
#[derive(Debug, Clone, Copy, PartialEq, Eq, Structural)]
pub enum TokenKind {
    // Literals.
    /// Any word made up of valid identifier characters that is not a keyword.
    Identifier,
    /// An integer literal such as `0`, `0x123`, `0o123` and `0b1010` (reserved).
    IntegerLiteral,
    /// A float literal such as `3.14` (reserved).
    FloatLiteral,
    /// A string literal such as `"Hello, world"` (reserved).
    StringLiteral,
    // Arithmetic operators.
    /// The `=` character.
    Equal,
    /// The `==` characters.
    EqualEqual,
    /// The `!=` characters.
    NotEqual,
    /// The `+` character.
    Plus,
    /// The `-` character.
    Minus,
    /// The `*` character.
    Multiply,
    /// The `/` character.
    Divide,
    /// The `%` character.
    Modulo,
    /// The `+=` characters.
    PlusEqual,
    /// The `-=` characters.
    MinusEqual,
    /// The `*=` characters.
    MultiplyEqual,
    /// The `/=` characters.
    DivideEqual,
    /// The `%=` characters.
    ModuloEqual,
    // Logical operators.
    /// The `!` character.
    Not,
    /// The `||` characters.
    OrOr,
    /// The `&&` characters.
    AndAnd,
    /// The `<` character.
    LessThan,
    /// The `>` character.
    GreaterThan,
    /// The `<=` characters.
    LessThanEqual,
    /// The `>=` characters.
    GreaterThanEqual,
    // Bitwise operators.
    /// The `&` character.
    And,
    /// The `|` character.
    Or,
    /// The `^` character.
    Caret,
    /// The `<<` characters.
    LessThanLessThan,
    /// The `>>` characters.
    GreaterThanGreaterThan,
    // Punctuation.
    /// The `(` character.
    LeftParenthesis,
    /// The `)` character.
    RightParenthesis,
    /// The `[` character.
    LeftBracket,
    /// The `]` character.
    RightBracket,
    /// The `{` character.
    LeftBrace,
    /// The `}` character.
    RightBrace,
    /// The `,` character.
    Comma,
    /// The `.` character.
    Dot,
    /// The `;` character.
    Semicolon,
    /// The `:` character.
    Colon,
    // Keywords.
    /// The `def` keyword.
    Def,
    /// The `extend` keyword.
    Extend,
    /// The `with` keyword.
    With,
    /// The `if` keyword.
    If,
    /// The `else` keyword.
    Else,
    /// The `for` keyword.
    For,
    /// The `struct` keyword.
    Struct,
    /// Trivia, such as whitespace or comments.
    Trivia,
    /// Illegal character.
    Illegal,
}

/// Placeholder for a structured diagnostic.
///
/// The scanner keeps a diagnostics collector so richer error reporting can be
/// added later without changing the token contract; no scanning path
/// constructs one today.
#[derive(Debug, Clone, PartialEq, Eq, Structural)]
pub struct SyntaxError {
    /// Character offset into the original input at which the problem was seen.
    pub offset: usize,
}

} // verus!
