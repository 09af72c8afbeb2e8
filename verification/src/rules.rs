//! The lexical rules, as specification functions over sequences of characters.
//!
//! `next_token` is the heart of the model: given the characters not yet
//! consumed, it says which kind the next token has and how many characters it
//! covers. The rules are tried in a fixed priority order — whitespace, then a
//! comment, then a two-character operator, then a one-character operator or
//! punctuation, then a keyword or identifier — and an input unit matching none
//! of them is a single `Illegal` character. `spec_tokens` iterates that step
//! to exhaustion and so describes the whole scan of an input.

use vstd::prelude::*;

use crate::token::TokenKind;
use crate::unicode::{white_space, xid_continue, xid_start};

verus! {

/// The fixed table of two-character operators.
pub open spec fn two_char_kind(a: char, b: char) -> Option<TokenKind> {
    if a == '+' && b == '=' {
        Some(TokenKind::PlusEqual)
    } else if a == '-' && b == '=' {
        Some(TokenKind::MinusEqual)
    } else if a == '*' && b == '=' {
        Some(TokenKind::MultiplyEqual)
    } else if a == '/' && b == '=' {
        Some(TokenKind::DivideEqual)
    } else if a == '%' && b == '=' {
        Some(TokenKind::ModuloEqual)
    } else if a == '=' && b == '=' {
        Some(TokenKind::EqualEqual)
    } else if a == '&' && b == '&' {
        Some(TokenKind::AndAnd)
    } else if a == '|' && b == '|' {
        Some(TokenKind::OrOr)
    } else if a == '!' && b == '=' {
        Some(TokenKind::NotEqual)
    } else if a == '<' && b == '=' {
        Some(TokenKind::LessThanEqual)
    } else if a == '>' && b == '=' {
        Some(TokenKind::GreaterThanEqual)
    } else if a == '<' && b == '<' {
        Some(TokenKind::LessThanLessThan)
    } else if a == '>' && b == '>' {
        Some(TokenKind::GreaterThanGreaterThan)
    } else {
        None
    }
}

/// The fixed table of one-character operators and punctuation.
pub open spec fn one_char_kind(c: char) -> Option<TokenKind> {
    if c == '=' {
        Some(TokenKind::Equal)
    } else if c == '+' {
        Some(TokenKind::Plus)
    } else if c == '-' {
        Some(TokenKind::Minus)
    } else if c == '*' {
        Some(TokenKind::Multiply)
    } else if c == '/' {
        Some(TokenKind::Divide)
    } else if c == '%' {
        Some(TokenKind::Modulo)
    } else if c == '&' {
        Some(TokenKind::And)
    } else if c == '|' {
        Some(TokenKind::Or)
    } else if c == '^' {
        Some(TokenKind::Caret)
    } else if c == '!' {
        Some(TokenKind::Not)
    } else if c == '<' {
        Some(TokenKind::LessThan)
    } else if c == '>' {
        Some(TokenKind::GreaterThan)
    } else if c == '(' {
        Some(TokenKind::LeftParenthesis)
    } else if c == ')' {
        Some(TokenKind::RightParenthesis)
    } else if c == '[' {
        Some(TokenKind::LeftBracket)
    } else if c == ']' {
        Some(TokenKind::RightBracket)
    } else if c == '{' {
        Some(TokenKind::LeftBrace)
    } else if c == '}' {
        Some(TokenKind::RightBrace)
    } else if c == ',' {
        Some(TokenKind::Comma)
    } else if c == '.' {
        Some(TokenKind::Dot)
    } else if c == ';' {
        Some(TokenKind::Semicolon)
    } else if c == ':' {
        Some(TokenKind::Colon)
    } else {
        None
    }
}

/// The fixed, case-sensitive keyword table: identifier-shaped text outside it
/// is an `Identifier`.
pub open spec fn keyword_kind(text: Seq<char>) -> TokenKind {
    if text == "def"@ {
        TokenKind::Def
    } else if text == "extend"@ {
        TokenKind::Extend
    } else if text == "with"@ {
        TokenKind::With
    } else if text == "if"@ {
        TokenKind::If
    } else if text == "else"@ {
        TokenKind::Else
    } else if text == "for"@ {
        TokenKind::For
    } else if text == "struct"@ {
        TokenKind::Struct
    } else {
        TokenKind::Identifier
    }
}

/// Length of the maximal run of whitespace characters at the head of `s`.
pub open spec fn whitespace_run_len(s: Seq<char>) -> nat
    decreases s.len(),
{
    if s.len() == 0 || !white_space(s[0]) {
        0
    } else {
        (1 + whitespace_run_len(s.drop_first())) as nat
    }
}

/// Whether `s` begins with the two-character comment marker `//`.
pub open spec fn is_comment_start(s: Seq<char>) -> bool {
    s.len() >= 2 && s[0] == '/' && s[1] == '/'
}

/// Characters up to and including the first newline of `s`, or all of `s` if
/// no newline follows.
pub open spec fn line_len(s: Seq<char>) -> nat
    decreases s.len(),
{
    if s.len() == 0 {
        0
    } else if s[0] == '\n' {
        1
    } else {
        (1 + line_len(s.drop_first())) as nat
    }
}

/// Length of the maximal run of identifier-continue characters at the head of
/// `s`.
pub open spec fn ident_tail_len(s: Seq<char>) -> nat
    decreases s.len(),
{
    if s.len() == 0 || !xid_continue(s[0]) {
        0
    } else {
        (1 + ident_tail_len(s.drop_first())) as nat
    }
}

/// Length of the keyword-or-identifier token at the head of `s`: one
/// identifier-start character extended greedily by identifier-continue
/// characters, or 0 if `s` does not begin with an identifier-start character.
pub open spec fn ident_len(s: Seq<char>) -> nat {
    if s.len() > 0 && xid_start(s[0]) {
        (1 + ident_tail_len(s.drop_first())) as nat
    } else {
        0
    }
}

/// The kind and character length of the next token of a non-empty remaining
/// view `s`, by the fixed rule priority. First match wins; if no rule
/// matches, exactly one character is consumed as `Illegal`.
pub open spec fn next_token(s: Seq<char>) -> (TokenKind, nat) {
    if whitespace_run_len(s) > 0 {
        (TokenKind::Trivia, whitespace_run_len(s))
    } else if is_comment_start(s) {
        (TokenKind::Trivia, line_len(s))
    } else if s.len() >= 2 && two_char_kind(s[0], s[1]) is Some {
        (two_char_kind(s[0], s[1])->0, 2)
    } else if s.len() >= 1 && one_char_kind(s[0]) is Some {
        (one_char_kind(s[0])->0, 1)
    } else if ident_len(s) > 0 {
        (keyword_kind(s.take(ident_len(s) as int)), ident_len(s))
    } else {
        (TokenKind::Illegal, 1)
    }
}

/// The whole token stream of an input: the kind and text of each token, in
/// emission order.
pub open spec fn spec_tokens(s: Seq<char>) -> Seq<(TokenKind, Seq<char>)>
    decreases s.len(),
    via spec_tokens_decreases
{
    if s.len() == 0 {
        Seq::empty()
    } else {
        seq![(next_token(s).0, s.take(next_token(s).1 as int))] + spec_tokens(
            s.skip(next_token(s).1 as int),
        )
    }
}

#[via_fn]
proof fn spec_tokens_decreases(s: Seq<char>) {
    if s.len() > 0 {
        lemma_next_token_bounds(s);
    }
}

/// Concatenation of the texts of a token stream, in order.
pub open spec fn tokens_text(tokens: Seq<(TokenKind, Seq<char>)>) -> Seq<char>
    decreases tokens.len(),
{
    if tokens.len() == 0 {
        Seq::empty()
    } else {
        tokens[0].1 + tokens_text(tokens.drop_first())
    }
}

/// A whitespace run never extends past the end of its view.
pub proof fn lemma_whitespace_run_le(s: Seq<char>)
    ensures
        whitespace_run_len(s) <= s.len(),
    decreases s.len(),
{
    if s.len() > 0 && white_space(s[0]) {
        lemma_whitespace_run_le(s.drop_first());
    }
}

/// A whitespace run is maximal: every character in it is whitespace, and the
/// character after it (if any) is not.
pub proof fn lemma_whitespace_run_maximal(s: Seq<char>)
    ensures
        forall|j: int| 0 <= j < whitespace_run_len(s) ==> white_space(s[j]),
        whitespace_run_len(s) < s.len() ==> !white_space(s[whitespace_run_len(s) as int]),
    decreases s.len(),
{
    lemma_whitespace_run_le(s);
    if s.len() > 0 && white_space(s[0]) {
        lemma_whitespace_run_maximal(s.drop_first());
        assert forall|j: int| 0 <= j < whitespace_run_len(s) implies white_space(s[j]) by {
            if j >= 1 {
                assert(s.drop_first()[j - 1] == s[j]);
            }
        }
    }
}

/// The head of a non-empty view is whitespace exactly when the whitespace run
/// is non-empty; together with the run's end condition this pins the run
/// length of any prefix observed character by character.
pub proof fn lemma_whitespace_run_from_scan(s: Seq<char>, i: int)
    requires
        0 <= i <= s.len(),
        forall|j: int| 0 <= j < i ==> white_space(s[j]),
        i == s.len() || !white_space(s[i]),
    ensures
        whitespace_run_len(s) == i,
    decreases i,
{
    if i == 0 {
    } else {
        assert(white_space(s[0]));
        assert(forall|j: int| 0 <= j < i - 1 ==> s.drop_first()[j] == s[j + 1]);
        lemma_whitespace_run_from_scan(s.drop_first(), i - 1);
    }
}

/// A comment token covers at least the `//` marker and never extends past the
/// end of its view.
pub proof fn lemma_line_len_bounds(s: Seq<char>)
    ensures
        s.len() > 0 ==> 1 <= line_len(s) <= s.len(),
        s.len() == 0 ==> line_len(s) == 0,
    decreases s.len(),
{
    if s.len() > 0 && s[0] != '\n' {
        lemma_line_len_bounds(s.drop_first());
    }
}

/// The line length observed by scanning for the first newline: `i` is the
/// index of the first newline, or the view's length if there is none.
pub proof fn lemma_line_len_from_scan(s: Seq<char>, i: int)
    requires
        0 <= i <= s.len(),
        forall|j: int| 0 <= j < i ==> s[j] != '\n',
        i == s.len() || s[i] == '\n',
    ensures
        i < s.len() ==> line_len(s) == i + 1,
        i == s.len() ==> line_len(s) == s.len(),
    decreases i,
{
    if i == 0 {
    } else {
        assert(s[0] != '\n');
        assert(forall|j: int| 0 <= j < i - 1 ==> s.drop_first()[j] == s[j + 1]);
        lemma_line_len_from_scan(s.drop_first(), i - 1);
    }
}

/// An identifier tail never extends past the end of its view.
pub proof fn lemma_ident_tail_le(s: Seq<char>)
    ensures
        ident_tail_len(s) <= s.len(),
    decreases s.len(),
{
    if s.len() > 0 && xid_continue(s[0]) {
        lemma_ident_tail_le(s.drop_first());
    }
}

/// An identifier tail is maximal: every character in it continues an
/// identifier, and the character after it (if any) does not.
pub proof fn lemma_ident_tail_maximal(s: Seq<char>)
    ensures
        forall|j: int| 0 <= j < ident_tail_len(s) ==> xid_continue(s[j]),
        ident_tail_len(s) < s.len() ==> !xid_continue(s[ident_tail_len(s) as int]),
    decreases s.len(),
{
    lemma_ident_tail_le(s);
    if s.len() > 0 && xid_continue(s[0]) {
        lemma_ident_tail_maximal(s.drop_first());
        assert forall|j: int| 0 <= j < ident_tail_len(s) implies xid_continue(s[j]) by {
            if j >= 1 {
                assert(s.drop_first()[j - 1] == s[j]);
            }
        }
    }
}

/// The identifier tail length observed by scanning: `i` counts the
/// identifier-continue characters seen before the first that is not.
pub proof fn lemma_ident_tail_from_scan(s: Seq<char>, i: int)
    requires
        0 <= i <= s.len(),
        forall|j: int| 0 <= j < i ==> xid_continue(s[j]),
        i == s.len() || !xid_continue(s[i]),
    ensures
        ident_tail_len(s) == i,
    decreases i,
{
    if i == 0 {
    } else {
        assert(xid_continue(s[0]));
        assert(forall|j: int| 0 <= j < i - 1 ==> s.drop_first()[j] == s[j + 1]);
        lemma_ident_tail_from_scan(s.drop_first(), i - 1);
    }
}

/// Every production makes progress and stays within the remaining view: the
/// next token of a non-empty view covers between 1 and all of its characters.
pub proof fn lemma_next_token_bounds(s: Seq<char>)
    requires
        s.len() > 0,
    ensures
        1 <= next_token(s).1 <= s.len(),
{
    lemma_whitespace_run_le(s);
    lemma_line_len_bounds(s);
    lemma_ident_tail_le(s.drop_first());
}

/// Splitting a view at any in-range point loses nothing: the two parts
/// concatenate back to the whole.
pub proof fn lemma_take_skip(s: Seq<char>, l: int)
    requires
        0 <= l <= s.len(),
    ensures
        s.take(l) + s.skip(l) == s,
{
    assert(s.take(l) + s.skip(l) =~= s);
}

/// Concatenating the texts of the whole token stream of `s` reproduces `s`
/// exactly: no character is skipped, duplicated or reordered.
pub proof fn lemma_spec_tokens_lossless(s: Seq<char>)
    ensures
        tokens_text(spec_tokens(s)) == s,
    decreases s.len(),
{
    if s.len() == 0 {
        assert(tokens_text(spec_tokens(s)) =~= s);
    } else {
        lemma_next_token_bounds(s);
        let l = next_token(s).1 as int;
        lemma_spec_tokens_lossless(s.skip(l));
        assert(spec_tokens(s).drop_first() =~= spec_tokens(s.skip(l)));
        assert(tokens_text(spec_tokens(s)) =~= s.take(l) + tokens_text(spec_tokens(s.skip(l))));
        assert(s.take(l) + s.skip(l) =~= s);
    }
}

/// A scan of `s` produces at most one token per character: every token covers
/// at least one, and none is empty.
pub proof fn lemma_spec_tokens_progress(s: Seq<char>)
    ensures
        spec_tokens(s).len() <= s.len(),
        forall|i: int| 0 <= i < spec_tokens(s).len() ==> #[trigger] spec_tokens(s)[i].1.len() >= 1,
    decreases s.len(),
{
    if s.len() > 0 {
        lemma_next_token_bounds(s);
        let l = next_token(s).1 as int;
        lemma_spec_tokens_progress(s.skip(l));
        assert(spec_tokens(s)[0].1 == s.take(l));
        assert(forall|i: int|
            1 <= i < spec_tokens(s).len() ==> spec_tokens(s)[i] == spec_tokens(s.skip(l))[i - 1]);
    }
}

} // verus!
