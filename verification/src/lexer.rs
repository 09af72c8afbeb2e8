//! The scanner: a cursor over borrowed source text that produces one token
//! per call.

use vstd::prelude::*;
use vstd::string::StrSliceExecFns;

use crate::rules::{
    ident_len, is_comment_start, keyword_kind, line_len, next_token, one_char_kind, spec_tokens,
    tokens_text, two_char_kind, whitespace_run_len,
};
use crate::token::{SyntaxError, Token, TokenKind};
use crate::unicode::{is_identifier_continue, is_identifier_start, is_whitespace_char, xid_continue};

verus! {

/// A single-pass scanner over one borrowed input buffer.
///
/// The scanner holds the original input and a shrinking view of what has not
/// been consumed yet; each successful production removes a non-empty prefix
/// of the remaining view and returns it as a token. Once the remaining view
/// is empty the scanner is permanently exhausted.
pub struct Lexer<'source> {
    /// Original, unmodified source code.
    original_source_code: &'source str,
    /// Source code that has yet to be lexed. After some code has been lexed,
    /// this is sliced to no longer include that code.
    source_code: &'source str,
    /// Diagnostics collector, reserved for structured error reporting; no
    /// production path populates it.
    errors: Vec<SyntaxError>,
}

impl<'source> Lexer<'source> {
    /// The characters of the original input.
    pub closed spec fn source(self) -> Seq<char> {
        self.original_source_code@
    }

    /// The characters not yet consumed.
    pub closed spec fn remaining(self) -> Seq<char> {
        self.source_code@
    }

    /// The diagnostics recorded so far.
    pub closed spec fn diagnostics(self) -> Seq<SyntaxError> {
        self.errors@
    }

    /// The remaining view is always the not-yet-consumed suffix of the
    /// original input.
    pub open spec fn wf(self) -> bool {
        &&& self.remaining().len() <= self.source().len()
        &&& self.remaining() == self.source().skip(
            self.source().len() - self.remaining().len(),
        )
    }

    /// Constructs a scanner whose remaining view is the whole input and whose
    /// diagnostics collector is empty.
    pub fn new(source_code: &'source str) -> (lexer: Self)
        ensures
            lexer.wf(),
            lexer.source() == source_code@,
            lexer.remaining() == source_code@,
            lexer.diagnostics() == Seq::<SyntaxError>::empty(),
    {
        let lexer = Self { original_source_code: source_code, source_code, errors: Vec::new() };
        proof {
            assert(lexer.remaining() =~= lexer.source().skip(0));
        }
        lexer
    }

    /// Consumes the maximal run of leading whitespace, if any, as one
    /// `Trivia` token.
    pub fn consume_whitespace(&mut self) -> (token: Option<Token<'source>>)
        requires
            old(self).wf(),
        ensures
            final(self).wf(),
            final(self).source() == old(self).source(),
            final(self).diagnostics() == old(self).diagnostics(),
            whitespace_run_len(old(self).remaining()) == 0 ==> token is None && final(self)
                .remaining() == old(self).remaining(),
            whitespace_run_len(old(self).remaining()) > 0 ==> ({
                let run = whitespace_run_len(old(self).remaining()) as int;
                token matches Some(t) && t.kind == TokenKind::Trivia && t.text@ == old(self).remaining().take(run) && final(self).remaining() == old(self).remaining().skip(
                    run,
                )
            }),
    {
        let ghost r = self.source_code@;
        let n = self.source_code.unicode_len();
        let mut i: usize = 0;
        while i < n && is_whitespace_char(self.source_code.get_char(i))
            invariant
                n == r.len(),
                0 <= i <= n,
                self.source_code@ == r,
                forall|j: int| 0 <= j < i ==> crate::unicode::white_space(r[j]),
            decreases n - i,
        {
            i = i + 1;
        }
        proof {
            crate::rules::lemma_whitespace_run_from_scan(r, i as int);
        }
        if i > 0 {
            let token_text = self.source_code.substring_char(0, i);
            self.source_code = self.source_code.substring_char(i, n);
            proof {
                lemma_suffix_of_suffix(self.source(), r, self.source_code@);
            }
            Some(Token { kind: TokenKind::Trivia, text: token_text })
        } else {
            None
        }
    }

    /// Consumes a comment, including its terminating newline, as one `Trivia`
    /// token. A comment starts with `//` and spans to and including the next
    /// newline, or to the end of the input if no newline follows.
    pub fn consume_comment(&mut self) -> (token: Option<Token<'source>>)
        requires
            old(self).wf(),
        ensures
            final(self).wf(),
            final(self).source() == old(self).source(),
            final(self).diagnostics() == old(self).diagnostics(),
            !is_comment_start(old(self).remaining()) ==> token is None && final(self).remaining()
                == old(self).remaining(),
            is_comment_start(old(self).remaining()) ==> ({
                let width = line_len(old(self).remaining()) as int;
                token matches Some(t) && t.kind == TokenKind::Trivia && t.text@ == old(self).remaining().take(width) && final(self).remaining() == old(self).remaining().skip(
                    width,
                )
            }),
    {
        let ghost r = self.source_code@;
        let n = self.source_code.unicode_len();
        if n < 2 {
            return None;
        }
        if self.source_code.get_char(0) != '/' || self.source_code.get_char(1) != '/' {
            return None;
        }
        let mut i: usize = 0;
        while i < n && self.source_code.get_char(i) != '\n'
            invariant
                n == r.len(),
                0 <= i <= n,
                self.source_code@ == r,
                forall|j: int| 0 <= j < i ==> r[j] != '\n',
            decreases n - i,
        {
            i = i + 1;
        }
        proof {
            crate::rules::lemma_line_len_from_scan(r, i as int);
        }
        let comment_width = if i < n {
            i + 1
        } else {
            n
        };
        let token_text = self.source_code.substring_char(0, comment_width);
        self.source_code = self.source_code.substring_char(comment_width, n);
        proof {
            lemma_suffix_of_suffix(self.source(), r, self.source_code@);
        }
        Some(Token { kind: TokenKind::Trivia, text: token_text })
    }

    /// Consumes the next trivia token, if any: a run of whitespace, or — only
    /// when no whitespace leads — a comment. One trivia token is never a mix
    /// of the two.
    pub fn consume_trivia(&mut self) -> (token: Option<Token<'source>>)
        requires
            old(self).wf(),
        ensures
            final(self).wf(),
            final(self).source() == old(self).source(),
            final(self).diagnostics() == old(self).diagnostics(),
            whitespace_run_len(old(self).remaining()) == 0 && !is_comment_start(
                old(self).remaining(),
            ) ==> token is None && final(self).remaining() == old(self).remaining(),
            whitespace_run_len(old(self).remaining()) > 0 ==> ({
                let run = whitespace_run_len(old(self).remaining()) as int;
                token matches Some(t) && t.kind == TokenKind::Trivia && t.text@ == old(self).remaining().take(run) && final(self).remaining() == old(self).remaining().skip(
                    run,
                )
            }),
            whitespace_run_len(old(self).remaining()) == 0 && is_comment_start(
                old(self).remaining(),
            ) ==> ({
                let width = line_len(old(self).remaining()) as int;
                token matches Some(t) && t.kind == TokenKind::Trivia && t.text@ == old(self).remaining().take(width) && final(self).remaining() == old(self).remaining().skip(
                    width,
                )
            }),
    {
        let whitespace = self.consume_whitespace();
        if whitespace.is_some() {
            return whitespace;
        }
        let comment = self.consume_comment();
        if comment.is_some() {
            return comment;
        }
        None
    }

    /// Consumes the next two-character operator token, if the two characters
    /// at the head of the remaining view form one, such as `&&` or `+=`.
    pub fn consume_two_chars_token(
        &mut self,
        current_char: char,
        next_char: char,
    ) -> (token: Option<Token<'source>>)
        requires
            old(self).wf(),
            old(self).remaining().len() >= 2,
            current_char == old(self).remaining()[0],
            next_char == old(self).remaining()[1],
        ensures
            final(self).wf(),
            final(self).source() == old(self).source(),
            final(self).diagnostics() == old(self).diagnostics(),
            two_char_kind(current_char, next_char) is None ==> token is None && final(self).remaining() == old(self).remaining(),
            two_char_kind(current_char, next_char) matches Some(k) ==> token matches Some(t)
                && t.kind == k && t.text@ == old(self).remaining().take(2) && final(self).remaining() == old(self).remaining().skip(2),
    {
        let kind = two_char_token_kind(current_char, next_char);
        match kind {
            Some(token_kind) => {
                let ghost r = self.source_code@;
                let n = self.source_code.unicode_len();
                let text = self.source_code.substring_char(0, 2);
                self.source_code = self.source_code.substring_char(2, n);
                proof {
                    lemma_suffix_of_suffix(self.source(), r, self.source_code@);
                }
                Some(Token { kind: token_kind, text })
            },
            None => None,
        }
    }

    /// Consumes the next one-character operator or punctuation token, if the
    /// character at the head of the remaining view is one, such as `+` or `|`.
    pub fn consume_one_char_token(&mut self, current_char: char) -> (token: Option<
        Token<'source>,
    >)
        requires
            old(self).wf(),
            old(self).remaining().len() >= 1,
            current_char == old(self).remaining()[0],
        ensures
            final(self).wf(),
            final(self).source() == old(self).source(),
            final(self).diagnostics() == old(self).diagnostics(),
            one_char_kind(current_char) is None ==> token is None && final(self).remaining() == old(self).remaining(),
            one_char_kind(current_char) matches Some(k) ==> token matches Some(t) && t.kind == k
                && t.text@ == old(self).remaining().take(1) && final(self).remaining() == old(self).remaining().skip(1),
    {
        let kind = one_char_token_kind(current_char);
        match kind {
            Some(token_kind) => {
                let ghost r = self.source_code@;
                let n = self.source_code.unicode_len();
                let text = self.source_code.substring_char(0, 1);
                self.source_code = self.source_code.substring_char(1, n);
                proof {
                    lemma_suffix_of_suffix(self.source(), r, self.source_code@);
                }
                Some(Token { kind: token_kind, text })
            },
            None => None,
        }
    }

    /// Consumes the next keyword or identifier token, if the remaining view
    /// begins with an identifier-start character: the token extends greedily
    /// over identifier-continue characters, and its text decides between the
    /// specific keyword kind and `Identifier` by exact, case-sensitive match.
    pub fn consume_keyword_or_identifier_token(&mut self) -> (token: Option<Token<'source>>)
        requires
            old(self).wf(),
        ensures
            final(self).wf(),
            final(self).source() == old(self).source(),
            final(self).diagnostics() == old(self).diagnostics(),
            ident_len(old(self).remaining()) == 0 ==> token is None && final(self).remaining()
                == old(self).remaining(),
            ident_len(old(self).remaining()) > 0 ==> ({
                let width = ident_len(old(self).remaining()) as int;
                token matches Some(t) && t.kind == keyword_kind(old(self).remaining().take(width))
                    && t.text@ == old(self).remaining().take(width) && final(self).remaining()
                    == old(self).remaining().skip(width)
            }),
    {
        let ghost r = self.source_code@;
        let n = self.source_code.unicode_len();
        if n == 0 {
            return None;
        }
        let first_char = self.source_code.get_char(0);
        if !is_identifier_start(first_char) {
            return None;
        }
        let mut i: usize = 1;
        while i < n && is_identifier_continue(self.source_code.get_char(i))
            invariant
                n == r.len(),
                1 <= i <= n,
                self.source_code@ == r,
                forall|j: int| 1 <= j < i ==> xid_continue(r[j]),
            decreases n - i,
        {
            i = i + 1;
        }
        proof {
            assert forall|j: int| 0 <= j < i - 1 implies xid_continue(r.drop_first()[j]) by {
                assert(r.drop_first()[j] == r[j + 1]);
            }
            if i < n {
                assert(r.drop_first()[i - 1] == r[i as int]);
            }
            crate::rules::lemma_ident_tail_from_scan(r.drop_first(), i - 1);
        }
        let token_text = self.source_code.substring_char(0, i);
        self.source_code = self.source_code.substring_char(i, n);
        proof {
            lemma_suffix_of_suffix(self.source(), r, self.source_code@);
        }
        let token_kind = keyword_or_identifier_kind(token_text);
        Some(Token { kind: token_kind, text: token_text })
    }

    /// Produces the next token of the remaining view, or reports exhaustion.
    ///
    /// The rules are tried in fixed priority order — trivia, two-character
    /// operators, one-character operators and punctuation, keywords and
    /// identifiers — and when none matches, exactly one character is consumed
    /// as `Illegal`, so scanning never stalls and never fails. Every produced
    /// token is the non-empty prefix that was consumed: the old remaining
    /// view is exactly the token text followed by the new remaining view.
    pub fn consume_token(&mut self) -> (token: Option<Token<'source>>)
        requires
            old(self).wf(),
        ensures
            final(self).wf(),
            final(self).source() == old(self).source(),
            final(self).diagnostics() == old(self).diagnostics(),
            old(self).remaining().len() == 0 ==> token is None && final(self).remaining() == old(self).remaining(),
            old(self).remaining().len() > 0 ==> ({
                let step = next_token(old(self).remaining());
                token matches Some(t) && t.kind == step.0 && t.text@ == old(self).remaining().take(step.1 as int) && t.text@.len() >= 1 && final(self).remaining()
                    == old(self).remaining().skip(step.1 as int) && t.text@ + final(self).remaining() == old(self).remaining()
            }),
    {
        let ghost r = self.source_code@;
        if self.source_code.unicode_len() == 0 {
            return None;
        }
        let mut result: Option<Token<'source>> = self.consume_trivia();
        if result.is_none() {
            let n = self.source_code.unicode_len();
            let current_char = self.source_code.get_char(0);
            if n >= 2 {
                let next_char = self.source_code.get_char(1);
                result = self.consume_two_chars_token(current_char, next_char);
            }
            if result.is_none() {
                result = self.consume_one_char_token(current_char);
            }
            if result.is_none() {
                result = self.consume_keyword_or_identifier_token();
            }
            if result.is_none() {
                // No rule matched: the character is illegal, and consuming
                // exactly it keeps the scan moving.
                let token_text = self.source_code.substring_char(0, 1);
                self.source_code = self.source_code.substring_char(1, n);
                proof {
                    lemma_suffix_of_suffix(self.source(), r, self.source_code@);
                }
                result = Some(Token { kind: TokenKind::Illegal, text: token_text });
            }
        }
        proof {
            crate::rules::lemma_next_token_bounds(r);
            crate::rules::lemma_take_skip(r, next_token(r).1 as int);
        }
        result
    }
}

/// The two-character operator table as an executable match.
fn two_char_token_kind(current_char: char, next_char: char) -> (kind: Option<TokenKind>)
    ensures
        kind == two_char_kind(current_char, next_char),
{
    match (current_char, next_char) {
        ('+', '=') => Some(TokenKind::PlusEqual),
        ('-', '=') => Some(TokenKind::MinusEqual),
        ('*', '=') => Some(TokenKind::MultiplyEqual),
        ('/', '=') => Some(TokenKind::DivideEqual),
        ('%', '=') => Some(TokenKind::ModuloEqual),
        ('=', '=') => Some(TokenKind::EqualEqual),
        ('&', '&') => Some(TokenKind::AndAnd),
        ('|', '|') => Some(TokenKind::OrOr),
        ('!', '=') => Some(TokenKind::NotEqual),
        ('<', '=') => Some(TokenKind::LessThanEqual),
        ('>', '=') => Some(TokenKind::GreaterThanEqual),
        ('<', '<') => Some(TokenKind::LessThanLessThan),
        ('>', '>') => Some(TokenKind::GreaterThanGreaterThan),
        (_, _) => None,
    }
}

/// The one-character operator and punctuation table as an executable match.
fn one_char_token_kind(current_char: char) -> (kind: Option<TokenKind>)
    ensures
        kind == one_char_kind(current_char),
{
    match current_char {
        '=' => Some(TokenKind::Equal),
        '+' => Some(TokenKind::Plus),
        '-' => Some(TokenKind::Minus),
        '*' => Some(TokenKind::Multiply),
        '/' => Some(TokenKind::Divide),
        '%' => Some(TokenKind::Modulo),
        '&' => Some(TokenKind::And),
        '|' => Some(TokenKind::Or),
        '^' => Some(TokenKind::Caret),
        '!' => Some(TokenKind::Not),
        '<' => Some(TokenKind::LessThan),
        '>' => Some(TokenKind::GreaterThan),
        '(' => Some(TokenKind::LeftParenthesis),
        ')' => Some(TokenKind::RightParenthesis),
        '[' => Some(TokenKind::LeftBracket),
        ']' => Some(TokenKind::RightBracket),
        '{' => Some(TokenKind::LeftBrace),
        '}' => Some(TokenKind::RightBrace),
        ',' => Some(TokenKind::Comma),
        '.' => Some(TokenKind::Dot),
        ';' => Some(TokenKind::Semicolon),
        ':' => Some(TokenKind::Colon),
        _ => None,
    }
}

/// Compares two pieces of text character by character.
fn str_chars_equal(a: &str, b: &str) -> (r: bool)
    ensures
        r == (a@ == b@),
{
    let a_len = a.unicode_len();
    let b_len = b.unicode_len();
    if a_len != b_len {
        return false;
    }
    let mut i: usize = 0;
    while i < a_len
        invariant
            a_len == a@.len(),
            b_len == b@.len(),
            a_len == b_len,
            0 <= i <= a_len,
            forall|j: int| 0 <= j < i ==> a@[j] == b@[j],
        decreases a_len - i,
    {
        if a.get_char(i) != b.get_char(i) {
            return false;
        }
        i = i + 1;
    }
    proof {
        assert(a@ =~= b@);
    }
    true
}

/// Looks identifier-shaped text up in the fixed, case-sensitive keyword
/// table; text outside it is an `Identifier`.
fn keyword_or_identifier_kind(text: &str) -> (kind: TokenKind)
    ensures
        kind == keyword_kind(text@),
{
    if str_chars_equal(text, "def") {
        TokenKind::Def
    } else if str_chars_equal(text, "extend") {
        TokenKind::Extend
    } else if str_chars_equal(text, "with") {
        TokenKind::With
    } else if str_chars_equal(text, "if") {
        TokenKind::If
    } else if str_chars_equal(text, "else") {
        TokenKind::Else
    } else if str_chars_equal(text, "for") {
        TokenKind::For
    } else if str_chars_equal(text, "struct") {
        TokenKind::Struct
    } else {
        TokenKind::Identifier
    }
}

/// The kind and text of each token of a stream, as mathematical values.
pub open spec fn token_views<'source>(tokens: Seq<Token<'source>>) -> Seq<(TokenKind, Seq<char>)> {
    tokens.map_values(|t: Token<'source>| (t.kind, t.text@))
}

/// Scans all of `source_code`, one production per token, to exhaustion.
///
/// The result is exactly the token stream that the lexical rules describe:
/// concatenating the text of every token, in order, reconstructs the input,
/// and no input yields more tokens than it has characters.
pub fn tokenize<'source>(source_code: &'source str) -> (tokens: Vec<Token<'source>>)
    ensures
        token_views(tokens@) == spec_tokens(source_code@),
        tokens_text(token_views(tokens@)) == source_code@,
        tokens@.len() <= source_code@.len(),
{
    let mut lexer = Lexer::new(source_code);
    let mut tokens: Vec<Token<'source>> = Vec::new();
    let mut remaining_chars = source_code.unicode_len();
    proof {
        assert(token_views(tokens@) + spec_tokens(source_code@) =~= spec_tokens(source_code@));
    }
    while remaining_chars > 0
        invariant
            lexer.wf(),
            lexer.source() == source_code@,
            remaining_chars == lexer.remaining().len(),
            spec_tokens(source_code@) == token_views(tokens@) + spec_tokens(lexer.remaining()),
            tokens@.len() + lexer.remaining().len() <= source_code@.len(),
        decreases remaining_chars,
    {
        let ghost r = lexer.remaining();
        let ghost prev_tokens = tokens@;
        let token_opt = lexer.consume_token();
        match token_opt {
            Some(token) => {
                let ghost token_kind = token.kind;
                let ghost token_text = token.text@;
                proof {
                    crate::rules::lemma_next_token_bounds(r);
                }
                let text_len = token.text.unicode_len();
                remaining_chars = remaining_chars - text_len;
                tokens.push(token);
                proof {
                    assert(token_views(tokens@) =~= token_views(prev_tokens) + seq![
                        (token_kind, token_text),
                    ]);
                    assert(spec_tokens(r) == seq![(token_kind, token_text)] + spec_tokens(
                        lexer.remaining(),
                    ));
                    assert(token_views(prev_tokens) + spec_tokens(r) =~= token_views(tokens@)
                        + spec_tokens(lexer.remaining()));
                }
            },
            None => {
                proof {
                    assert(false);
                }
            },
        }
    }
    proof {
        assert(spec_tokens(lexer.remaining()) =~= Seq::<(TokenKind, Seq<char>)>::empty());
        assert(token_views(tokens@) =~= spec_tokens(source_code@));
        crate::rules::lemma_spec_tokens_lossless(source_code@);
        crate::rules::lemma_spec_tokens_progress(source_code@);
    }
    tokens
}

/// A suffix of a suffix of the input is itself a suffix of the input.
proof fn lemma_suffix_of_suffix(source: Seq<char>, mid: Seq<char>, rest: Seq<char>)
    requires
        mid.len() <= source.len(),
        mid == source.skip(source.len() - mid.len()),
        rest.len() <= mid.len(),
        rest == mid.skip(mid.len() - rest.len()),
    ensures
        rest == source.skip(source.len() - rest.len()),
{
    assert(rest =~= source.skip(source.len() - rest.len()));
}

} // verus!
