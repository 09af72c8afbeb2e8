//! Scanner-wide properties, stated and proved over the lexical rules.
//!
//! Each law speaks about `spec_tokens`, the mathematical description of a
//! whole scan; `tokenize` and `Lexer::consume_token` are proved to produce
//! exactly that stream, so every law carries over to the executable scanner.

use vstd::prelude::*;

use crate::rules::{
    ident_len, is_comment_start, keyword_kind, lemma_ident_tail_maximal, lemma_next_token_bounds,
    lemma_spec_tokens_lossless, lemma_spec_tokens_progress, lemma_whitespace_run_le,
    lemma_whitespace_run_maximal, line_len, next_token, one_char_kind, spec_tokens, tokens_text,
    two_char_kind, whitespace_run_len,
};
use crate::token::TokenKind;
use crate::unicode::{white_space, xid_continue, xid_start};

verus! {

/// Losslessness: for every input, concatenating the text of every token the
/// scan produces, in emission order, reconstructs the input exactly.
pub proof fn lemma_scan_lossless(s: Seq<char>)
    ensures
        tokens_text(spec_tokens(s)) == s,
{
    lemma_spec_tokens_lossless(s);
}

/// Progress and termination: a non-empty remaining view always yields a token
/// of at least one character, so a scan of an input of length `n` produces at
/// most `n` tokens, none of them empty.
pub proof fn lemma_scan_progress(s: Seq<char>)
    ensures
        s.len() > 0 ==> 1 <= next_token(s).1 <= s.len(),
        spec_tokens(s).len() <= s.len(),
        forall|i: int| 0 <= i < spec_tokens(s).len() ==> #[trigger] spec_tokens(s)[i].1.len() >= 1,
{
    if s.len() > 0 {
        lemma_next_token_bounds(s);
    }
    lemma_spec_tokens_progress(s);
}

/// Determinism: the token stream is a function of the input characters alone,
/// so scanning the same input twice, independently, yields identical token
/// sequences — kind and text — in the same order.
pub proof fn lemma_scan_deterministic(s1: Seq<char>, s2: Seq<char>)
    requires
        s1 == s2,
    ensures
        spec_tokens(s1) == spec_tokens(s2),
{
}

/// Trivia separation: whitespace immediately followed by a comment produces
/// two trivia tokens — the whitespace run, then the comment — never one
/// merged token.
pub proof fn lemma_trivia_separation(s: Seq<char>)
    requires
        whitespace_run_len(s) > 0,
        is_comment_start(s.skip(whitespace_run_len(s) as int)),
    ensures
        spec_tokens(s).len() >= 2,
        spec_tokens(s)[0] == (TokenKind::Trivia, s.take(whitespace_run_len(s) as int)),
        spec_tokens(s)[1] == (
            TokenKind::Trivia,
            s.skip(whitespace_run_len(s) as int).take(
                line_len(s.skip(whitespace_run_len(s) as int)) as int,
            ),
        ),
{
    let w = whitespace_run_len(s) as int;
    lemma_whitespace_run_le(s);
    lemma_whitespace_run_maximal(s);
    let rest = s.skip(w);
    assert(rest.len() >= 2);
    assert(rest[0] == s[w]);
    assert(!white_space(rest[0]));
    assert(whitespace_run_len(rest) == 0);
    lemma_next_token_bounds(s);
    assert(next_token(s) == (TokenKind::Trivia, whitespace_run_len(s)));
    assert(spec_tokens(s) == seq![(TokenKind::Trivia, s.take(w))] + spec_tokens(rest));
    assert(next_token(rest) == (TokenKind::Trivia, line_len(rest)));
    lemma_next_token_bounds(rest);
    assert(spec_tokens(rest)[0] == (TokenKind::Trivia, rest.take(line_len(rest) as int)));
    assert(spec_tokens(s)[1] == spec_tokens(rest)[0]);
}

/// Priority correctness: when the head of the view matches a two-character
/// operator, one token covering both characters is produced, never two
/// one-character tokens.
pub proof fn lemma_two_char_priority(s: Seq<char>)
    requires
        s.len() >= 2,
        !white_space(s[0]),
        !is_comment_start(s),
        two_char_kind(s[0], s[1]) is Some,
    ensures
        spec_tokens(s).len() >= 1,
        spec_tokens(s)[0] == (two_char_kind(s[0], s[1])->0, s.take(2)),
{
    assert(whitespace_run_len(s) == 0);
    assert(next_token(s) == (two_char_kind(s[0], s[1])->0, 2nat));
    lemma_next_token_bounds(s);
    assert(spec_tokens(s)[0] == (two_char_kind(s[0], s[1])->0, s.take(2)));
}

/// Keyword and identifier boundary: an identifier-led view yields one token
/// that extends greedily over every identifier-continue character — it is
/// never cut short at a keyword — and only its full text, by exact match,
/// decides between a keyword kind and `Identifier`.
pub proof fn lemma_keyword_identifier_boundary(s: Seq<char>)
    requires
        s.len() > 0,
        !white_space(s[0]),
        !is_comment_start(s),
        s.len() >= 2 ==> two_char_kind(s[0], s[1]) is None,
        one_char_kind(s[0]) is None,
        xid_start(s[0]),
    ensures
        spec_tokens(s).len() >= 1,
        1 <= ident_len(s) <= s.len(),
        spec_tokens(s)[0] == (
            keyword_kind(s.take(ident_len(s) as int)),
            s.take(ident_len(s) as int),
        ),
        ident_len(s) < s.len() ==> !xid_continue(s[ident_len(s) as int]),
{
    assert(whitespace_run_len(s) == 0);
    assert(ident_len(s) > 0);
    lemma_next_token_bounds(s);
    assert(next_token(s) == (keyword_kind(s.take(ident_len(s) as int)), ident_len(s)));
    lemma_ident_tail_maximal(s.drop_first());
    if ident_len(s) < s.len() {
        assert(s.drop_first()[ident_len(s) - 1] == s[ident_len(s) as int]);
    }
}

} // verus!
