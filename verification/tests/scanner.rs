use kora_lexer::tokenize;
use kora_lexer::Lexer;
use kora_lexer::Token;
use kora_lexer::TokenKind;

fn kinds(tokens: &[Token]) -> Vec<TokenKind> {
    tokens.iter().map(|t| t.kind).collect()
}

fn texts<'a>(tokens: &[Token<'a>]) -> Vec<&'a str> {
    tokens.iter().map(|t| t.text).collect()
}

fn collect_by_hand<'a>(lexer: &mut Lexer<'a>) -> Vec<Token<'a>> {
    let mut tokens = Vec::new();
    while let Some(token) = lexer.consume_token() {
        tokens.push(token);
    }
    tokens
}

#[test]
fn scenario_identifier_plus_identifier() {
    let tokens = tokenize("a+b");
    assert_eq!(
        kinds(&tokens),
        vec![TokenKind::Identifier, TokenKind::Plus, TokenKind::Identifier]
    );
    assert_eq!(texts(&tokens), vec!["a", "+", "b"]);
}

#[test]
fn scenario_compound_assignment_line() {
    // Digit-led literal recognition is not part of the rule set, and a digit
    // may not start an identifier, so `1` falls through to Illegal.
    let tokens = tokenize("x += 1");
    assert_eq!(
        kinds(&tokens),
        vec![
            TokenKind::Identifier,
            TokenKind::Trivia,
            TokenKind::PlusEqual,
            TokenKind::Trivia,
            TokenKind::Illegal,
        ]
    );
    assert_eq!(texts(&tokens), vec!["x", " ", "+=", " ", "1"]);
}

#[test]
fn scenario_comment_line() {
    let tokens = tokenize("// hi\n");
    assert_eq!(kinds(&tokens), vec![TokenKind::Trivia]);
    assert_eq!(texts(&tokens), vec!["// hi\n"]);
}

#[test]
fn scenario_if_block() {
    let tokens = tokenize("if a { }");
    assert_eq!(
        kinds(&tokens),
        vec![
            TokenKind::If,
            TokenKind::Trivia,
            TokenKind::Identifier,
            TokenKind::Trivia,
            TokenKind::LeftBrace,
            TokenKind::Trivia,
            TokenKind::RightBrace,
        ]
    );
    assert_eq!(texts(&tokens), vec!["if", " ", "a", " ", "{", " ", "}"]);
}

#[test]
fn scenario_stray_character_resumes() {
    let tokens = tokenize("a@b");
    assert_eq!(
        kinds(&tokens),
        vec![TokenKind::Identifier, TokenKind::Illegal, TokenKind::Identifier]
    );
    assert_eq!(texts(&tokens), vec!["a", "@", "b"]);
    assert_eq!(tokens[1].text.len(), 1);
}

#[test]
fn priority_and_and_is_one_token() {
    let tokens = tokenize("&&");
    assert_eq!(kinds(&tokens), vec![TokenKind::AndAnd]);
    assert_eq!(texts(&tokens), vec!["&&"]);
}

#[test]
fn priority_three_ampersands() {
    let tokens = tokenize("&&&");
    assert_eq!(kinds(&tokens), vec![TokenKind::AndAnd, TokenKind::And]);
    assert_eq!(texts(&tokens), vec!["&&", "&"]);
}

#[test]
fn priority_plus_equal_is_one_token() {
    let tokens = tokenize("+=");
    assert_eq!(kinds(&tokens), vec![TokenKind::PlusEqual]);
    assert_eq!(texts(&tokens), vec!["+="]);
}

#[test]
fn priority_plus_then_equal_when_separated() {
    let tokens = tokenize("+ =");
    assert_eq!(
        kinds(&tokens),
        vec![TokenKind::Plus, TokenKind::Trivia, TokenKind::Equal]
    );
}

#[test]
fn keyword_identifier_boundary() {
    let tokens = tokenize("ifx");
    assert_eq!(kinds(&tokens), vec![TokenKind::Identifier]);
    assert_eq!(texts(&tokens), vec!["ifx"]);
}

#[test]
fn keywords_each() {
    let tokens = tokenize("def extend with if else for struct");
    let non_trivia: Vec<&Token> = tokens.iter().filter(|t| t.kind != TokenKind::Trivia).collect();
    let keyword_kinds: Vec<TokenKind> = non_trivia.iter().map(|t| t.kind).collect();
    assert_eq!(
        keyword_kinds,
        vec![
            TokenKind::Def,
            TokenKind::Extend,
            TokenKind::With,
            TokenKind::If,
            TokenKind::Else,
            TokenKind::For,
            TokenKind::Struct,
        ]
    );
}

#[test]
fn keywords_are_case_sensitive() {
    let tokens = tokenize("If DEF Struct");
    for token in &tokens {
        assert!(token.kind == TokenKind::Identifier || token.kind == TokenKind::Trivia);
    }
}

#[test]
fn equality_operators() {
    assert_eq!(
        kinds(&tokenize("a==b")),
        vec![TokenKind::Identifier, TokenKind::EqualEqual, TokenKind::Identifier]
    );
    assert_eq!(
        kinds(&tokenize("a=b")),
        vec![TokenKind::Identifier, TokenKind::Equal, TokenKind::Identifier]
    );
    assert_eq!(
        kinds(&tokenize("a!=b")),
        vec![TokenKind::Identifier, TokenKind::NotEqual, TokenKind::Identifier]
    );
}

#[test]
fn two_char_operator_table() {
    let cases: Vec<(&str, TokenKind)> = vec![
        ("+=", TokenKind::PlusEqual),
        ("-=", TokenKind::MinusEqual),
        ("*=", TokenKind::MultiplyEqual),
        ("/=", TokenKind::DivideEqual),
        ("%=", TokenKind::ModuloEqual),
        ("==", TokenKind::EqualEqual),
        ("&&", TokenKind::AndAnd),
        ("||", TokenKind::OrOr),
        ("!=", TokenKind::NotEqual),
        ("<=", TokenKind::LessThanEqual),
        (">=", TokenKind::GreaterThanEqual),
        ("<<", TokenKind::LessThanLessThan),
        (">>", TokenKind::GreaterThanGreaterThan),
    ];
    for (input, expected) in cases {
        let tokens = tokenize(input);
        assert_eq!(kinds(&tokens), vec![expected]);
        assert_eq!(texts(&tokens), vec![input]);
    }
}

#[test]
fn one_char_operator_table() {
    let cases: Vec<(&str, TokenKind)> = vec![
        ("=", TokenKind::Equal),
        ("+", TokenKind::Plus),
        ("-", TokenKind::Minus),
        ("*", TokenKind::Multiply),
        ("/", TokenKind::Divide),
        ("%", TokenKind::Modulo),
        ("&", TokenKind::And),
        ("|", TokenKind::Or),
        ("^", TokenKind::Caret),
        ("!", TokenKind::Not),
        ("<", TokenKind::LessThan),
        (">", TokenKind::GreaterThan),
        ("(", TokenKind::LeftParenthesis),
        (")", TokenKind::RightParenthesis),
        ("[", TokenKind::LeftBracket),
        ("]", TokenKind::RightBracket),
        ("{", TokenKind::LeftBrace),
        ("}", TokenKind::RightBrace),
        (",", TokenKind::Comma),
        (".", TokenKind::Dot),
        (";", TokenKind::Semicolon),
        (":", TokenKind::Colon),
    ];
    for (input, expected) in cases {
        let tokens = tokenize(input);
        assert_eq!(kinds(&tokens), vec![expected]);
        assert_eq!(texts(&tokens), vec![input]);
    }
}

#[test]
fn trivia_separation() {
    let tokens = tokenize("  //x\n");
    assert_eq!(kinds(&tokens), vec![TokenKind::Trivia, TokenKind::Trivia]);
    assert_eq!(texts(&tokens), vec!["  ", "//x\n"]);
}

#[test]
fn comment_without_newline_reaches_end() {
    let tokens = tokenize("//abc");
    assert_eq!(kinds(&tokens), vec![TokenKind::Trivia]);
    assert_eq!(texts(&tokens), vec!["//abc"]);
}

#[test]
fn comment_stops_at_newline() {
    let tokens = tokenize("//a\n//b\n");
    assert_eq!(kinds(&tokens), vec![TokenKind::Trivia, TokenKind::Trivia]);
    assert_eq!(texts(&tokens), vec!["//a\n", "//b\n"]);
}

#[test]
fn whitespace_run_is_maximal() {
    let tokens = tokenize(" \t\n x");
    assert_eq!(kinds(&tokens), vec![TokenKind::Trivia, TokenKind::Identifier]);
    assert_eq!(texts(&tokens), vec![" \t\n ", "x"]);
}

#[test]
fn losslessness_on_mixed_input() {
    let input = "def add(a, b) { a += b; } // sum\nif a <= b && c { ? } 42 \u{3b1}\u{3b2}";
    let tokens = tokenize(input);
    let rebuilt: String = texts(&tokens).concat();
    assert_eq!(rebuilt, input);
}

#[test]
fn determinism_two_independent_scans() {
    let input = "extend T with { def f() { x *= 2; } } // done\n";
    let mut first = Lexer::new(input);
    let mut second = Lexer::new(input);
    let first_tokens = collect_by_hand(&mut first);
    let second_tokens = collect_by_hand(&mut second);
    assert_eq!(first_tokens, second_tokens);
    assert_eq!(first_tokens, tokenize(input));
}

#[test]
fn progress_bounds_token_count() {
    let input = "?? ab\u{3b1} <<>>= \u{20ac}";
    let tokens = tokenize(input);
    assert!(tokens.len() <= input.chars().count());
    for token in &tokens {
        assert!(!token.text.is_empty());
    }
}

#[test]
fn empty_input_yields_no_token() {
    assert!(tokenize("").is_empty());
    let mut lexer = Lexer::new("");
    assert_eq!(lexer.consume_token(), None);
}

#[test]
fn exhaustion_is_permanent() {
    let mut lexer = Lexer::new("a");
    assert!(lexer.consume_token().is_some());
    assert_eq!(lexer.consume_token(), None);
    assert_eq!(lexer.consume_token(), None);
}

#[test]
fn unicode_identifier() {
    let tokens = tokenize("\u{3b1}\u{3b2}\u{3b3}");
    assert_eq!(kinds(&tokens), vec![TokenKind::Identifier]);
    assert_eq!(texts(&tokens), vec!["\u{3b1}\u{3b2}\u{3b3}"]);
}

#[test]
fn non_ascii_illegal_consumes_whole_character() {
    let tokens = tokenize("\u{20ac}a");
    assert_eq!(kinds(&tokens), vec![TokenKind::Illegal, TokenKind::Identifier]);
    assert_eq!(texts(&tokens), vec!["\u{20ac}", "a"]);
}

#[test]
fn consume_whitespace_directly() {
    let mut lexer = Lexer::new("  a");
    let token = lexer.consume_whitespace().unwrap();
    assert_eq!(token.kind, TokenKind::Trivia);
    assert_eq!(token.text, "  ");
    assert_eq!(lexer.consume_whitespace(), None);
}

#[test]
fn consume_comment_directly() {
    let mut lexer = Lexer::new("//x\nrest");
    let token = lexer.consume_comment().unwrap();
    assert_eq!(token.kind, TokenKind::Trivia);
    assert_eq!(token.text, "//x\n");
    assert_eq!(lexer.consume_comment(), None);
}

#[test]
fn consume_trivia_directly() {
    let mut lexer = Lexer::new(" //x\n");
    let token = lexer.consume_trivia().unwrap();
    assert_eq!(token.text, " ");
    let token = lexer.consume_trivia().unwrap();
    assert_eq!(token.text, "//x\n");
    assert_eq!(lexer.consume_trivia(), None);
}

#[test]
fn consume_two_chars_token_directly() {
    let input = "<<rest";
    let mut chars = input.chars();
    let current = chars.next().unwrap();
    let next = chars.next().unwrap();
    let mut lexer = Lexer::new(input);
    let token = lexer.consume_two_chars_token(current, next).unwrap();
    assert_eq!(token.kind, TokenKind::LessThanLessThan);
    assert_eq!(token.text, "<<");
}

#[test]
fn consume_one_char_token_directly() {
    let input = ";rest";
    let current = input.chars().next().unwrap();
    let mut lexer = Lexer::new(input);
    let token = lexer.consume_one_char_token(current).unwrap();
    assert_eq!(token.kind, TokenKind::Semicolon);
    assert_eq!(token.text, ";");
}

#[test]
fn consume_keyword_or_identifier_token_directly() {
    let mut lexer = Lexer::new("foo bar");
    let token = lexer.consume_keyword_or_identifier_token().unwrap();
    assert_eq!(token.kind, TokenKind::Identifier);
    assert_eq!(token.text, "foo");
    let token = lexer.consume_keyword_or_identifier_token();
    assert_eq!(token, None);
}

#[test]
fn identifier_with_digits_and_underscore() {
    let tokens = tokenize("a1_b2");
    assert_eq!(kinds(&tokens), vec![TokenKind::Identifier]);
    assert_eq!(texts(&tokens), vec!["a1_b2"]);
}

#[test]
fn underscore_alone_is_illegal() {
    // `_` has XID_Continue but not XID_Start, and matches no other rule.
    let tokens = tokenize("_");
    assert_eq!(kinds(&tokens), vec![TokenKind::Illegal]);
}
