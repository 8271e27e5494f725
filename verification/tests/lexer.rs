use rock_lib::lexer::{lex, Keyword, LexError, TokenKind};

#[test]
fn tokens_carry_their_text_line_and_indentation() {
    let tokens = lex("main = do\n    x <- first! 12\n").unwrap();
    let kinds: Vec<TokenKind> = tokens.iter().map(|t| t.kind).collect();
    assert_eq!(
        kinds,
        vec![
            TokenKind::Ident,
            TokenKind::Assign,
            TokenKind::Keyword(Keyword::Do),
            TokenKind::Eol,
            TokenKind::Ident,
            TokenKind::BindArrow,
            TokenKind::Ident,
            TokenKind::Bang,
            TokenKind::Number,
            TokenKind::Eol,
        ]
    );
    let texts: Vec<&str> = tokens.iter().map(|t| t.text.as_str()).collect();
    assert_eq!(texts, vec!["main", "=", "do", "", "x", "<-", "first", "!", "12", ""]);
    assert!(tokens[0].first_on_line && tokens[4].first_on_line);
    assert!(!tokens[1].first_on_line && !tokens[3].first_on_line);
    assert_eq!((tokens[4].line, tokens[4].indent), (1, 4));
    assert_eq!((tokens[8].line, tokens[8].indent), (1, 4));
}

#[test]
fn blank_lines_give_no_tokens_and_comments_keep_their_text() {
    let tokens = lex("\n// note\n\nTypeName _ ..= \"a b\"\n").unwrap();
    assert_eq!(tokens[0].kind, TokenKind::Comment);
    assert_eq!(tokens[0].text, "// note");
    assert_eq!(tokens[1].kind, TokenKind::Eol);
    let rest: Vec<(TokenKind, &str)> = tokens[2..].iter().map(|t| (t.kind, t.text.as_str())).collect();
    assert_eq!(
        rest,
        vec![
            (TokenKind::TypeName, "TypeName"),
            (TokenKind::Underscore, "_"),
            (TokenKind::DotDotEq, "..="),
            (TokenKind::Str, "\"a b\""),
            (TokenKind::Eol, ""),
        ]
    );
}

#[test]
fn unterminated_strings_and_stray_characters_are_refused() {
    assert!(matches!(lex("x = \"open\n"), Err(LexError::UnterminatedString)));
    assert!(matches!(lex("x = #\n"), Err(LexError::UnexpectedCharacter)));
}

#[test]
fn blank_and_digit_sources_lex_to_the_stated_tokens() {
    assert!(lex("  \n\n ").unwrap().is_empty());
    let tokens = lex("2024").unwrap();
    assert_eq!(tokens.len(), 2);
    assert_eq!((tokens[0].kind, tokens[0].text.as_str()), (TokenKind::Number, "2024"));
    assert_eq!(tokens[1].kind, TokenKind::Eol);
    assert!(tokens[0].space_before && tokens[0].space_after);
}

#[test]
fn a_space_is_noted_after_the_token_it_follows() {
    let tokens = lex("a b").unwrap();
    assert!(tokens[0].space_before && tokens[0].space_after);
    assert!(tokens[1].space_before && tokens[1].space_after);
    let tight = lex("a+b").unwrap();
    assert!(!tight[0].space_after && !tight[1].space_before);
}

#[test]
fn a_plain_line_lexes_to_one_token_per_word() {
    let tokens = lex("f = -> if 7").unwrap();
    let kinds: Vec<(TokenKind, &str)> = tokens.iter().map(|t| (t.kind, t.text.as_str())).collect();
    assert_eq!(
        kinds,
        vec![
            (TokenKind::Ident, "f"),
            (TokenKind::Assign, "="),
            (TokenKind::Arrow, "->"),
            (TokenKind::Keyword(Keyword::If), "if"),
            (TokenKind::Number, "7"),
            (TokenKind::Eol, ""),
        ]
    );
}
