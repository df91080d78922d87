use lox::number::Number;
use lox::scanner::scan;
use lox::token::TokenType;

fn number(value: f32) -> TokenType {
    TokenType::Number(Number::from_bits(value.to_bits()))
}

fn keyword_table() -> Vec<(&'static str, TokenType)> {
    vec![
        ("and", TokenType::And),
        ("class", TokenType::Class),
        ("else", TokenType::Else),
        ("false", TokenType::False),
        ("fun", TokenType::Fun),
        ("for", TokenType::For),
        ("if", TokenType::If),
        ("nil", TokenType::Nil),
        ("or", TokenType::Or),
        ("print", TokenType::Print),
        ("return", TokenType::Return),
        ("super", TokenType::Super),
        ("this", TokenType::This),
        ("true", TokenType::True),
        ("var", TokenType::Var),
        ("while", TokenType::While),
    ]
}

#[test]
fn empty() {
    let tokens = match scan("") {
        Ok(t) => t,
        Err(e) => panic!("{:?}", e),
    };

    assert_eq!(tokens.len(), 1);
    assert_eq!(tokens[0].token_type, TokenType::Eof);
    assert_eq!(tokens[0].line, 1);
}

#[test]
fn comment() {
    let tokens = match scan("// ==== ") {
        Ok(t) => t,
        Err(e) => panic!("{:?}", e),
    };

    assert_eq!(tokens.len(), 1);
    assert_eq!(tokens[0].token_type, TokenType::Eof);
}

#[test]
fn comment_new_line() {
    let tokens = match scan("// ==== \nNextLine") {
        Ok(t) => t,
        Err(e) => panic!("{:?}", e),
    };

    assert_eq!(tokens.len(), 2);
    assert_eq!(
        tokens[0].token_type,
        TokenType::Identifier("NextLine".to_owned())
    );
    assert_eq!(tokens[1].token_type, TokenType::Eof);
}

#[test]
fn string() {
    let tokens = match scan("\"a string\"") {
        Ok(t) => t,
        Err(e) => panic!("{:?}", e),
    };

    assert_eq!(tokens.len(), 2);
    assert_eq!(tokens[0].token_type, TokenType::Str("a string".to_owned()));
    assert_eq!(tokens[1].token_type, TokenType::Eof);
}

#[test]
fn spaces() {
    let tokens = match scan(" \t\n\r") {
        Ok(t) => t,
        Err(e) => panic!("{:?}", e),
    };

    assert_eq!(tokens.len(), 1);
    assert_eq!(tokens[0].token_type, TokenType::Eof);
}

#[test]
fn newline() {
    let tokens = match scan("\n") {
        Ok(t) => t,
        Err(e) => panic!("{:?}", e),
    };

    assert_eq!(tokens.len(), 1);
    assert_eq!(tokens[0].token_type, TokenType::Eof);
    assert_eq!(tokens[0].line, 2);
}

#[test]
fn integer() {
    let tokens = match scan("1234") {
        Ok(t) => t,
        Err(e) => panic!("{:?}", e),
    };

    assert_eq!(tokens.len(), 2);
    assert_eq!(tokens[0].token_type, number(1234.0));
    assert_eq!(tokens[1].token_type, TokenType::Eof);
}

#[test]
fn integer_method() {
    let tokens = match scan("1234.call") {
        Ok(t) => t,
        Err(e) => panic!("{:?}", e),
    };

    assert_eq!(tokens.len(), 4);
    assert_eq!(tokens[0].token_type, number(1234.0));
    assert_eq!(tokens[3].token_type, TokenType::Eof);
}

#[test]
fn float() {
    let tokens = match scan("1234.5678") {
        Ok(t) => t,
        Err(e) => panic!("{:?}", e),
    };

    assert_eq!(tokens.len(), 2);
    assert_eq!(tokens[0].token_type, number(1234.5678));
    assert_eq!(tokens[1].token_type, TokenType::Eof);
}

#[test]
fn float_1() {
    let tokens = match scan("1.2345") {
        Ok(t) => t,
        Err(e) => panic!("{:?}", e),
    };

    assert_eq!(tokens.len(), 2);
    assert_eq!(tokens[0].token_type, number(1.2345));
    assert_eq!(tokens[1].token_type, TokenType::Eof);
}

#[test]
fn error_if_alpha_after_number() {
    match scan("123ab") {
        Ok(_) => panic!("Should not scanner successfully"),
        Err(_) => {}
    };
}

#[test]
fn non_alphanumeric() {
    let tokens = match scan("(){},.-+*/!!====<<=>>=") {
        Ok(t) => t,
        Err(e) => panic!("{:?}", e),
    };

    let expected_tokens = vec![
        TokenType::LeftParen,
        TokenType::RightParen,
        TokenType::LeftBrace,
        TokenType::RightBrace,
        TokenType::Comma,
        TokenType::Dot,
        TokenType::Minus,
        TokenType::Plus,
        TokenType::Star,
        TokenType::Slash,
        TokenType::Bang,
        TokenType::BangEqual,
        TokenType::EqualEqual,
        TokenType::Equal,
        TokenType::Less,
        TokenType::LessEqual,
        TokenType::Greater,
        TokenType::GreaterEqual,
        TokenType::Eof,
    ];

    for (i, t) in expected_tokens.iter().enumerate() {
        assert_eq!(tokens[i].token_type, *t);
    }

    assert_eq!(tokens.len(), expected_tokens.len());
}

#[test]
fn error() {
    let errors = match scan("^&%") {
        Ok(_) => panic!("Expected scan error"),
        Err(e) => e,
    };

    assert_eq!(errors.len(), 3);
}

#[test]
fn indentifier_with_underscore() {
    let tokens = match scan("indentifier_with_underscore") {
        Ok(t) => t,
        Err(e) => panic!("{:?}", e),
    };

    assert_eq!(tokens.len(), 2);
    assert_eq!(
        tokens[0].token_type,
        TokenType::Identifier("indentifier_with_underscore".to_owned())
    );
    assert_eq!(tokens[1].token_type, TokenType::Eof);
}

#[test]
fn indentifier_starts_with_underscore() {
    let tokens = match scan("_starts_with_underscore") {
        Ok(t) => t,
        Err(e) => panic!("{:?}", e),
    };

    assert_eq!(tokens.len(), 2);
    assert_eq!(
        tokens[0].token_type,
        TokenType::Identifier("_starts_with_underscore".to_owned())
    );
    assert_eq!(tokens[1].token_type, TokenType::Eof);
}

#[test]
fn keywords() {
    let table = keyword_table();
    let mut source = "".to_owned();
    for (k, _) in &table {
        source.push_str(k);
        source.push_str(" ");
    }

    let tokens = match scan(&source) {
        Ok(t) => t,
        Err(e) => panic!("{:?}", e),
    };

    assert_eq!(tokens.len(), table.len() + 1);
    for (i, (_, v)) in table.iter().enumerate() {
        assert_eq!(tokens[i].token_type, *v);
    }

    assert_eq!(tokens.last().unwrap().token_type, TokenType::Eof);
}

fn kinds(source: &str) -> Vec<TokenType> {
    scan(source).unwrap().into_iter().map(|t| t.token_type).collect()
}

#[test]
fn a_point_without_a_digit_is_a_token_of_its_own() {
    assert_eq!(
        kinds("1234.call"),
        vec![
            number(1234.0),
            TokenType::Dot,
            TokenType::Identifier("call".to_owned()),
            TokenType::Eof
        ]
    );
    assert_eq!(kinds("1."), vec![number(1.0), TokenType::Dot, TokenType::Eof]);
    assert_eq!(
        kinds("1.5.2"),
        vec![number(1.5), TokenType::Dot, number(2.0), TokenType::Eof]
    );
}

#[test]
fn a_letter_after_a_number_is_reported_with_its_line() {
    assert_eq!(
        scan("\n123ab"),
        Err(vec!["Unexpected character 'a' after number at line 2".to_owned()])
    );
}

#[test]
fn every_bad_character_is_reported() {
    assert_eq!(
        scan("^\n&"),
        Err(vec![
            "Invalid character ^ at line 1".to_owned(),
            "Invalid character & at line 2".to_owned()
        ])
    );
}

#[test]
fn tokens_carry_their_lines() {
    let tokens = scan("a\nb // c\n\n\"s\nt\" d").unwrap();
    let lines: Vec<u32> = tokens.iter().map(|t| t.line).collect();
    assert_eq!(lines, vec![1, 2, 4, 4, 4]);
    assert_eq!(tokens[2].token_type, TokenType::Str("s\nt".to_owned()));
}

#[test]
fn a_string_without_its_end_runs_to_the_end_of_the_text() {
    assert_eq!(
        kinds("\"abc"),
        vec![TokenType::Str("abc".to_owned()), TokenType::Eof]
    );
    assert_eq!(kinds("\""), vec![TokenType::Str("".to_owned()), TokenType::Eof]);
}

#[test]
fn words_take_letters_of_every_script_after_the_first() {
    assert_eq!(
        kinds("caf\u{e9}_1 x\u{3b1}"),
        vec![
            TokenType::Identifier("caf\u{e9}_1".to_owned()),
            TokenType::Identifier("x\u{3b1}".to_owned()),
            TokenType::Eof
        ]
    );
    assert_eq!(
        scan("\u{e9}"),
        Err(vec!["Invalid character \u{e9} at line 1".to_owned()])
    );
    assert_eq!(
        scan("a\u{20ac}"),
        Err(vec!["Invalid character \u{20ac} at line 1".to_owned()])
    );
}

#[test]
fn white_space_of_every_kind_is_skipped() {
    assert_eq!(
        kinds("a\u{a0}b\u{2003}c\u{3000}d\u{85}e\u{b}f"),
        vec![
            TokenType::Identifier("a".to_owned()),
            TokenType::Identifier("b".to_owned()),
            TokenType::Identifier("c".to_owned()),
            TokenType::Identifier("d".to_owned()),
            TokenType::Identifier("e".to_owned()),
            TokenType::Identifier("f".to_owned()),
            TokenType::Eof
        ]
    );
    for c in '\0'..='\u{ffff}' {
        if c.is_whitespace() {
            assert_eq!(kinds(&c.to_string()), vec![TokenType::Eof], "{:?}", c);
        } else if !c.is_alphanumeric() && !"\"/(){},.-+;*!=<>_".contains(c) {
            assert!(scan(&c.to_string()).is_err(), "{:?}", c);
        }
    }
}

#[test]
fn keywords_inside_words_are_words() {
    assert_eq!(
        kinds("android or orchid"),
        vec![
            TokenType::Identifier("android".to_owned()),
            TokenType::Or,
            TokenType::Identifier("orchid".to_owned()),
            TokenType::Eof
        ]
    );
}

#[test]
fn written_tokens_scan_back() {
    let written = [
        ("(", TokenType::LeftParen),
        ("!=", TokenType::BangEqual),
        ("!", TokenType::Bang),
        ("/", TokenType::Slash),
        ("while", TokenType::While),
        ("whilst", TokenType::Identifier("whilst".to_owned())),
        ("\"a b\"", TokenType::Str("a b".to_owned())),
        ("12.5", number(12.5)),
        ("<=", TokenType::LessEqual),
        ("=", TokenType::Equal),
    ];
    let mut source = String::new();
    for (text, _) in &written {
        source.push_str(text);
        source.push(' ');
    }
    let tokens = scan(&source).unwrap();
    assert_eq!(tokens.len(), written.len() + 1);
    for (i, (_, kind)) in written.iter().enumerate() {
        assert_eq!(tokens[i].token_type, *kind);
        assert_eq!(tokens[i].line, 1);
    }
    assert_eq!(tokens[written.len()].token_type, TokenType::Eof);
}

#[test]
fn tokens_are_shown_as_they_are_written() {
    assert_eq!(TokenType::LessEqual.to_string(), "<=");
    assert_eq!(TokenType::While.to_string(), "while");
    assert_eq!(TokenType::Identifier("abc".to_owned()).to_string(), "abc");
    assert_eq!(TokenType::Str("a b".to_owned()).to_string(), "a b");
    assert_eq!(number(1.5).to_string(), "number");
    assert_eq!(TokenType::Eof.to_string(), "EOF");
    assert!(TokenType::Str("a".to_owned()).same(&TokenType::Str("a".to_owned())));
    assert!(!TokenType::Str("a".to_owned()).same(&TokenType::Identifier("a".to_owned())));
    assert_eq!(TokenType::Str("a".to_owned()).duplicate(), TokenType::Str("a".to_owned()));
}

#[test]
fn tokens_with_single_spaces_between_them_scan_back() {
    let written = [
        ("fun", TokenType::Fun),
        ("f", TokenType::Identifier("f".to_owned())),
        ("(", TokenType::LeftParen),
        (")", TokenType::RightParen),
        ("/", TokenType::Slash),
        ("0.5", number(0.5)),
        (">=", TokenType::GreaterEqual),
        ("\"s\"", TokenType::Str("s".to_owned())),
        ("7", number(7.0)),
    ];
    let texts: Vec<&str> = written.iter().map(|(text, _)| *text).collect();
    for count in 0..=written.len() {
        let tokens = scan(&texts[..count].join(" ")).unwrap();
        assert_eq!(tokens.len(), count + 1);
        for i in 0..count {
            assert_eq!(tokens[i].token_type, written[i].1);
            assert_eq!(tokens[i].line, 1);
        }
        assert_eq!(tokens[count].token_type, TokenType::Eof);
    }
}
