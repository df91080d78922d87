use lox::expr;
use lox::number::Number;
use lox::parser::parse;
use lox::stmt;
use lox::token::{Token, TokenType};

fn num(value: f32) -> Number {
    Number::from_bits(value.to_bits())
}


#[test]
fn primary() {
    assert_eq!(
        parse(&vec![
            Token::new(TokenType::True, 1),
            Token::new(TokenType::SemiColon, 1)
        ])
        .unwrap(),
        vec![stmt::new_expr(expr::Expr::Bool(true))]
    );
    assert_eq!(
        parse(&vec![
            Token::new(TokenType::False, 1),
            Token::new(TokenType::SemiColon, 1)
        ])
        .unwrap(),
        vec![stmt::new_expr(expr::Expr::Bool(false))]
    );
    assert_eq!(
        parse(&vec![
            Token::new(TokenType::Nil, 1),
            Token::new(TokenType::SemiColon, 1)
        ])
        .unwrap(),
        vec![stmt::new_expr(expr::Expr::Nil)]
    );
    assert_eq!(
        parse(&vec![
            Token::new(TokenType::Number(num(3.142)), 1),
            Token::new(TokenType::SemiColon, 1)
        ])
        .unwrap(),
        vec![stmt::new_expr(expr::Expr::Number(num(3.142)))]
    );
    assert_eq!(
        parse(&vec![
            Token::new(TokenType::Str("Hello World".to_owned()), 1),
            Token::new(TokenType::SemiColon, 1)
        ])
        .unwrap(),
        vec![stmt::new_expr(expr::Expr::Str("Hello World".to_owned()))]
    );
}

#[test]
fn term() {
    assert_eq!(
        parse(&vec![
            Token::new(TokenType::Number(num(4.0)), 1),
            Token::new(TokenType::Plus, 1),
            Token::new(TokenType::Number(num(8.5)), 1),
            Token::new(TokenType::SemiColon, 1),
        ])
        .unwrap(),
        vec![stmt::new_expr(expr::new_binary(
            expr::Expr::Number(num(4.0)),
            Token::new(TokenType::Plus, 1),
            expr::Expr::Number(num(8.5))
        ))]
    );

    assert_eq!(
        parse(&vec![
            Token::new(TokenType::Number(num(4.0)), 1),
            Token::new(TokenType::Minus, 1),
            Token::new(TokenType::Number(num(8.5)), 1),
            Token::new(TokenType::SemiColon, 1),
        ])
        .unwrap(),
        vec![stmt::new_expr(expr::new_binary(
            expr::Expr::Number(num(4.0)),
            Token::new(TokenType::Minus, 1),
            expr::Expr::Number(num(8.5))
        ))]
    );
}

#[test]
fn factor() {
    assert_eq!(
        parse(&vec![
            Token::new(TokenType::Number(num(4.0)), 1),
            Token::new(TokenType::Slash, 1),
            Token::new(TokenType::Number(num(8.5)), 1),
            Token::new(TokenType::SemiColon, 1),
        ])
        .unwrap(),
        vec![stmt::new_expr(expr::new_binary(
            expr::Expr::Number(num(4.0)),
            Token::new(TokenType::Slash, 1),
            expr::Expr::Number(num(8.5))
        ))]
    );

    assert_eq!(
        parse(&vec![
            Token::new(TokenType::Number(num(4.0)), 1),
            Token::new(TokenType::Star, 1),
            Token::new(TokenType::Number(num(8.5)), 1),
            Token::new(TokenType::SemiColon, 1),
        ])
        .unwrap(),
        vec![stmt::new_expr(expr::new_binary(
            expr::Expr::Number(num(4.0)),
            Token::new(TokenType::Star, 1),
            expr::Expr::Number(num(8.5))
        ))]
    );
}

#[test]
fn term_factor() {
    assert_eq!(
        parse(&vec![
            Token::new(TokenType::Number(num(1.0)), 1),
            Token::new(TokenType::Plus, 1),
            Token::new(TokenType::Number(num(2.0)), 1),
            Token::new(TokenType::Slash, 1),
            Token::new(TokenType::Number(num(3.0)), 1),
            Token::new(TokenType::Minus, 1),
            Token::new(TokenType::Number(num(4.0)), 1),
            Token::new(TokenType::Star, 1),
            Token::new(TokenType::Number(num(5.0)), 1),
            Token::new(TokenType::SemiColon, 1),
        ])
        .unwrap(),
        vec![stmt::new_expr(expr::new_binary(
            expr::new_binary(
                expr::Expr::Number(num(1.0)),
                Token::new(TokenType::Plus, 1),
                expr::new_binary(
                    expr::Expr::Number(num(2.0)),
                    Token::new(TokenType::Slash, 1),
                    expr::Expr::Number(num(3.0))
                )
            ),
            Token::new(TokenType::Minus, 1),
            expr::new_binary(
                expr::Expr::Number(num(4.0)),
                Token::new(TokenType::Star, 1),
                expr::Expr::Number(num(5.0))
            )
        ))]
    );
}

#[test]
fn error_cases() {
    assert!(parse(&vec![Token::new(TokenType::Star, 1)]).is_err());
    assert!(parse(&vec![
        Token::new(TokenType::Number(num(8.0)), 1),
        Token::new(TokenType::Star, 1),
        Token::new(TokenType::SemiColon, 1),
    ])
    .is_err());
    assert!(parse(&vec![
        Token::new(TokenType::Number(num(8.0)), 1),
        Token::new(TokenType::Number(num(1.0)), 1)
    ])
    .is_err());
}

#[test]
fn grouping() {
    assert_eq!(
        parse(&vec![
            Token::new(TokenType::LeftParen, 1),
            Token::new(TokenType::Number(num(1.0)), 1),
            Token::new(TokenType::Plus, 1),
            Token::new(TokenType::Number(num(2.0)), 1),
            Token::new(TokenType::RightParen, 1),
            Token::new(TokenType::Star, 1),
            Token::new(TokenType::LeftParen, 1),
            Token::new(TokenType::Number(num(3.0)), 1),
            Token::new(TokenType::Minus, 1),
            Token::new(TokenType::Number(num(4.0)), 1),
            Token::new(TokenType::RightParen, 1),
            Token::new(TokenType::SemiColon, 1),
        ])
        .unwrap(),
        vec![stmt::new_expr(expr::new_binary(
            expr::new_grouping(expr::new_binary(
                expr::Expr::Number(num(1.0)),
                Token::new(TokenType::Plus, 1),
                expr::Expr::Number(num(2.0))
            )),
            Token::new(TokenType::Star, 1),
            expr::new_grouping(expr::new_binary(
                expr::Expr::Number(num(3.0)),
                Token::new(TokenType::Minus, 1),
                expr::Expr::Number(num(4.0))
            ))
        ))]
    );
}

#[test]
fn grouping_unmatched_parentheis() {
    let result = parse(&vec![
        Token::new(TokenType::LeftParen, 1),
        Token::new(TokenType::Number(num(1.0)), 1),
        Token::new(TokenType::Plus, 1),
        Token::new(TokenType::Number(num(2.0)), 1),
        Token::new(TokenType::SemiColon, 1),
    ]);

    assert!(result.is_err());
}

#[test]
fn bang() {
    assert_eq!(
        parse(&vec![
            Token::new(TokenType::Bang, 1),
            Token::new(TokenType::True, 1),
            Token::new(TokenType::SemiColon, 1),
        ])
        .unwrap(),
        vec![stmt::new_expr(expr::new_logical_not(expr::Expr::Bool(
            true
        )))]
    );

    assert_eq!(
        parse(&vec![
            Token::new(TokenType::Bang, 1),
            Token::new(TokenType::LeftParen, 1),
            Token::new(TokenType::Number(num(2.0)), 1),
            Token::new(TokenType::Plus, 1),
            Token::new(TokenType::Number(num(5.0)), 1),
            Token::new(TokenType::RightParen, 1),
            Token::new(TokenType::SemiColon, 1),
        ])
        .unwrap(),
        vec![stmt::new_expr(expr::new_logical_not(expr::new_grouping(
            expr::new_binary(
                expr::Expr::Number(num(2.0)),
                Token::new(TokenType::Plus, 1),
                expr::Expr::Number(num(5.0))
            )
        )))]
    )
}

#[test]
fn unary_negate() {
    assert_eq!(
        parse(&vec![
            Token::new(TokenType::Minus, 1),
            Token::new(TokenType::Number(num(2.0)), 1),
            Token::new(TokenType::SemiColon, 1),
        ])
        .unwrap(),
        vec![stmt::new_expr(expr::new_unary_negate(expr::Expr::Number(num(2.0))))]
    );

    assert!(parse(&vec![Token::new(TokenType::Minus, 1)]).is_err());
}

#[test]
fn comparison() {
    assert_eq!(
        parse(&vec![
            Token::new(TokenType::Number(num(2.0)), 1),
            Token::new(TokenType::Less, 1),
            Token::new(TokenType::Number(num(3.0)), 1),
            Token::new(TokenType::SemiColon, 1),
        ])
        .unwrap(),
        vec![stmt::new_expr(expr::new_binary(
            expr::Expr::Number(num(2.0)),
            Token::new(TokenType::Less, 1),
            expr::Expr::Number(num(3.0))
        ))]
    );

    assert_eq!(
        parse(&vec![
            Token::new(TokenType::Number(num(2.0)), 1),
            Token::new(TokenType::LessEqual, 1),
            Token::new(TokenType::Number(num(3.0)), 1),
            Token::new(TokenType::SemiColon, 1),
        ])
        .unwrap(),
        vec![stmt::new_expr(expr::new_binary(
            expr::Expr::Number(num(2.0)),
            Token::new(TokenType::LessEqual, 1),
            expr::Expr::Number(num(3.0))
        ))]
    );

    assert_eq!(
        parse(&vec![
            Token::new(TokenType::Number(num(2.0)), 1),
            Token::new(TokenType::Greater, 1),
            Token::new(TokenType::Number(num(3.0)), 1),
            Token::new(TokenType::SemiColon, 1),
        ])
        .unwrap(),
        vec![stmt::new_expr(expr::new_binary(
            expr::Expr::Number(num(2.0)),
            Token::new(TokenType::Greater, 1),
            expr::Expr::Number(num(3.0))
        ))]
    );

    assert_eq!(
        parse(&vec![
            Token::new(TokenType::Number(num(2.0)), 1),
            Token::new(TokenType::GreaterEqual, 1),
            Token::new(TokenType::Number(num(3.0)), 1),
            Token::new(TokenType::SemiColon, 1),
        ])
        .unwrap(),
        vec![stmt::new_expr(expr::new_binary(
            expr::Expr::Number(num(2.0)),
            Token::new(TokenType::GreaterEqual, 1),
            expr::Expr::Number(num(3.0))
        ))]
    );
}

#[test]
fn equality() {
    assert_eq!(
        parse(&vec![
            Token::new(TokenType::Number(num(3.0)), 1),
            Token::new(TokenType::EqualEqual, 1),
            Token::new(TokenType::Number(num(3.0)), 1),
            Token::new(TokenType::SemiColon, 1),
        ])
        .unwrap(),
        vec![stmt::new_expr(expr::new_binary(
            expr::Expr::Number(num(3.0)),
            Token::new(TokenType::EqualEqual, 1),
            expr::Expr::Number(num(3.0))
        ))]
    );

    assert_eq!(
        parse(&vec![
            Token::new(TokenType::Number(num(2.0)), 1),
            Token::new(TokenType::BangEqual, 1),
            Token::new(TokenType::Number(num(3.0)), 1),
            Token::new(TokenType::SemiColon, 1),
        ])
        .unwrap(),
        vec![stmt::new_expr(expr::new_binary(
            expr::Expr::Number(num(2.0)),
            Token::new(TokenType::BangEqual, 1),
            expr::Expr::Number(num(3.0))
        ))]
    );
}

#[test]
fn logical_or() {
    assert_eq!(
        parse(&vec![
            Token::new(TokenType::Number(num(3.0)), 1),
            Token::new(TokenType::Or, 1),
            Token::new(TokenType::Number(num(3.0)), 1),
            Token::new(TokenType::SemiColon, 1),
        ])
        .unwrap(),
        vec![stmt::new_expr(expr::new_binary(
            expr::Expr::Number(num(3.0)),
            Token::new(TokenType::Or, 1),
            expr::Expr::Number(num(3.0))
        ))]
    );
}

#[test]
fn logical_and() {
    assert_eq!(
        parse(&vec![
            Token::new(TokenType::Number(num(2.0)), 1),
            Token::new(TokenType::And, 1),
            Token::new(TokenType::Number(num(3.0)), 1),
            Token::new(TokenType::SemiColon, 1),
        ])
        .unwrap(),
        vec![stmt::new_expr(expr::new_binary(
            expr::Expr::Number(num(2.0)),
            Token::new(TokenType::And, 1),
            expr::Expr::Number(num(3.0))
        ))]
    );
}

#[test]
fn print() {
    assert_eq!(
        parse(&vec![
            Token::new(TokenType::Print, 1),
            Token::new(TokenType::Number(num(3.0)), 1),
            Token::new(TokenType::Comma, 1),
            Token::new(TokenType::Str("Hello, ".to_owned()), 1),
            Token::new(TokenType::Comma, 1),
            Token::new(TokenType::Str("World".to_owned()), 1),
            Token::new(TokenType::SemiColon, 1),
        ])
        .unwrap(),
        vec![stmt::new_print(vec![
            expr::Expr::Number(num(3.0)),
            expr::Expr::Str("Hello, ".to_owned()),
            expr::Expr::Str("World".to_owned())
        ])]
    );
}

#[test]
fn test_if_no_else_no_braces() {
    assert_eq!(
        parse(&vec![
            Token::new(TokenType::If, 1),
            Token::new(TokenType::LeftParen, 1),
            Token::new(TokenType::True, 1),
            Token::new(TokenType::RightParen, 1),
            Token::new(TokenType::Print, 1),
            Token::new(TokenType::Number(num(1.0)), 1),
            Token::new(TokenType::SemiColon, 1),
        ])
        .unwrap(),
        vec![stmt::new_if(
            expr::Expr::Bool(true),
            stmt::new_print(vec![expr::Expr::Number(num(1.0))]),
            None
        )]
    );
}

#[test]
fn test_if_no_else() {
    assert_eq!(
        parse(&vec![
            Token::new(TokenType::If, 1),
            Token::new(TokenType::LeftParen, 1),
            Token::new(TokenType::True, 1),
            Token::new(TokenType::RightParen, 1),
            Token::new(TokenType::LeftBrace, 1),
            Token::new(TokenType::Print, 1),
            Token::new(TokenType::Number(num(1.0)), 1),
            Token::new(TokenType::SemiColon, 1),
            Token::new(TokenType::RightBrace, 1),
        ])
        .unwrap(),
        vec![stmt::new_if(
            expr::Expr::Bool(true),
            stmt::new_block(vec![stmt::new_print(vec![expr::Expr::Number(num(1.0))])]),
            None
        )]
    );
}

#[test]
fn test_if_with_else_no_braces() {
    assert_eq!(
        parse(&vec![
            Token::new(TokenType::If, 1),
            Token::new(TokenType::LeftParen, 1),
            Token::new(TokenType::True, 1),
            Token::new(TokenType::RightParen, 1),
            Token::new(TokenType::Print, 1),
            Token::new(TokenType::Number(num(1.0)), 1),
            Token::new(TokenType::SemiColon, 1),
            Token::new(TokenType::Else, 1),
            Token::new(TokenType::Print, 1),
            Token::new(TokenType::Number(num(2.0)), 1),
            Token::new(TokenType::SemiColon, 1),
        ])
        .unwrap(),
        vec![stmt::new_if(
            expr::Expr::Bool(true),
            stmt::new_print(vec![expr::Expr::Number(num(1.0))]),
            Some(stmt::new_print(vec![expr::Expr::Number(num(2.0))]))
        )]
    );
}

#[test]
fn test_if_with_else() {
    assert_eq!(
        parse(&vec![
            Token::new(TokenType::If, 1),
            Token::new(TokenType::LeftParen, 1),
            Token::new(TokenType::True, 1),
            Token::new(TokenType::RightParen, 1),
            Token::new(TokenType::LeftBrace, 1),
            Token::new(TokenType::Print, 1),
            Token::new(TokenType::Number(num(1.0)), 1),
            Token::new(TokenType::SemiColon, 1),
            Token::new(TokenType::RightBrace, 1),
            Token::new(TokenType::Else, 1),
            Token::new(TokenType::LeftBrace, 1),
            Token::new(TokenType::Print, 1),
            Token::new(TokenType::Number(num(2.0)), 1),
            Token::new(TokenType::SemiColon, 1),
            Token::new(TokenType::RightBrace, 1),
        ])
        .unwrap(),
        vec![stmt::new_if(
            expr::Expr::Bool(true),
            stmt::new_block(vec![stmt::new_print(vec![expr::Expr::Number(num(1.0))])]),
            Some(stmt::new_block(vec![stmt::new_print(vec![
                expr::Expr::Number(num(2.0))
            ])]))
        )]
    );
}

#[test]
fn test_var() {
    assert_eq!(
        parse(&vec![
            Token::new(TokenType::Var, 1),
            Token::new(TokenType::Identifier("variable".to_owned()), 1),
            Token::new(TokenType::Equal, 1),
            Token::new(TokenType::Number(num(10.0)), 1),
            Token::new(TokenType::SemiColon, 1),
        ])
        .unwrap(),
        vec![stmt::new_var("variable", 1, expr::Expr::Number(num(10.0)))]
    );
}

#[test]
fn test_assignment() {
    assert_eq!(
        parse(&vec![
            Token::new(TokenType::Identifier("variable".to_owned()), 1),
            Token::new(TokenType::Equal, 1),
            Token::new(TokenType::Number(num(10.0)), 1),
            Token::new(TokenType::SemiColon, 1),
        ])
        .unwrap(),
        vec![stmt::new_expr(
            expr::new_assignment("variable", 1, expr::Expr::Number(num(10.0)))
        )]
    );
}

#[test]
fn test_while() {
    assert_eq!(
        parse(&vec![
            Token::new(TokenType::While, 1),
            Token::new(TokenType::LeftParen, 1),

            Token::new(TokenType::Identifier("counter".to_owned()), 1),
            Token::new(TokenType::Less, 1),
            Token::new(TokenType::Number(num(10.0)), 1),

            Token::new(TokenType::RightParen, 1),

            Token::new(TokenType::LeftBrace, 1),
            Token::new(TokenType::Print, 1),
            Token::new(TokenType::Identifier("counter".to_owned()), 1),
            Token::new(TokenType::SemiColon, 1),
            Token::new(TokenType::RightBrace, 1),
        ])
        .unwrap(),
        vec![stmt::new_while(
            expr::new_binary(
                expr::new_variable("counter", 1),
                Token::new(TokenType::Less, 1),
                expr::Expr::Number(num(10.0))
            ),
            stmt::new_block(vec![
                stmt::new_print(vec![
                    expr::new_variable("counter", 1)
                ])
            ])
        )]

    );
}

#[test]
fn test_for() {
    assert_eq!(
        parse(&vec![
            Token::new(TokenType::For, 1),
            Token::new(TokenType::LeftParen, 1),

            Token::new(TokenType::Var, 1),
            Token::new(TokenType::Identifier("counter".to_owned()), 1),
            Token::new(TokenType::Equal, 1),
            Token::new(TokenType::Number(num(0.0)), 1),
            Token::new(TokenType::SemiColon, 1),


            Token::new(TokenType::Identifier("counter".to_owned()), 1),
            Token::new(TokenType::Less, 1),
            Token::new(TokenType::Number(num(10.0)), 1),
            Token::new(TokenType::SemiColon, 1),

            Token::new(TokenType::Identifier("counter".to_owned()), 1),
            Token::new(TokenType::Equal, 1),
            Token::new(TokenType::Identifier("counter".to_owned()), 1),
            Token::new(TokenType::Plus, 1),
            Token::new(TokenType::Number(num(1.0)), 1),

            Token::new(TokenType::RightParen, 1),

            Token::new(TokenType::LeftBrace, 1),
            Token::new(TokenType::Print, 1),
            Token::new(TokenType::Identifier("counter".to_owned()), 1),
            Token::new(TokenType::SemiColon, 1),
            Token::new(TokenType::RightBrace, 1),
        ])
        .unwrap(),
        vec![
            stmt::new_block(vec![
                stmt::new_var("counter", 1, expr::Expr::Number(num(0.0))),
                stmt::new_while(
                    expr::new_binary(
                        expr::new_variable("counter", 1),
                        Token::new(TokenType::Less, 1),
                        expr::Expr::Number(num(10.0))
                    ),
                    stmt::new_block(vec![
                        stmt::new_block(vec![
                            stmt::new_print(vec![
                                expr::new_variable("counter", 1)
                            ])
                        ]),
                        stmt::new_expr(
                            expr::new_assignment("counter", 1,
                                expr::new_binary(
                                    expr::new_variable("counter", 1), 
                                    Token::new(TokenType::Plus, 1),
                                    expr::Expr::Number(num(1.0))
                                )
                            )
                        )
                    ])
                )
            ])
        ]
    );
}

#[test]
fn test_for_1() {
    assert_eq!(
        parse(&vec![
            Token::new(TokenType::For, 1),
            Token::new(TokenType::LeftParen, 1),

            Token::new(TokenType::SemiColon, 1),

            Token::new(TokenType::Identifier("counter".to_owned()), 1),
            Token::new(TokenType::Less, 1),
            Token::new(TokenType::Number(num(10.0)), 1),
            Token::new(TokenType::SemiColon, 1),

            Token::new(TokenType::Identifier("counter".to_owned()), 1),
            Token::new(TokenType::Equal, 1),
            Token::new(TokenType::Identifier("counter".to_owned()), 1),
            Token::new(TokenType::Plus, 1),
            Token::new(TokenType::Number(num(1.0)), 1),

            Token::new(TokenType::RightParen, 1),

            Token::new(TokenType::LeftBrace, 1),
            Token::new(TokenType::Print, 1),
            Token::new(TokenType::Identifier("counter".to_owned()), 1),
            Token::new(TokenType::SemiColon, 1),
            Token::new(TokenType::RightBrace, 1),
        ])
        .unwrap(),
        vec![
            stmt::new_while(
                expr::new_binary(
                    expr::new_variable("counter", 1),
                    Token::new(TokenType::Less, 1),
                    expr::Expr::Number(num(10.0))
                ),
                stmt::new_block(vec![
                    stmt::new_block(vec![
                        stmt::new_print(vec![
                            expr::new_variable("counter", 1)
                        ])
                    ]),
                    stmt::new_expr(
                        expr::new_assignment("counter", 1,
                            expr::new_binary(
                                expr::new_variable("counter", 1), 
                                Token::new(TokenType::Plus, 1),
                                expr::Expr::Number(num(1.0))
                            )
                        )
                    )
                ])
            )
        ]
    );
}

#[test]
fn test_for_2() {
    assert_eq!(
        parse(&vec![
            Token::new(TokenType::For, 1),
            Token::new(TokenType::LeftParen, 1),

            Token::new(TokenType::Var, 1),
            Token::new(TokenType::Identifier("counter".to_owned()), 1),
            Token::new(TokenType::Equal, 1),
            Token::new(TokenType::Number(num(0.0)), 1),
            Token::new(TokenType::SemiColon, 1),

            Token::new(TokenType::SemiColon, 1),

            Token::new(TokenType::Identifier("counter".to_owned()), 1),
            Token::new(TokenType::Equal, 1),
            Token::new(TokenType::Identifier("counter".to_owned()), 1),
            Token::new(TokenType::Plus, 1),
            Token::new(TokenType::Number(num(1.0)), 1),

            Token::new(TokenType::RightParen, 1),

            Token::new(TokenType::LeftBrace, 1),
            Token::new(TokenType::Print, 1),
            Token::new(TokenType::Identifier("counter".to_owned()), 1),
            Token::new(TokenType::SemiColon, 1),
            Token::new(TokenType::RightBrace, 1),
        ])
        .unwrap(),
        vec![
            stmt::new_block(vec![
                stmt::new_var("counter", 1, expr::Expr::Number(num(0.0))),
                stmt::new_while(
                    expr::Expr::Bool(true),
                    stmt::new_block(vec![
                        stmt::new_block(vec![
                            stmt::new_print(vec![
                                expr::new_variable("counter", 1)
                            ])
                        ]),
                        stmt::new_expr(
                            expr::new_assignment("counter", 1,
                                expr::new_binary(
                                    expr::new_variable("counter", 1), 
                                    Token::new(TokenType::Plus, 1),
                                    expr::Expr::Number(num(1.0))
                                )
                            )
                        )
                    ])
                )
            ])
        ]
    );
}

#[test]
fn test_for_3() {
    assert_eq!(
        parse(&vec![
            Token::new(TokenType::For, 1),
            Token::new(TokenType::LeftParen, 1),

            Token::new(TokenType::Var, 1),
            Token::new(TokenType::Identifier("counter".to_owned()), 1),
            Token::new(TokenType::Equal, 1),
            Token::new(TokenType::Number(num(0.0)), 1),
            Token::new(TokenType::SemiColon, 1),


            Token::new(TokenType::Identifier("counter".to_owned()), 1),
            Token::new(TokenType::Less, 1),
            Token::new(TokenType::Number(num(10.0)), 1),
            Token::new(TokenType::SemiColon, 1),

            Token::new(TokenType::RightParen, 1),

            Token::new(TokenType::LeftBrace, 1),
            Token::new(TokenType::Print, 1),
            Token::new(TokenType::Identifier("counter".to_owned()), 1),
            Token::new(TokenType::SemiColon, 1),
            Token::new(TokenType::RightBrace, 1),
        ])
        .unwrap(),
        vec![
            stmt::new_block(vec![
                stmt::new_var("counter", 1, expr::Expr::Number(num(0.0))),
                stmt::new_while(
                    expr::new_binary(
                        expr::new_variable("counter", 1),
                        Token::new(TokenType::Less, 1),
                        expr::Expr::Number(num(10.0))
                    ),
                    stmt::new_block(vec![
                        stmt::new_print(vec![
                            expr::new_variable("counter", 1)
                        ])
                    ])
                )
            ])
        ]
    );
}

#[test]
fn test_for_4() {
    assert_eq!(
        parse(&vec![
            Token::new(TokenType::For, 1),
            Token::new(TokenType::LeftParen, 1),

            Token::new(TokenType::SemiColon, 1),
            Token::new(TokenType::SemiColon, 1),
            Token::new(TokenType::RightParen, 1),

            Token::new(TokenType::LeftBrace, 1),
            Token::new(TokenType::Print, 1),
            Token::new(TokenType::Identifier("counter".to_owned()), 1),
            Token::new(TokenType::SemiColon, 1),
            Token::new(TokenType::RightBrace, 1),
        ])
        .unwrap(),
        vec![
            stmt::new_while(
                expr::Expr::Bool(true),
                stmt::new_block(vec![
                    stmt::new_print(vec![
                        expr::new_variable("counter", 1)
                    ])
                ])
            )
        ]
    );
}

#[test]
fn test_call() {
    assert_eq!(
        parse(&vec![
            Token::new(TokenType::Identifier("MyFunction".to_owned()), 1),
            Token::new(TokenType::LeftParen, 1),
            Token::new(TokenType::Number(num(10.0)), 1),
            Token::new(TokenType::Comma, 1),
            Token::new(TokenType::Str("Arg".to_owned()), 1),
            Token::new(TokenType::Comma, 1),
            Token::new(TokenType::True, 1),
            Token::new(TokenType::RightParen, 1),
            Token::new(TokenType::SemiColon, 1),
        ])
        .unwrap(),
        vec![
            stmt::new_expr(
                expr::new_call(
                    expr::new_variable("MyFunction", 1),
                    1,
                    vec![
                        Box::new(expr::Expr::Number(num(10.0))),
                        Box::new(expr::Expr::Str("Arg".to_owned())),
                        Box::new(expr::Expr::Bool(true))
                    ]
                )
            )
        ]
    );
}

#[test]
fn test_function() {
    assert_eq!(
        parse(&vec![
            Token::new(TokenType::Fun, 1),
            Token::new(TokenType::Identifier("MyFunction".to_owned()), 1),
            Token::new(TokenType::LeftParen, 1),
            Token::new(TokenType::Identifier("First".to_owned()), 1),
            Token::new(TokenType::Comma, 1),
            Token::new(TokenType::Identifier("Second".to_owned()), 1),
            Token::new(TokenType::Comma, 1),
            Token::new(TokenType::Identifier("Third".to_owned()), 1),
            Token::new(TokenType::RightParen, 1),

            Token::new(TokenType::LeftBrace, 1),
            Token::new(TokenType::Print, 1),
            Token::new(TokenType::Identifier("counter".to_owned()), 1),
            Token::new(TokenType::SemiColon, 1),
            Token::new(TokenType::RightBrace, 1),
        ])
        .unwrap(),
        vec![
            stmt::new_function(
                "MyFunction".to_owned(),
                vec![
                    "First".to_owned(),
                    "Second".to_owned(),
                    "Third".to_owned()
                ],
                vec![
                    stmt::new_print(vec![
                        expr::new_variable("counter", 1)
                    ])
                ],
                1
            ),
        ]
    );
}

fn parse_source(source: &str) -> Result<Vec<stmt::Stmt>, Vec<String>> {
    parse(&lox::scanner::scan(source).unwrap())
}

fn error_of(source: &str) -> String {
    let errors = parse_source(source).unwrap_err();
    assert_eq!(errors.len(), 1);
    errors[0].clone()
}

#[test]
fn every_error_has_its_message() {
    assert_eq!(error_of("1 +"), "Expected primary expression, found EOF at line 1");
    assert_eq!(error_of("1 + ;"), "Expected primary expression, found ; at line 1");
    assert_eq!(error_of("(1 + 2;"), "Expected ')' but found ; at line 1");
    assert_eq!(error_of("1 2;"), "Line 1 at 'number': Expected ';' after expression");
    assert_eq!(error_of("1 = 2;"), "Invalid assignment target");
    assert_eq!(error_of("var 1 = 2;"), "Expected identifier after 'var'");
    assert_eq!(error_of("var a 2;"), "Line 1 at 'number': Expected '=' after var identifier");
    assert_eq!(error_of("var a = 2"), "Line 1 at 'EOF': Expected ';' after print statement");
    assert_eq!(error_of("print 1"), "Line 1 at 'EOF': Expected ';' after print statement");
    assert_eq!(error_of("if 1"), "Line 1 at 'number': Expected '(' after if");
    assert_eq!(error_of("if (1 2"), "Line 1 at 'number': Expected ')' after if condition");
    assert_eq!(error_of("while 1"), "Line 1 at 'number': Expected '(' after while statement");
    assert_eq!(error_of("while (1;"), "Line 1 at ';': Expected ')' after while statement");
    assert_eq!(error_of("for 1"), "Line 1 at 'number': Expected '(' after for statement");
    assert_eq!(error_of("for (;1)"), "Line 1 at ')': Expected ';' after for condition");
    assert_eq!(error_of("for (;;1;"), "Line 1 at ';': Expected ')' after for loop expr");
    assert_eq!(error_of("fun 1"), "Expected identifier after 'fun', found number");
    assert_eq!(error_of("fun f 1"), "Line 1 at 'number': Expected '(' after function name");
    assert_eq!(error_of("fun f(1"), "Expected identifier after 'fun', found number");
    assert_eq!(error_of("fun f(a b"), "Line 1 at 'b': Expected ')' after function parameters");
    assert_eq!(error_of("fun f(a) 1"), "Line 1 at 'number': Expected '{' after function parameters");
    assert_eq!(error_of("f(1 2)"), "Line 1 at 'number': Expected ')' after function call arguments");
    assert_eq!(error_of("return 1"), "Line 1 at 'EOF': Expected ';' after expression");
    assert_eq!(error_of("\n\n{ 1;"), "Expected primary expression, found EOF at line 3");
}

#[test]
fn errors_at_the_end_of_the_tokens() {
    let tokens = |kinds: Vec<TokenType>| -> Vec<Token> {
        kinds.into_iter().map(|k| Token::new(k, 1)).collect()
    };
    let error = |kinds: Vec<TokenType>| -> String { parse(&tokens(kinds)).unwrap_err()[0].clone() };
    assert_eq!(error(vec![TokenType::Bang]), "Expected primary expression, found EOF");
    assert_eq!(
        error(vec![TokenType::LeftParen, TokenType::True]),
        "Expected ')' but found EOF"
    );
    assert_eq!(error(vec![TokenType::True]), "At EOF: Expected ';' after expression");
    assert_eq!(error(vec![TokenType::Var]), "Expected identifier after 'var'");
    assert_eq!(error(vec![TokenType::Fun]), "Expected identifer after 'fun', found EOF");
    assert_eq!(
        error(vec![TokenType::LeftBrace]),
        "Expected primary expression, found EOF"
    );
}

#[test]
fn operators_bind_as_the_grammar_says() {
    assert_eq!(
        parse_source("a = b = 1 and 2 < 3 or 4 + 5 * -6;").unwrap(),
        parse_source("a = (b = ((1 and (2 < 3)) or (4 + (5 * (-6)))));")
            .map(strip)
            .unwrap()
    );
    assert_eq!(
        parse_source("1 == 2 and 3 > 4;").unwrap(),
        parse_source("((1 == 2) and (3 > 4));").map(strip).unwrap()
    );
    assert_eq!(
        parse_source("1 or 2 == 3;").unwrap(),
        vec![stmt::new_expr(expr::new_binary(
            expr::Expr::Number(num(1.0)),
            Token::new(TokenType::Or, 1),
            expr::new_binary(
                expr::Expr::Number(num(2.0)),
                Token::new(TokenType::EqualEqual, 1),
                expr::Expr::Number(num(3.0))
            )
        ))]
    );
    assert_eq!(
        parse_source("1 or 2 and 3 == 4;").unwrap(),
        parse_source("(1 or (2 and (3 == 4)));").map(strip).unwrap()
    );
    assert_eq!(
        parse_source("1 and 2 == 3;").unwrap(),
        parse_source("(1 and (2 == 3));").map(strip).unwrap()
    );
    assert!(parse_source("1 == 2 == 3;").is_err());
    assert_eq!(
        parse_source("1 - 2 - 3;").unwrap(),
        vec![stmt::new_expr(expr::new_binary(
            expr::new_binary(
                expr::Expr::Number(num(1.0)),
                Token::new(TokenType::Minus, 1),
                expr::Expr::Number(num(2.0))
            ),
            Token::new(TokenType::Minus, 1),
            expr::Expr::Number(num(3.0))
        ))]
    );
    assert!(parse_source("1 < 2 < 3;").is_err());
}

fn strip(statements: Vec<stmt::Stmt>) -> Vec<stmt::Stmt> {
    statements.into_iter().map(strip_stmt).collect()
}

fn strip_stmt(statement: stmt::Stmt) -> stmt::Stmt {
    match statement {
        stmt::Stmt::Expr(e) => stmt::Stmt::Expr(strip_expr(e)),
        other => other,
    }
}

fn strip_expr(e: expr::Expr) -> expr::Expr {
    match e {
        expr::Expr::Grouping(inner) => strip_expr(*inner),
        expr::Expr::Binary(b) => expr::new_binary(strip_expr(*b.left), b.operator, strip_expr(*b.right)),
        expr::Expr::UnaryNegate(inner) => expr::new_unary_negate(strip_expr(*inner)),
        expr::Expr::Assignment(a) => expr::new_assignment(&a.target, a.line, strip_expr(*a.expr)),
        other => other,
    }
}

#[test]
fn parsing_stops_at_the_end_of_the_input() {
    assert_eq!(parse_source("").unwrap(), vec![]);
    let tokens = vec![
        Token::new(TokenType::Eof, 1),
        Token::new(TokenType::Star, 1),
    ];
    assert_eq!(parse(&tokens).unwrap(), vec![]);
}

#[test]
fn a_call_keeps_the_line_of_its_parenthesis() {
    assert_eq!(
        parse_source("f\n(\n)\n;").unwrap(),
        vec![stmt::new_expr(expr::new_call(expr::new_variable("f", 1), 2, vec![]))]
    );
}

#[test]
fn arity_counts_the_parameters() {
    match &parse_source("fun f(a, b, c) {}").unwrap()[0] {
        stmt::Stmt::Function(function) => assert_eq!(function.arity(), 3),
        other => panic!("not a function: {:?}", other),
    }
}

#[test]
fn the_result_of_a_call_can_be_called() {
    assert_eq!(
        parse_source("f()();").unwrap(),
        vec![stmt::new_expr(expr::new_call(
            expr::new_call(expr::new_variable("f", 1), 1, vec![]),
            1,
            vec![]
        ))]
    );
    assert_eq!(
        parse_source("f(1)\n(2, g())\n();").unwrap(),
        vec![stmt::new_expr(expr::new_call(
            expr::new_call(
                expr::new_call(
                    expr::new_variable("f", 1),
                    1,
                    vec![Box::new(expr::Expr::Number(num(1.0)))]
                ),
                2,
                vec![
                    Box::new(expr::Expr::Number(num(2.0))),
                    Box::new(expr::new_call(expr::new_variable("g", 2), 2, vec![]))
                ]
            ),
            3,
            vec![]
        ))]
    );
    assert_eq!(
        error_of("f()(1;"),
        "Line 1 at ';': Expected ')' after function call arguments"
    );
}
