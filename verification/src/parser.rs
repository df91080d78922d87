//! The parser: from tokens to statements, by recursive descent.
//!
//! The grammar is written down as the functions `*_spec`, one for each rule;
//! [`parse`] and the methods of [`Parser`] compute what they say.

use crate::expr::{
    boxed_exprs_view, exprs_view, lemma_boxed_exprs_push, lemma_exprs_push, new_assignment,
    new_binary, new_call, new_grouping, new_logical_not, new_unary_negate, new_variable, Expr,
    ExprView,
};
use crate::stmt::{
    desugar_spec, lemma_stmts_push, new_block, new_expr, new_function, new_if, new_print,
    new_return, new_var, new_while, stmts_view, For, ForView, FunctionView, Stmt, StmtView,
};
use crate::text::{append, append_decimal, copy_string, decimal, strings_view};
use crate::token::{token_text, tokens_view, Token, TokenType, TokenTypeView, TokenView};
use vstd::prelude::*;

verus! {

/// What a rule has read: the tree, and how many tokens it took after the
/// first. A rule that succeeds takes at least one token.
pub struct Parsed<T> {
    pub value: T,
    pub more: nat,
}

/// The outcome of a rule: what it has read, or the message of the first error.
pub type ParseResult<T> = Result<Parsed<T>, Seq<char>>;

/// The position after what `p` has read from `start` on.
pub open spec fn end_of<T>(start: int, p: Parsed<T>) -> int {
    start + 1 + p.more
}

/// The outcome of a rule that has read `value` from `start` up to `end`.
pub open spec fn done<T>(value: T, start: int, end: int) -> ParseResult<T> {
    Ok(Parsed { value, more: (end - start - 1) as nat })
}

/// How many tokens are left at `pos`.
pub open spec fn remaining(tokens: Seq<TokenView>, pos: int) -> nat {
    if pos < tokens.len() {
        (tokens.len() - pos) as nat
    } else {
        0
    }
}

/// Whether the token at `pos` exists and is of the given kind.
pub open spec fn check_spec(tokens: Seq<TokenView>, pos: int, kind: TokenTypeView) -> bool {
    0 <= pos < tokens.len() && tokens[pos].token_type == kind
}

/// The message for a token that is not the expected one.
pub open spec fn at_token_message(token: TokenView, message: Seq<char>) -> Seq<char> {
    "Line "@ + decimal(token.line as nat) + " at '"@ + token_text(token.token_type) + "': "@
        + message
}

/// The message for an input that ends where a token is expected.
pub open spec fn at_eof_message(message: Seq<char>) -> Seq<char> {
    "At EOF: "@ + message
}

/// The error of expecting `kind` at `pos`, if the token there is another or
/// none.
pub open spec fn consume_spec(
    tokens: Seq<TokenView>,
    pos: int,
    kind: TokenTypeView,
    message: Seq<char>,
) -> Option<Seq<char>> {
    if check_spec(tokens, pos, kind) {
        None
    } else if 0 <= pos < tokens.len() {
        Some(at_token_message(tokens[pos], message))
    } else {
        Some(at_eof_message(message))
    }
}

/// The message of `primary` for a token that starts no expression.
pub open spec fn primary_message(token: TokenView) -> Seq<char> {
    "Expected primary expression, found "@ + token_text(token.token_type) + " at line "@ + decimal(
        token.line as nat,
    )
}

/// The message of `grouping` for a token that is not the closing parenthesis.
pub open spec fn grouping_message(token: TokenView) -> Seq<char> {
    "Expected ')' but found "@ + token_text(token.token_type) + " at line "@ + decimal(
        token.line as nat,
    )
}

/// The message of a function declaration for a token that is not a name.
pub open spec fn function_name_message(token: TokenView) -> Seq<char> {
    "Expected identifier after 'fun', found "@ + token_text(token.token_type)
}

/// `primary`: a literal, a name, or an expression in parentheses.
#[verifier::opaque]
pub open spec fn primary_spec(tokens: Seq<TokenView>, pos: int) -> ParseResult<ExprView>
    decreases remaining(tokens, pos), 0nat,
{
    if 0 <= pos < tokens.len() {
        let token = tokens[pos];
        match token.token_type {
            TokenTypeView::True => done(ExprView::Bool(true), pos, pos + 1),
            TokenTypeView::False => done(ExprView::Bool(false), pos, pos + 1),
            TokenTypeView::Nil => done(ExprView::Nil, pos, pos + 1),
            TokenTypeView::Number(value) => done(ExprView::Number(value), pos, pos + 1),
            TokenTypeView::Str(text) => done(ExprView::Str(text), pos, pos + 1),
            TokenTypeView::LeftParen => match grouping_spec(tokens, pos + 1) {
                Ok(inner) => done(inner.value, pos, end_of(pos + 1, inner)),
                Err(e) => Err(e),
            },
            TokenTypeView::Identifier(name) => done(
                ExprView::Variable { name, line: token.line, slot: None },
                pos,
                pos + 1,
            ),
            _ => Err(primary_message(token)),
        }
    } else {
        Err("Expected primary expression, found EOF"@)
    }
}

/// `grouping`: an expression and the closing parenthesis, after the opening one.
#[verifier::opaque]
pub open spec fn grouping_spec(tokens: Seq<TokenView>, pos: int) -> ParseResult<ExprView>
    decreases remaining(tokens, pos), 11nat,
{
    match expression_spec(tokens, pos) {
        Ok(inner) => {
            let close = end_of(pos, inner);
            if check_spec(tokens, close, TokenTypeView::RightParen) {
                done(ExprView::Grouping(Box::new(inner.value)), pos, close + 1)
            } else if 0 <= close < tokens.len() {
                Err(grouping_message(tokens[close]))
            } else {
                Err("Expected ')' but found EOF"@)
            }
        },
        Err(e) => Err(e),
    }
}

/// The arguments of a call from `pos` on, after those in `seen`: expressions
/// with commas between them. `start` is where the first argument began.
#[verifier::opaque]
pub open spec fn arguments_spec(
    tokens: Seq<TokenView>,
    start: int,
    pos: int,
    seen: Seq<ExprView>,
) -> ParseResult<Seq<ExprView>>
    decreases remaining(tokens, pos), 11nat,
{
    match expression_spec(tokens, pos) {
        Ok(argument) => {
            let end = end_of(pos, argument);
            if check_spec(tokens, end, TokenTypeView::Comma) {
                arguments_spec(tokens, start, end + 1, seen.push(argument.value))
            } else {
                done(seen.push(argument.value), start, end)
            }
        },
        Err(e) => Err(e),
    }
}

/// The arguments of a call once those in `seen` are read and `pos` is reached:
/// after a comma the further ones, else `seen`.
pub open spec fn arguments_spec_after(
    tokens: Seq<TokenView>,
    start: int,
    pos: int,
    seen: Seq<ExprView>,
) -> ParseResult<Seq<ExprView>> {
    if check_spec(tokens, pos, TokenTypeView::Comma) {
        arguments_spec(tokens, start, pos + 1, seen)
    } else {
        done(seen, start, pos)
    }
}

/// The arguments of one call, at `pos`, after the opening parenthesis: the
/// closing one at once, or one or more arguments and then the closing one.
#[verifier::opaque]
pub open spec fn argument_list_spec(tokens: Seq<TokenView>, pos: int) -> ParseResult<
    Seq<ExprView>,
>
    decreases remaining(tokens, pos), 12nat,
{
    if check_spec(tokens, pos, TokenTypeView::RightParen) {
        done(Seq::empty(), pos, pos + 1)
    } else {
        match arguments_spec(tokens, pos, pos, Seq::empty()) {
            Ok(arguments) => {
                let close = end_of(pos, arguments);
                match consume_spec(
                    tokens,
                    close,
                    TokenTypeView::RightParen,
                    "Expected ')' after function call arguments"@,
                ) {
                    None => done(arguments.value, pos, close + 1),
                    Some(e) => Err(e),
                }
            },
            Err(e) => Err(e),
        }
    }
}

/// What follows the callee of a call: as long as a parenthesis opens, the
/// arguments of a call of what was read so far, so that the result of a call
/// can be called in turn. Each call has the line of its own parenthesis.
/// `start` is where the callee began.
#[verifier::opaque]
pub open spec fn call_rest_spec(
    tokens: Seq<TokenView>,
    start: int,
    pos: int,
    callee: ExprView,
) -> ParseResult<ExprView>
    decreases remaining(tokens, pos), 0nat,
{
    if check_spec(tokens, pos, TokenTypeView::LeftParen) {
        match argument_list_spec(tokens, pos + 1) {
            Ok(arguments) => call_rest_spec(
                tokens,
                start,
                end_of(pos + 1, arguments),
                ExprView::Call {
                    callee: Box::new(callee),
                    line: tokens[pos].line,
                    arguments: arguments.value,
                },
            ),
            Err(e) => Err(e),
        }
    } else {
        done(callee, start, pos)
    }
}

/// `call`: a primary expression, and after it any number of argument lists in
/// parentheses.
#[verifier::opaque]
pub open spec fn call_spec(tokens: Seq<TokenView>, pos: int) -> ParseResult<ExprView>
    decreases remaining(tokens, pos), 1nat,
{
    match primary_spec(tokens, pos) {
        Ok(callee) => call_rest_spec(tokens, pos, end_of(pos, callee), callee.value),
        Err(e) => Err(e),
    }
}

/// `unary`: any number of `!` and `-` before a call.
#[verifier::opaque]
pub open spec fn unary_spec(tokens: Seq<TokenView>, pos: int) -> ParseResult<ExprView>
    decreases remaining(tokens, pos), 2nat,
{
    if check_spec(tokens, pos, TokenTypeView::Bang) {
        match unary_spec(tokens, pos + 1) {
            Ok(inner) => done(
                ExprView::LogicalNot(Box::new(inner.value)),
                pos,
                end_of(pos + 1, inner),
            ),
            Err(e) => Err(e),
        }
    } else if check_spec(tokens, pos, TokenTypeView::Minus) {
        match unary_spec(tokens, pos + 1) {
            Ok(inner) => done(
                ExprView::UnaryNegate(Box::new(inner.value)),
                pos,
                end_of(pos + 1, inner),
            ),
            Err(e) => Err(e),
        }
    } else {
        call_spec(tokens, pos)
    }
}

/// `left operator right`, with the token at `pos` as the operator.
pub open spec fn binary_of(
    left: ExprView,
    tokens: Seq<TokenView>,
    pos: int,
    right: ExprView,
) -> ExprView {
    ExprView::Binary { left: Box::new(left), operator: tokens[pos], right: Box::new(right) }
}

/// What follows the first operand of `factor`: any number of `/` or `*` and a
/// further operand, grouped to the left. `start` is where the factor began.
#[verifier::opaque]
pub open spec fn factor_rest_spec(
    tokens: Seq<TokenView>,
    start: int,
    pos: int,
    left: ExprView,
) -> ParseResult<ExprView>
    decreases remaining(tokens, pos), 0nat,
{
    if check_spec(tokens, pos, TokenTypeView::Slash) || check_spec(
        tokens,
        pos,
        TokenTypeView::Star,
    ) {
        match unary_spec(tokens, pos + 1) {
            Ok(right) => factor_rest_spec(
                tokens,
                start,
                end_of(pos + 1, right),
                binary_of(left, tokens, pos, right.value),
            ),
            Err(e) => Err(e),
        }
    } else {
        done(left, start, pos)
    }
}

/// `factor`: unary expressions with `/` or `*` between them.
#[verifier::opaque]
pub open spec fn factor_spec(tokens: Seq<TokenView>, pos: int) -> ParseResult<ExprView>
    decreases remaining(tokens, pos), 3nat,
{
    match unary_spec(tokens, pos) {
        Ok(first) => factor_rest_spec(tokens, pos, end_of(pos, first), first.value),
        Err(e) => Err(e),
    }
}

/// What follows the first operand of `term`: any number of `-` or `+` and a
/// further operand, grouped to the left. `start` is where the term began.
#[verifier::opaque]
pub open spec fn term_rest_spec(
    tokens: Seq<TokenView>,
    start: int,
    pos: int,
    left: ExprView,
) -> ParseResult<ExprView>
    decreases remaining(tokens, pos), 0nat,
{
    if check_spec(tokens, pos, TokenTypeView::Minus) || check_spec(
        tokens,
        pos,
        TokenTypeView::Plus,
    ) {
        match factor_spec(tokens, pos + 1) {
            Ok(right) => term_rest_spec(
                tokens,
                start,
                end_of(pos + 1, right),
                binary_of(left, tokens, pos, right.value),
            ),
            Err(e) => Err(e),
        }
    } else {
        done(left, start, pos)
    }
}

/// `term`: factors with `-` or `+` between them.
#[verifier::opaque]
pub open spec fn term_spec(tokens: Seq<TokenView>, pos: int) -> ParseResult<ExprView>
    decreases remaining(tokens, pos), 4nat,
{
    match factor_spec(tokens, pos) {
        Ok(first) => term_rest_spec(tokens, pos, end_of(pos, first), first.value),
        Err(e) => Err(e),
    }
}

/// `comparison`: a term, or two terms with `<`, `<=`, `>` or `>=` between them.
#[verifier::opaque]
pub open spec fn comparison_spec(tokens: Seq<TokenView>, pos: int) -> ParseResult<ExprView>
    decreases remaining(tokens, pos), 5nat,
{
    match term_spec(tokens, pos) {
        Ok(left) => {
            let at = end_of(pos, left);
            if check_spec(tokens, at, TokenTypeView::Less) || check_spec(
                tokens,
                at,
                TokenTypeView::LessEqual,
            ) || check_spec(tokens, at, TokenTypeView::Greater) || check_spec(
                tokens,
                at,
                TokenTypeView::GreaterEqual,
            ) {
                match term_spec(tokens, at + 1) {
                    Ok(right) => done(
                        binary_of(left.value, tokens, at, right.value),
                        pos,
                        end_of(at + 1, right),
                    ),
                    Err(e) => Err(e),
                }
            } else {
                Ok(left)
            }
        },
        Err(e) => Err(e),
    }
}

/// `equality`: a comparison, or two with `==` or `!=` between them.
#[verifier::opaque]
pub open spec fn equality_spec(tokens: Seq<TokenView>, pos: int) -> ParseResult<ExprView>
    decreases remaining(tokens, pos), 6nat,
{
    match comparison_spec(tokens, pos) {
        Ok(left) => {
            let at = end_of(pos, left);
            if check_spec(tokens, at, TokenTypeView::EqualEqual) || check_spec(
                tokens,
                at,
                TokenTypeView::BangEqual,
            ) {
                match comparison_spec(tokens, at + 1) {
                    Ok(right) => done(
                        binary_of(left.value, tokens, at, right.value),
                        pos,
                        end_of(at + 1, right),
                    ),
                    Err(e) => Err(e),
                }
            } else {
                Ok(left)
            }
        },
        Err(e) => Err(e),
    }
}

/// `logical_and`: an equality, or two with `and` between them.
#[verifier::opaque]
pub open spec fn logical_and_spec(tokens: Seq<TokenView>, pos: int) -> ParseResult<ExprView>
    decreases remaining(tokens, pos), 7nat,
{
    match equality_spec(tokens, pos) {
        Ok(left) => {
            let at = end_of(pos, left);
            if check_spec(tokens, at, TokenTypeView::And) {
                match equality_spec(tokens, at + 1) {
                    Ok(right) => done(
                        binary_of(left.value, tokens, at, right.value),
                        pos,
                        end_of(at + 1, right),
                    ),
                    Err(e) => Err(e),
                }
            } else {
                Ok(left)
            }
        },
        Err(e) => Err(e),
    }
}

/// `logical_or`: a `logical_and`, or two with `or` between them.
#[verifier::opaque]
pub open spec fn logical_or_spec(tokens: Seq<TokenView>, pos: int) -> ParseResult<ExprView>
    decreases remaining(tokens, pos), 8nat,
{
    match logical_and_spec(tokens, pos) {
        Ok(left) => {
            let at = end_of(pos, left);
            if check_spec(tokens, at, TokenTypeView::Or) {
                match logical_and_spec(tokens, at + 1) {
                    Ok(right) => done(
                        binary_of(left.value, tokens, at, right.value),
                        pos,
                        end_of(at + 1, right),
                    ),
                    Err(e) => Err(e),
                }
            } else {
                Ok(left)
            }
        },
        Err(e) => Err(e),
    }
}

/// `assignment`: a `logical_or`, or a variable, `=`, and an expression. What
/// stands before `=` must be a variable; the check comes before the right side
/// is read.
#[verifier::opaque]
pub open spec fn assignment_spec(tokens: Seq<TokenView>, pos: int) -> ParseResult<ExprView>
    decreases remaining(tokens, pos), 9nat,
{
    match logical_or_spec(tokens, pos) {
        Ok(left) => {
            let at = end_of(pos, left);
            if check_spec(tokens, at, TokenTypeView::Equal) {
                match left.value {
                    ExprView::Variable { name, line, slot } => match expression_spec(
                        tokens,
                        at + 1,
                    ) {
                        Ok(right) => done(
                            ExprView::Assignment {
                                target: name,
                                line,
                                value: Box::new(right.value),
                                slot: None,
                            },
                            pos,
                            end_of(at + 1, right),
                        ),
                        Err(e) => Err(e),
                    },
                    _ => Err("Invalid assignment target"@),
                }
            } else {
                Ok(left)
            }
        },
        Err(e) => Err(e),
    }
}

/// `expression`: an assignment.
#[verifier::opaque]
pub open spec fn expression_spec(tokens: Seq<TokenView>, pos: int) -> ParseResult<ExprView>
    decreases remaining(tokens, pos), 10nat,
{
    assignment_spec(tokens, pos)
}

/// `expr_stmt`: an expression and `;`.
#[verifier::opaque]
pub open spec fn expr_stmt_spec(tokens: Seq<TokenView>, pos: int) -> ParseResult<StmtView>
    decreases remaining(tokens, pos), 12nat,
{
    match expression_spec(tokens, pos) {
        Ok(e) => {
            let end = end_of(pos, e);
            match consume_spec(
                tokens,
                end,
                TokenTypeView::SemiColon,
                "Expected ';' after expression"@,
            ) {
                None => done(StmtView::Expr(e.value), pos, end + 1),
                Some(m) => Err(m),
            }
        },
        Err(m) => Err(m),
    }
}

/// `return_stmt`: an expression and `;`, after `return`.
#[verifier::opaque]
pub open spec fn return_stmt_spec(tokens: Seq<TokenView>, pos: int) -> ParseResult<StmtView>
    decreases remaining(tokens, pos), 12nat,
{
    match expression_spec(tokens, pos) {
        Ok(e) => {
            let end = end_of(pos, e);
            match consume_spec(
                tokens,
                end,
                TokenTypeView::SemiColon,
                "Expected ';' after expression"@,
            ) {
                None => done(StmtView::Return(e.value), pos, end + 1),
                Some(m) => Err(m),
            }
        },
        Err(m) => Err(m),
    }
}

/// What is printed once the expressions in `seen` are read and `pos` is
/// reached: after a comma the further ones, else `seen`, closed by `;`.
pub open spec fn print_after_spec(
    tokens: Seq<TokenView>,
    start: int,
    pos: int,
    seen: Seq<ExprView>,
) -> ParseResult<StmtView> {
    if check_spec(tokens, pos, TokenTypeView::Comma) {
        print_rest_spec(tokens, start, pos + 1, seen)
    } else {
        match consume_spec(
            tokens,
            pos,
            TokenTypeView::SemiColon,
            "Expected ';' after print statement"@,
        ) {
            None => done(StmtView::Print(seen), start, pos + 1),
            Some(m) => Err(m),
        }
    }
}

/// The expressions of a `print` from `pos` on, after those in `seen`, with
/// commas between them and `;` after the last. `start` is where the first
/// began.
#[verifier::opaque]
pub open spec fn print_rest_spec(
    tokens: Seq<TokenView>,
    start: int,
    pos: int,
    seen: Seq<ExprView>,
) -> ParseResult<StmtView>
    decreases remaining(tokens, pos), 12nat,
{
    match expression_spec(tokens, pos) {
        Ok(e) => {
            let end = end_of(pos, e);
            if check_spec(tokens, end, TokenTypeView::Comma) {
                print_rest_spec(tokens, start, end + 1, seen.push(e.value))
            } else {
                match consume_spec(
                    tokens,
                    end,
                    TokenTypeView::SemiColon,
                    "Expected ';' after print statement"@,
                ) {
                    None => done(StmtView::Print(seen.push(e.value)), start, end + 1),
                    Some(m) => Err(m),
                }
            }
        },
        Err(m) => Err(m),
    }
}

/// `print_stmt`: one or more expressions with commas between them, and `;`,
/// after `print`.
pub open spec fn print_stmt_spec(tokens: Seq<TokenView>, pos: int) -> ParseResult<StmtView> {
    print_rest_spec(tokens, pos, pos, Seq::empty())
}

/// `if_stmt`: a condition in parentheses, a statement, and after `else`, if it
/// follows, another statement; after `if`.
#[verifier::opaque]
pub open spec fn if_stmt_spec(tokens: Seq<TokenView>, pos: int) -> ParseResult<StmtView>
    decreases remaining(tokens, pos), 12nat,
{
    match consume_spec(tokens, pos, TokenTypeView::LeftParen, "Expected '(' after if"@) {
        Some(m) => Err(m),
        None => match expression_spec(tokens, pos + 1) {
            Err(m) => Err(m),
            Ok(condition) => {
                let close = end_of(pos + 1, condition);
                match consume_spec(
                    tokens,
                    close,
                    TokenTypeView::RightParen,
                    "Expected ')' after if condition"@,
                ) {
                    Some(m) => Err(m),
                    None => match statement_spec(tokens, close + 1) {
                        Err(m) => Err(m),
                        Ok(true_branch) => {
                            let after = end_of(close + 1, true_branch);
                            if check_spec(tokens, after, TokenTypeView::Else) {
                                match statement_spec(tokens, after + 1) {
                                    Err(m) => Err(m),
                                    Ok(else_branch) => done(
                                        StmtView::If {
                                            condition: condition.value,
                                            true_branch: Box::new(true_branch.value),
                                            else_branch: Some(Box::new(else_branch.value)),
                                        },
                                        pos,
                                        end_of(after + 1, else_branch),
                                    ),
                                }
                            } else {
                                done(
                                    StmtView::If {
                                        condition: condition.value,
                                        true_branch: Box::new(true_branch.value),
                                        else_branch: None,
                                    },
                                    pos,
                                    after,
                                )
                            }
                        },
                    },
                }
            },
        },
    }
}

/// The statements of a block from `pos` on, after those in `seen`, up to the
/// closing brace. `start` is where the first began. An input that ends inside
/// the block ends where a statement, and so an expression, is expected.
#[verifier::opaque]
pub open spec fn block_rest_spec(
    tokens: Seq<TokenView>,
    start: int,
    pos: int,
    seen: Seq<StmtView>,
) -> ParseResult<Seq<StmtView>>
    decreases remaining(tokens, pos), 14nat,
{
    if pos >= tokens.len() {
        Err("Expected primary expression, found EOF"@)
    } else if check_spec(tokens, pos, TokenTypeView::RightBrace) {
        done(seen, start, pos + 1)
    } else {
        match statement_spec(tokens, pos) {
            Err(m) => Err(m),
            Ok(s) => block_rest_spec(tokens, start, end_of(pos, s), seen.push(s.value)),
        }
    }
}

/// `block_stmt`: statements and the closing brace, after the opening one.
pub open spec fn block_stmt_spec(tokens: Seq<TokenView>, pos: int) -> ParseResult<StmtView>
    decreases remaining(tokens, pos), 15nat,
{
    match block_rest_spec(tokens, pos, pos, Seq::empty()) {
        Err(m) => Err(m),
        Ok(b) => Ok(Parsed { value: StmtView::Block(b.value), more: b.more }),
    }
}

/// `var_stmt`: a name, `=`, an expression, and `;`, after `var`.
#[verifier::opaque]
pub open spec fn var_stmt_spec(tokens: Seq<TokenView>, pos: int) -> ParseResult<StmtView>
    decreases remaining(tokens, pos), 12nat,
{
    if 0 <= pos < tokens.len() && tokens[pos].token_type is Identifier {
        match consume_spec(
            tokens,
            pos + 1,
            TokenTypeView::Equal,
            "Expected '=' after var identifier"@,
        ) {
            Some(m) => Err(m),
            None => match expression_spec(tokens, pos + 2) {
                Err(m) => Err(m),
                Ok(initializer) => {
                    let end = end_of(pos + 2, initializer);
                    match consume_spec(
                        tokens,
                        end,
                        TokenTypeView::SemiColon,
                        "Expected ';' after print statement"@,
                    ) {
                        Some(m) => Err(m),
                        None => done(
                            StmtView::Var {
                                name: tokens[pos].token_type->Identifier_0,
                                line: tokens[pos].line,
                                initializer: initializer.value,
                            },
                            pos,
                            end + 1,
                        ),
                    }
                },
            },
        }
    } else {
        Err("Expected identifier after 'var'"@)
    }
}

/// `while_stmt`: a condition in parentheses and a statement, after `while`.
#[verifier::opaque]
pub open spec fn while_stmt_spec(tokens: Seq<TokenView>, pos: int) -> ParseResult<StmtView>
    decreases remaining(tokens, pos), 12nat,
{
    match consume_spec(
        tokens,
        pos,
        TokenTypeView::LeftParen,
        "Expected '(' after while statement"@,
    ) {
        Some(m) => Err(m),
        None => match expression_spec(tokens, pos + 1) {
            Err(m) => Err(m),
            Ok(condition) => {
                let close = end_of(pos + 1, condition);
                match consume_spec(
                    tokens,
                    close,
                    TokenTypeView::RightParen,
                    "Expected ')' after while statement"@,
                ) {
                    Some(m) => Err(m),
                    None => match statement_spec(tokens, close + 1) {
                        Err(m) => Err(m),
                        Ok(body) => done(
                            StmtView::While {
                                condition: condition.value,
                                body: Box::new(body.value),
                            },
                            pos,
                            end_of(close + 1, body),
                        ),
                    },
                }
            },
        },
    }
}

/// The body of a `for` statement, at `pos`, after its three clauses.
#[verifier::opaque]
pub open spec fn for_body_spec(
    tokens: Seq<TokenView>,
    start: int,
    pos: int,
    initializer: Option<StmtView>,
    condition: Option<ExprView>,
    loop_eval: Option<ExprView>,
) -> ParseResult<StmtView>
    decreases remaining(tokens, pos), 14nat,
{
    match statement_spec(tokens, pos) {
        Err(m) => Err(m),
        Ok(body) => done(
            desugar_spec(ForView { initializer, condition, loop_eval, body: body.value }),
            start,
            end_of(pos, body),
        ),
    }
}

/// The step of a `for` statement, at `pos`, and what follows it: `)` at once,
/// or an expression and `)`.
#[verifier::opaque]
pub open spec fn for_step_spec(
    tokens: Seq<TokenView>,
    start: int,
    pos: int,
    initializer: Option<StmtView>,
    condition: Option<ExprView>,
) -> ParseResult<StmtView>
    decreases remaining(tokens, pos), 15nat,
{
    if check_spec(tokens, pos, TokenTypeView::RightParen) {
        for_body_spec(tokens, start, pos + 1, initializer, condition, None)
    } else {
        match expression_spec(tokens, pos) {
            Err(m) => Err(m),
            Ok(step) => {
                let close = end_of(pos, step);
                match consume_spec(
                    tokens,
                    close,
                    TokenTypeView::RightParen,
                    "Expected ')' after for loop expr"@,
                ) {
                    Some(m) => Err(m),
                    None => for_body_spec(
                        tokens,
                        start,
                        close + 1,
                        initializer,
                        condition,
                        Some(step.value),
                    ),
                }
            },
        }
    }
}

/// The condition of a `for` statement, at `pos`, and what follows it: `;` at
/// once, or an expression and `;`.
#[verifier::opaque]
pub open spec fn for_condition_spec(
    tokens: Seq<TokenView>,
    start: int,
    pos: int,
    initializer: Option<StmtView>,
) -> ParseResult<StmtView>
    decreases remaining(tokens, pos), 16nat,
{
    if check_spec(tokens, pos, TokenTypeView::SemiColon) {
        for_step_spec(tokens, start, pos + 1, initializer, None)
    } else {
        match expression_spec(tokens, pos) {
            Err(m) => Err(m),
            Ok(condition) => {
                let end = end_of(pos, condition);
                match consume_spec(
                    tokens,
                    end,
                    TokenTypeView::SemiColon,
                    "Expected ';' after for condition"@,
                ) {
                    Some(m) => Err(m),
                    None => for_step_spec(
                        tokens,
                        start,
                        end + 1,
                        initializer,
                        Some(condition.value),
                    ),
                }
            },
        }
    }
}

/// `for_stmt`: in parentheses an initializer (`;` or a statement), a
/// condition and a step, then the body; after `for`.
#[verifier::opaque]
pub open spec fn for_stmt_spec(tokens: Seq<TokenView>, pos: int) -> ParseResult<StmtView>
    decreases remaining(tokens, pos), 12nat,
{
    match consume_spec(
        tokens,
        pos,
        TokenTypeView::LeftParen,
        "Expected '(' after for statement"@,
    ) {
        Some(m) => Err(m),
        None => if check_spec(tokens, pos + 1, TokenTypeView::SemiColon) {
            for_condition_spec(tokens, pos, pos + 2, None)
        } else {
            match statement_spec(tokens, pos + 1) {
                Err(m) => Err(m),
                Ok(first) => for_condition_spec(
                    tokens,
                    pos,
                    end_of(pos + 1, first),
                    Some(first.value),
                ),
            }
        },
    }
}

/// The error of expecting a name at `pos` in a function declaration, if the
/// token there is no identifier, or none.
pub open spec fn name_error_spec(tokens: Seq<TokenView>, pos: int) -> Option<Seq<char>> {
    if 0 <= pos < tokens.len() {
        if tokens[pos].token_type is Identifier {
            None
        } else {
            Some(function_name_message(tokens[pos]))
        }
    } else {
        Some("Expected identifer after 'fun', found EOF"@)
    }
}

/// The parameters of a function from `pos` on, after those in `seen`: names
/// with commas between them. `start` is where the first began.
#[verifier::opaque]
pub open spec fn parameters_spec(
    tokens: Seq<TokenView>,
    start: int,
    pos: int,
    seen: Seq<Seq<char>>,
) -> ParseResult<Seq<Seq<char>>>
    decreases remaining(tokens, pos),
{
    match name_error_spec(tokens, pos) {
        Some(m) => Err(m),
        None => {
            let names = seen.push(tokens[pos].token_type->Identifier_0);
            if check_spec(tokens, pos + 1, TokenTypeView::Comma) {
                parameters_spec(tokens, start, pos + 2, names)
            } else {
                done(names, start, pos + 1)
            }
        },
    }
}

/// The parameters of a function once those in `seen` are read and `pos` is
/// reached: after a comma the further ones, else `seen`.
pub open spec fn parameters_after_spec(
    tokens: Seq<TokenView>,
    start: int,
    pos: int,
    seen: Seq<Seq<char>>,
) -> ParseResult<Seq<Seq<char>>> {
    if check_spec(tokens, pos, TokenTypeView::Comma) {
        parameters_spec(tokens, start, pos + 1, seen)
    } else {
        done(seen, start, pos)
    }
}

/// The body of a function, at `pos`: `{`, statements, `}`.
pub open spec fn function_body_spec(
    tokens: Seq<TokenView>,
    start: int,
    pos: int,
    name: Seq<char>,
    line: u32,
    parameters: Seq<Seq<char>>,
) -> ParseResult<StmtView>
    decreases remaining(tokens, pos), 15nat,
{
    match consume_spec(
        tokens,
        pos,
        TokenTypeView::LeftBrace,
        "Expected '{' after function parameters"@,
    ) {
        Some(m) => Err(m),
        None => match block_rest_spec(tokens, pos + 1, pos + 1, Seq::empty()) {
            Err(m) => Err(m),
            Ok(body) => done(
                StmtView::Function(FunctionView { name, parameters, statements: body.value, line }),
                start,
                end_of(pos + 1, body),
            ),
        },
    }
}

/// `function_stmt`: a name, the parameters in parentheses, and the body in
/// braces; after `fun`.
#[verifier::opaque]
pub open spec fn function_stmt_spec(tokens: Seq<TokenView>, pos: int) -> ParseResult<StmtView>
    decreases remaining(tokens, pos), 15nat,
{
    match name_error_spec(tokens, pos) {
        Some(m) => Err(m),
        None => {
            let name = tokens[pos].token_type->Identifier_0;
            let line = tokens[pos].line;
            match consume_spec(
                tokens,
                pos + 1,
                TokenTypeView::LeftParen,
                "Expected '(' after function name"@,
            ) {
                Some(m) => Err(m),
                None => if check_spec(tokens, pos + 2, TokenTypeView::RightParen) {
                    function_body_spec(tokens, pos, pos + 3, name, line, Seq::empty())
                } else {
                    match parameters_spec(tokens, pos + 2, pos + 2, Seq::empty()) {
                        Err(m) => Err(m),
                        Ok(parameters) => {
                            let close = end_of(pos + 2, parameters);
                            match consume_spec(
                                tokens,
                                close,
                                TokenTypeView::RightParen,
                                "Expected ')' after function parameters"@,
                            ) {
                                Some(m) => Err(m),
                                None => function_body_spec(
                                    tokens,
                                    pos,
                                    close + 1,
                                    name,
                                    line,
                                    parameters.value,
                                ),
                            }
                        },
                    }
                },
            }
        },
    }
}

/// The outcome of a rule that began one token before `pos`, with the keyword
/// that chose it.
pub open spec fn after_keyword<T>(r: ParseResult<T>) -> ParseResult<T> {
    match r {
        Ok(p) => Ok(Parsed { value: p.value, more: p.more + 1 }),
        Err(m) => Err(m),
    }
}

/// `statement`: the rule that the first token chooses, and an expression
/// statement if it chooses none.
#[verifier::opaque]
pub open spec fn statement_spec(tokens: Seq<TokenView>, pos: int) -> ParseResult<StmtView>
    decreases remaining(tokens, pos), 13nat,
{
    if 0 <= pos < tokens.len() {
        match tokens[pos].token_type {
            TokenTypeView::If => after_keyword(if_stmt_spec(tokens, pos + 1)),
            TokenTypeView::LeftBrace => after_keyword(block_stmt_spec(tokens, pos + 1)),
            TokenTypeView::Print => after_keyword(print_stmt_spec(tokens, pos + 1)),
            TokenTypeView::Var => after_keyword(var_stmt_spec(tokens, pos + 1)),
            TokenTypeView::While => after_keyword(while_stmt_spec(tokens, pos + 1)),
            TokenTypeView::For => after_keyword(for_stmt_spec(tokens, pos + 1)),
            TokenTypeView::Fun => after_keyword(function_stmt_spec(tokens, pos + 1)),
            TokenTypeView::Return => after_keyword(return_stmt_spec(tokens, pos + 1)),
            _ => expr_stmt_spec(tokens, pos),
        }
    } else {
        expr_stmt_spec(tokens, pos)
    }
}

/// The statements of a program from `pos` on, after those in `seen`, up to the
/// token for the end of the input or to the last token.
#[verifier::opaque]
pub open spec fn program_spec(tokens: Seq<TokenView>, pos: int, seen: Seq<StmtView>) -> Result<
    Seq<StmtView>,
    Seq<char>,
>
    decreases remaining(tokens, pos), 14nat,
{
    if pos >= tokens.len() || check_spec(tokens, pos, TokenTypeView::Eof) {
        Ok(seen)
    } else {
        match statement_spec(tokens, pos) {
            Err(m) => Err(m),
            Ok(s) => program_spec(tokens, end_of(pos, s), seen.push(s.value)),
        }
    }
}

/// The statements that `tokens` are, or the first error in a list of its own.
pub open spec fn parse_spec(tokens: Seq<TokenView>) -> Result<Seq<StmtView>, Seq<Seq<char>>> {
    match program_spec(tokens, 0, Seq::empty()) {
        Ok(statements) => Ok(statements),
        Err(m) => Err(seq![m]),
    }
}

/// Whether `r` is the outcome `spec` of a rule that began at `start` and, if it
/// succeeded, ended at `end`.
pub open spec fn outcome<T: View>(
    r: Result<T, String>,
    spec: ParseResult<T::V>,
    start: int,
    end: int,
) -> bool {
    match r {
        Ok(value) => {
            &&& start < end
            &&& spec is Ok
            &&& spec->Ok_0.value == value@
            &&& end_of(start, spec->Ok_0) == end
        },
        Err(message) => spec == Err::<Parsed<T::V>, Seq<char>>(message@),
    }
}

/// The parser at work: the tokens and the position of the next one.
struct Parser<'a> {
    tokens: &'a [Token],
    pos: usize,
}

fn at_token(token: &Token, message: &str) -> (s: String)
    ensures
        s@ == at_token_message(token@, message@),
{
    let mut s = String::new();
    append(&mut s, "Line ");
    append_decimal(&mut s, token.line as u64);
    append(&mut s, " at '");
    let text = token.to_string();
    append(&mut s, text.as_str());
    append(&mut s, "': ");
    append(&mut s, message);
    assert(s@ =~= at_token_message(token@, message@));
    s
}

fn at_eof(message: &str) -> (s: String)
    ensures
        s@ == at_eof_message(message@),
{
    let mut s = String::new();
    append(&mut s, "At EOF: ");
    append(&mut s, message);
    assert(s@ =~= at_eof_message(message@));
    s
}

fn found_at_line(prefix: &str, token: &Token) -> (s: String)
    ensures
        s@ == prefix@ + token_text(token@.token_type) + " at line "@ + decimal(token@.line as nat),
{
    let mut s = String::new();
    append(&mut s, prefix);
    let text = token.to_string();
    append(&mut s, text.as_str());
    append(&mut s, " at line ");
    append_decimal(&mut s, token.line as u64);
    assert(s@ =~= prefix@ + token_text(token@.token_type) + " at line "@ + decimal(
        token@.line as nat,
    ));
    s
}

impl<'a> Parser<'a> {
    /// The tokens as mathematical values.
    spec fn input(&self) -> Seq<TokenView> {
        tokens_view(self.tokens@)
    }

    /// The position of the next token.
    spec fn position(&self) -> int {
        self.pos as int
    }

    /// Whether the position lies inside the tokens or at their end.
    spec fn wf(&self) -> bool {
        self.pos <= self.tokens@.len()
    }

    /// The tokens seen as values are as many as the tokens, and each is the
    /// view of its token.
    proof fn lemma_input(&self)
        ensures
            self.input().len() == self.tokens@.len(),
            forall|i: int|
                0 <= i < self.tokens@.len() ==> #[trigger] self.input()[i] == self.tokens@[i]@,
    {
    }

    /// A parser at the first of `tokens`.
    fn new(tokens: &'a [Token]) -> (p: Parser<'a>)
        ensures
            p.wf(),
            p.input() == tokens_view(tokens@),
            p.position() == 0,
    {
        Parser { tokens, pos: 0 }
    }

    /// Whether the next token is of the given kind.
    fn check(&self, token_type: &TokenType) -> (r: bool)
        requires
            self.wf(),
        ensures
            r == check_spec(self.input(), self.position(), token_type@),
    {
        if self.pos < self.tokens.len() {
            self.tokens[self.pos].token_type.same(token_type)
        } else {
            false
        }
    }

    /// Steps over the next token.
    fn skip(&mut self)
        requires
            old(self).wf(),
            old(self).position() < old(self).input().len(),
        ensures
            final(self).wf(),
            final(self).input() == old(self).input(),
            final(self).position() == old(self).position() + 1,
    {
        proof {
            self.lemma_input();
        }
        if self.pos < self.tokens.len() {
            self.pos = self.pos + 1;
        }
    }

    /// Steps over the next token and returns a copy of it.
    fn take(&mut self) -> (t: Token)
        requires
            old(self).wf(),
            old(self).position() < old(self).input().len(),
        ensures
            final(self).wf(),
            final(self).input() == old(self).input(),
            final(self).position() == old(self).position() + 1,
            t@ == old(self).input()[old(self).position()],
    {
        let t = self.tokens[self.pos].duplicate();
        self.pos = self.pos + 1;
        t
    }

    /// Steps over the next token if it is of the given kind; the error with
    /// `error_message` if it is another, or none.
    fn consume_token(&mut self, token_type: TokenType, error_message: &str) -> (r: Result<
        (),
        String,
    >)
        requires
            old(self).wf(),
        ensures
            final(self).wf(),
            final(self).input() == old(self).input(),
            match consume_spec(
                old(self).input(),
                old(self).position(),
                token_type@,
                error_message@,
            ) {
                None => r.is_ok() && final(self).position() == old(self).position() + 1
                    && old(self).position() < old(self).input().len(),
                Some(message) => r.is_err() && r.unwrap_err()@ == message,
            },
    {
        if self.check(&token_type) {
            self.skip();
            return Ok(());
        }
        if self.pos < self.tokens.len() {
            Err(at_token(&self.tokens[self.pos], error_message))
        } else {
            Err(at_eof(error_message))
        }
    }

    /// `expression`.
    fn expression(&mut self) -> (r: Result<Expr, String>)
        requires
            old(self).wf(),
        ensures
            final(self).wf(),
            final(self).input() == old(self).input(),
            outcome(
                r,
                expression_spec(old(self).input(), old(self).position()),
                old(self).position(),
                final(self).position(),
            ),
        decreases remaining(old(self).input(), old(self).position()), 10nat,
    {
        reveal(assignment_spec);
        reveal(expression_spec);
        self.assignment()
    }

    /// `assignment`.
    #[verifier::rlimit(30)]
    fn assignment(&mut self) -> (r: Result<Expr, String>)
        requires
            old(self).wf(),
        ensures
            final(self).wf(),
            final(self).input() == old(self).input(),
            outcome(
                r,
                assignment_spec(old(self).input(), old(self).position()),
                old(self).position(),
                final(self).position(),
            ),
        decreases remaining(old(self).input(), old(self).position()), 9nat,
    {
        reveal(logical_or_spec);
        reveal(expression_spec);
        reveal(assignment_spec);
        let expr = self.logical_or()?;
        if self.check(&TokenType::Equal) {
            self.skip();
            match expr {
                Expr::Variable(variable) => {
                    let value = self.expression()?;
                    Ok(new_assignment(variable.name.as_str(), variable.line, value))
                },
                _ => Err(copy_string("Invalid assignment target")),
            }
        } else {
            Ok(expr)
        }
    }

    /// `logical_or`.
    #[verifier::rlimit(30)]
    fn logical_or(&mut self) -> (r: Result<Expr, String>)
        requires
            old(self).wf(),
        ensures
            final(self).wf(),
            final(self).input() == old(self).input(),
            outcome(
                r,
                logical_or_spec(old(self).input(), old(self).position()),
                old(self).position(),
                final(self).position(),
            ),
        decreases remaining(old(self).input(), old(self).position()), 8nat,
    {
        reveal(logical_or_spec);
        reveal(logical_and_spec);
        let ghost tokens = self.input();
        let expr = self.logical_and()?;
        let ghost at = self.position();
        let more = self.check(&TokenType::Or);
        if more {
            let operator = self.take();
            let right = self.logical_and()?;
            let joined = new_binary(expr, operator, right);
            assert(joined@ == binary_of(expr@, tokens, at, right@));
            Ok(joined)
        } else {
            Ok(expr)
        }
    }

    /// `logical_and`.
    #[verifier::rlimit(30)]
    fn logical_and(&mut self) -> (r: Result<Expr, String>)
        requires
            old(self).wf(),
        ensures
            final(self).wf(),
            final(self).input() == old(self).input(),
            outcome(
                r,
                logical_and_spec(old(self).input(), old(self).position()),
                old(self).position(),
                final(self).position(),
            ),
        decreases remaining(old(self).input(), old(self).position()), 7nat,
    {
        reveal(logical_and_spec);
        reveal(equality_spec);
        let ghost tokens = self.input();
        let expr = self.equality()?;
        let ghost at = self.position();
        let more = self.check(&TokenType::And);
        if more {
            let operator = self.take();
            let right = self.equality()?;
            let joined = new_binary(expr, operator, right);
            assert(joined@ == binary_of(expr@, tokens, at, right@));
            Ok(joined)
        } else {
            Ok(expr)
        }
    }

    /// `equality`.
    #[verifier::rlimit(30)]
    fn equality(&mut self) -> (r: Result<Expr, String>)
        requires
            old(self).wf(),
        ensures
            final(self).wf(),
            final(self).input() == old(self).input(),
            outcome(
                r,
                equality_spec(old(self).input(), old(self).position()),
                old(self).position(),
                final(self).position(),
            ),
        decreases remaining(old(self).input(), old(self).position()), 6nat,
    {
        reveal(equality_spec);
        reveal(comparison_spec);
        let ghost tokens = self.input();
        let expr = self.comparison()?;
        let ghost at = self.position();
        let more = self.check(&TokenType::EqualEqual) || self.check(&TokenType::BangEqual);
        if more {
            let operator = self.take();
            let right = self.comparison()?;
            let joined = new_binary(expr, operator, right);
            assert(joined@ == binary_of(expr@, tokens, at, right@));
            Ok(joined)
        } else {
            Ok(expr)
        }
    }

    /// Whether the next token compares two terms.
    fn at_comparison(&self) -> (r: bool)
        requires
            self.wf(),
        ensures
            r == (check_spec(self.input(), self.position(), TokenTypeView::Less) || check_spec(
                self.input(),
                self.position(),
                TokenTypeView::LessEqual,
            ) || check_spec(self.input(), self.position(), TokenTypeView::Greater) || check_spec(
                self.input(),
                self.position(),
                TokenTypeView::GreaterEqual,
            )),
    {
        self.check(&TokenType::Less) || self.check(&TokenType::LessEqual) || self.check(
            &TokenType::Greater,
        ) || self.check(&TokenType::GreaterEqual)
    }

    /// `comparison`.
    #[verifier::rlimit(30)]
    fn comparison(&mut self) -> (r: Result<Expr, String>)
        requires
            old(self).wf(),
        ensures
            final(self).wf(),
            final(self).input() == old(self).input(),
            outcome(
                r,
                comparison_spec(old(self).input(), old(self).position()),
                old(self).position(),
                final(self).position(),
            ),
        decreases remaining(old(self).input(), old(self).position()), 5nat,
    {
        reveal(comparison_spec);
        reveal(term_spec);
        let ghost tokens = self.input();
        let expr = self.term()?;
        let ghost at = self.position();
        let more = self.at_comparison();
        if more {
            let operator = self.take();
            let right = self.term()?;
            let joined = new_binary(expr, operator, right);
            assert(joined@ == binary_of(expr@, tokens, at, right@));
            Ok(joined)
        } else {
            Ok(expr)
        }
    }

    /// `term`.
    #[verifier::rlimit(30)]
    fn term(&mut self) -> (r: Result<Expr, String>)
        requires
            old(self).wf(),
        ensures
            final(self).wf(),
            final(self).input() == old(self).input(),
            outcome(
                r,
                term_spec(old(self).input(), old(self).position()),
                old(self).position(),
                final(self).position(),
            ),
        decreases remaining(old(self).input(), old(self).position()), 4nat,
    {
        reveal(factor_spec);
        reveal(term_spec);
        reveal(term_rest_spec);
        let mut expr = self.factor()?;
        while self.check(&TokenType::Minus) || self.check(&TokenType::Plus)
            invariant
                self.wf(),
                self.input() == old(self).input(),
                old(self).position() < self.position(),
                term_spec(old(self).input(), old(self).position()) == term_rest_spec(
                    self.input(),
                    old(self).position(),
                    self.position(),
                    expr@,
                ),
            decreases remaining(self.input(), self.position()),
        {
            reveal(term_rest_spec);
            reveal(factor_spec);
            let operator = self.take();
            let right = self.factor()?;
            expr = new_binary(expr, operator, right);
        }
        reveal(term_rest_spec);
        Ok(expr)
    }

    /// `factor`.
    #[verifier::rlimit(30)]
    fn factor(&mut self) -> (r: Result<Expr, String>)
        requires
            old(self).wf(),
        ensures
            final(self).wf(),
            final(self).input() == old(self).input(),
            outcome(
                r,
                factor_spec(old(self).input(), old(self).position()),
                old(self).position(),
                final(self).position(),
            ),
        decreases remaining(old(self).input(), old(self).position()), 3nat,
    {
        reveal(unary_spec);
        reveal(factor_spec);
        reveal(factor_rest_spec);
        let mut expr = self.unary()?;
        while self.check(&TokenType::Slash) || self.check(&TokenType::Star)
            invariant
                self.wf(),
                self.input() == old(self).input(),
                old(self).position() < self.position(),
                factor_spec(old(self).input(), old(self).position()) == factor_rest_spec(
                    self.input(),
                    old(self).position(),
                    self.position(),
                    expr@,
                ),
            decreases remaining(self.input(), self.position()),
        {
            reveal(factor_rest_spec);
            reveal(unary_spec);
            let operator = self.take();
            let right = self.unary()?;
            expr = new_binary(expr, operator, right);
        }
        reveal(factor_rest_spec);
        Ok(expr)
    }

    /// `unary`.
    fn unary(&mut self) -> (r: Result<Expr, String>)
        requires
            old(self).wf(),
        ensures
            final(self).wf(),
            final(self).input() == old(self).input(),
            outcome(
                r,
                unary_spec(old(self).input(), old(self).position()),
                old(self).position(),
                final(self).position(),
            ),
        decreases remaining(old(self).input(), old(self).position()), 2nat,
    {
        reveal(call_spec);
        reveal(unary_spec);
        if self.check(&TokenType::Bang) {
            self.skip();
            let expr = self.unary()?;
            Ok(new_logical_not(expr))
        } else if self.check(&TokenType::Minus) {
            self.skip();
            let expr = self.unary()?;
            Ok(new_unary_negate(expr))
        } else {
            self.call()
        }
    }

    /// The arguments of a call, of which there is at least one.
    #[verifier::rlimit(30)]
    fn arguments(&mut self) -> (r: Result<Vec<Box<Expr>>, String>)
        requires
            old(self).wf(),
        ensures
            final(self).wf(),
            final(self).input() == old(self).input(),
            match r {
                Ok(arguments) => {
                    let spec = arguments_spec(
                        old(self).input(),
                        old(self).position(),
                        old(self).position(),
                        Seq::empty(),
                    );
                    &&& old(self).position() < final(self).position()
                    &&& spec is Ok
                    &&& spec->Ok_0.value == boxed_exprs_view(arguments@)
                    &&& end_of(old(self).position(), spec->Ok_0) == final(self).position()
                },
                Err(message) => arguments_spec(
                    old(self).input(),
                    old(self).position(),
                    old(self).position(),
                    Seq::empty(),
                ) == Err::<Parsed<Seq<ExprView>>, Seq<char>>(message@),
            },
        decreases remaining(old(self).input(), old(self).position()), 11nat,
    {
        reveal(arguments_spec);
        reveal(expression_spec);
        let mut arguments: Vec<Box<Expr>> = Vec::new();
        let first = self.expression()?;
        proof {
            lemma_boxed_exprs_push(arguments@, Box::new(first));
        }
        arguments.push(Box::new(first));
        while self.check(&TokenType::Comma)
            invariant
                self.wf(),
                self.input() == old(self).input(),
                old(self).position() < self.position(),
                arguments_spec(
                    self.input(),
                    old(self).position(),
                    old(self).position(),
                    Seq::empty(),
                ) == arguments_spec_after(
                    self.input(),
                    old(self).position(),
                    self.position(),
                    boxed_exprs_view(arguments@),
                ),
            decreases remaining(self.input(), self.position()),
        {
            reveal(arguments_spec);
            reveal(expression_spec);
            self.skip();
            let next = self.expression()?;
            proof {
                lemma_boxed_exprs_push(arguments@, Box::new(next));
            }
            arguments.push(Box::new(next));
        }
        Ok(arguments)
    }

    /// The arguments of one call, after its opening parenthesis, and the
    /// closing one.
    #[verifier::rlimit(30)]
    fn argument_list(&mut self) -> (r: Result<Vec<Box<Expr>>, String>)
        requires
            old(self).wf(),
        ensures
            final(self).wf(),
            final(self).input() == old(self).input(),
            match r {
                Ok(arguments) => {
                    let spec = argument_list_spec(old(self).input(), old(self).position());
                    &&& old(self).position() < final(self).position()
                    &&& spec is Ok
                    &&& spec->Ok_0.value == boxed_exprs_view(arguments@)
                    &&& end_of(old(self).position(), spec->Ok_0) == final(self).position()
                },
                Err(message) => argument_list_spec(old(self).input(), old(self).position())
                    == Err::<Parsed<Seq<ExprView>>, Seq<char>>(message@),
            },
        decreases remaining(old(self).input(), old(self).position()), 12nat,
    {
        reveal(argument_list_spec);
        reveal(arguments_spec);
        if self.check(&TokenType::RightParen) {
            self.skip();
            Ok(Vec::new())
        } else {
            let arguments = self.arguments()?;
            self.consume_token(
                TokenType::RightParen,
                "Expected ')' after function call arguments",
            )?;
            Ok(arguments)
        }
    }

    /// `call`.
    #[verifier::rlimit(30)]
    fn call(&mut self) -> (r: Result<Expr, String>)
        requires
            old(self).wf(),
        ensures
            final(self).wf(),
            final(self).input() == old(self).input(),
            outcome(
                r,
                call_spec(old(self).input(), old(self).position()),
                old(self).position(),
                final(self).position(),
            ),
        decreases remaining(old(self).input(), old(self).position()), 1nat,
    {
        reveal(call_spec);
        reveal(call_rest_spec);
        reveal(primary_spec);
        let mut expr = self.primary()?;
        while self.check(&TokenType::LeftParen)
            invariant
                self.wf(),
                self.input() == old(self).input(),
                old(self).position() < self.position(),
                call_spec(old(self).input(), old(self).position()) == call_rest_spec(
                    self.input(),
                    old(self).position(),
                    self.position(),
                    expr@,
                ),
            decreases remaining(self.input(), self.position()),
        {
            reveal(call_rest_spec);
            reveal(argument_list_spec);
            let left_paren = self.take();
            let arguments = self.argument_list()?;
            expr = new_call(expr, left_paren.line, arguments);
        }
        reveal(call_rest_spec);
        Ok(expr)
    }

    /// `grouping`.
    fn grouping(&mut self) -> (r: Result<Expr, String>)
        requires
            old(self).wf(),
        ensures
            final(self).wf(),
            final(self).input() == old(self).input(),
            outcome(
                r,
                grouping_spec(old(self).input(), old(self).position()),
                old(self).position(),
                final(self).position(),
            ),
        decreases remaining(old(self).input(), old(self).position()), 11nat,
    {
        reveal(expression_spec);
        reveal(grouping_spec);
        let expr = self.expression()?;
        if self.pos < self.tokens.len() {
            if self.check(&TokenType::RightParen) {
                self.skip();
                Ok(new_grouping(expr))
            } else {
                Err(found_at_line("Expected ')' but found ", &self.tokens[self.pos]))
            }
        } else {
            Err(copy_string("Expected ')' but found EOF"))
        }
    }

    /// A read of the variable `name`.
    fn identifier(&self, name: &str, line: u32) -> (r: Result<Expr, String>)
        ensures
            r.is_ok(),
            r.unwrap()@ == (ExprView::Variable { name: name@, line, slot: None }),
    {
        Ok(new_variable(name, line))
    }

    /// `primary`.
    #[verifier::rlimit(30)]
    fn primary(&mut self) -> (r: Result<Expr, String>)
        requires
            old(self).wf(),
        ensures
            final(self).wf(),
            final(self).input() == old(self).input(),
            outcome(
                r,
                primary_spec(old(self).input(), old(self).position()),
                old(self).position(),
                final(self).position(),
            ),
        decreases remaining(old(self).input(), old(self).position()), 0nat,
    {
        reveal(grouping_spec);
        reveal(primary_spec);
        if self.pos < self.tokens.len() {
            let t = &self.tokens[self.pos];
            self.skip();
            match &t.token_type {
                TokenType::True => Ok(Expr::Bool(true)),
                TokenType::False => Ok(Expr::Bool(false)),
                TokenType::Nil => Ok(Expr::Nil),
                TokenType::Number(value) => Ok(Expr::Number(*value)),
                TokenType::Str(value) => Ok(Expr::Str(copy_string(value.as_str()))),
                TokenType::LeftParen => self.grouping(),
                TokenType::Identifier(name) => self.identifier(name.as_str(), t.line),
                _ => Err(found_at_line("Expected primary expression, found ", t)),
            }
        } else {
            Err(copy_string("Expected primary expression, found EOF"))
        }
    }

    /// `expr_stmt`.
    fn expr_stmt(&mut self) -> (r: Result<Stmt, String>)
        requires
            old(self).wf(),
        ensures
            final(self).wf(),
            final(self).input() == old(self).input(),
            outcome(
                r,
                expr_stmt_spec(old(self).input(), old(self).position()),
                old(self).position(),
                final(self).position(),
            ),
        decreases remaining(old(self).input(), old(self).position()), 12nat,
    {
        reveal(expr_stmt_spec);
        reveal(expression_spec);
        let expr = self.expression()?;
        self.consume_token(TokenType::SemiColon, "Expected ';' after expression")?;
        Ok(new_expr(expr))
    }

    /// `return_stmt`.
    fn return_stmt(&mut self) -> (r: Result<Stmt, String>)
        requires
            old(self).wf(),
        ensures
            final(self).wf(),
            final(self).input() == old(self).input(),
            outcome(
                r,
                return_stmt_spec(old(self).input(), old(self).position()),
                old(self).position(),
                final(self).position(),
            ),
        decreases remaining(old(self).input(), old(self).position()), 12nat,
    {
        reveal(return_stmt_spec);
        reveal(expression_spec);
        let expr = self.expression()?;
        self.consume_token(TokenType::SemiColon, "Expected ';' after expression")?;
        Ok(new_return(expr))
    }

    /// `if_stmt`.
    #[verifier::rlimit(30)]
    fn if_stmt(&mut self) -> (r: Result<Stmt, String>)
        requires
            old(self).wf(),
        ensures
            final(self).wf(),
            final(self).input() == old(self).input(),
            outcome(
                r,
                if_stmt_spec(old(self).input(), old(self).position()),
                old(self).position(),
                final(self).position(),
            ),
        decreases remaining(old(self).input(), old(self).position()), 12nat,
    {
        reveal(if_stmt_spec);
        reveal(expression_spec);
        reveal(statement_spec);
        self.consume_token(TokenType::LeftParen, "Expected '(' after if")?;
        let condition = self.expression()?;
        self.consume_token(TokenType::RightParen, "Expected ')' after if condition")?;
        let true_branch = self.statement()?;
        if self.check(&TokenType::Else) {
            self.skip();
            let else_branch = self.statement()?;
            Ok(new_if(condition, true_branch, Some(else_branch)))
        } else {
            Ok(new_if(condition, true_branch, None))
        }
    }

    /// The statements of a block and its closing brace.
    #[verifier::rlimit(30)]
    fn block_rest(&mut self) -> (r: Result<Vec<Stmt>, String>)
        requires
            old(self).wf(),
        ensures
            final(self).wf(),
            final(self).input() == old(self).input(),
            match r {
                Ok(statements) => {
                    let spec = block_rest_spec(
                        old(self).input(),
                        old(self).position(),
                        old(self).position(),
                        Seq::empty(),
                    );
                    &&& old(self).position() < final(self).position()
                    &&& spec is Ok
                    &&& spec->Ok_0.value == stmts_view(statements@)
                    &&& end_of(old(self).position(), spec->Ok_0) == final(self).position()
                },
                Err(message) => block_rest_spec(
                    old(self).input(),
                    old(self).position(),
                    old(self).position(),
                    Seq::empty(),
                ) == Err::<Parsed<Seq<StmtView>>, Seq<char>>(message@),
            },
        decreases remaining(old(self).input(), old(self).position()), 14nat,
    {
        reveal(block_rest_spec);
        reveal(statement_spec);
        let mut statements: Vec<Stmt> = Vec::new();
        while !self.check(&TokenType::RightBrace)
            invariant
                self.wf(),
                self.input() == old(self).input(),
                old(self).position() <= self.position(),
                block_rest_spec(
                    self.input(),
                    old(self).position(),
                    old(self).position(),
                    Seq::empty(),
                ) == block_rest_spec(
                    self.input(),
                    old(self).position(),
                    self.position(),
                    stmts_view(statements@),
                ),
            decreases remaining(self.input(), self.position()),
        {
            reveal(block_rest_spec);
            reveal(statement_spec);
            proof {
                self.lemma_input();
            }
            if self.pos >= self.tokens.len() {
                return Err(copy_string("Expected primary expression, found EOF"));
            }
            let statement = self.statement()?;
            proof {
                lemma_stmts_push(statements@, statement);
            }
            statements.push(statement);
        }
        self.skip();
        Ok(statements)
    }

    /// `block_stmt`.
    fn block_stmt(&mut self) -> (r: Result<Stmt, String>)
        requires
            old(self).wf(),
        ensures
            final(self).wf(),
            final(self).input() == old(self).input(),
            outcome(
                r,
                block_stmt_spec(old(self).input(), old(self).position()),
                old(self).position(),
                final(self).position(),
            ),
        decreases remaining(old(self).input(), old(self).position()), 15nat,
    {
        reveal(block_rest_spec);
        let statements = self.block_rest()?;
        Ok(new_block(statements))
    }

    /// `print_stmt`.
    #[verifier::rlimit(30)]
    fn print_stmt(&mut self) -> (r: Result<Stmt, String>)
        requires
            old(self).wf(),
        ensures
            final(self).wf(),
            final(self).input() == old(self).input(),
            outcome(
                r,
                print_stmt_spec(old(self).input(), old(self).position()),
                old(self).position(),
                final(self).position(),
            ),
        decreases remaining(old(self).input(), old(self).position()), 12nat,
    {
        reveal(print_rest_spec);
        reveal(expression_spec);
        let mut exprs: Vec<Expr> = Vec::new();
        let first = self.expression()?;
        proof {
            lemma_exprs_push(exprs@, first);
        }
        exprs.push(first);
        while self.check(&TokenType::Comma)
            invariant
                self.wf(),
                self.input() == old(self).input(),
                old(self).position() < self.position(),
                print_rest_spec(
                    self.input(),
                    old(self).position(),
                    old(self).position(),
                    Seq::empty(),
                ) == print_after_spec(
                    self.input(),
                    old(self).position(),
                    self.position(),
                    exprs_view(exprs@),
                ),
            decreases remaining(self.input(), self.position()),
        {
            reveal(print_rest_spec);
            reveal(expression_spec);
            self.skip();
            let next = self.expression()?;
            proof {
                lemma_exprs_push(exprs@, next);
            }
            exprs.push(next);
        }
        self.consume_token(TokenType::SemiColon, "Expected ';' after print statement")?;
        Ok(new_print(exprs))
    }

    /// `var_stmt`.
    fn var_stmt(&mut self) -> (r: Result<Stmt, String>)
        requires
            old(self).wf(),
        ensures
            final(self).wf(),
            final(self).input() == old(self).input(),
            outcome(
                r,
                var_stmt_spec(old(self).input(), old(self).position()),
                old(self).position(),
                final(self).position(),
            ),
        decreases remaining(old(self).input(), old(self).position()), 12nat,
    {
        reveal(var_stmt_spec);
        reveal(expression_spec);
        proof {
            self.lemma_input();
        }
        if self.pos >= self.tokens.len() {
            return Err(copy_string("Expected identifier after 'var'"));
        }
        let token = &self.tokens[self.pos];
        match &token.token_type {
            TokenType::Identifier(name) => {
                self.skip();
                self.consume_token(TokenType::Equal, "Expected '=' after var identifier")?;
                let expr = self.expression()?;
                self.consume_token(TokenType::SemiColon, "Expected ';' after print statement")?;
                Ok(new_var(name.as_str(), token.line, expr))
            },
            _ => Err(copy_string("Expected identifier after 'var'")),
        }
    }

    /// `while_stmt`.
    fn while_stmt(&mut self) -> (r: Result<Stmt, String>)
        requires
            old(self).wf(),
        ensures
            final(self).wf(),
            final(self).input() == old(self).input(),
            outcome(
                r,
                while_stmt_spec(old(self).input(), old(self).position()),
                old(self).position(),
                final(self).position(),
            ),
        decreases remaining(old(self).input(), old(self).position()), 12nat,
    {
        reveal(while_stmt_spec);
        reveal(expression_spec);
        reveal(statement_spec);
        self.consume_token(TokenType::LeftParen, "Expected '(' after while statement")?;
        let condition = self.expression()?;
        self.consume_token(TokenType::RightParen, "Expected ')' after while statement")?;
        let body = self.statement()?;
        Ok(new_while(condition, body))
    }

    /// The body of a `for` statement, after its clauses.
    #[verifier::rlimit(30)]
    fn for_body(
        &mut self,
        Ghost(start): Ghost<int>,
        initializer: Option<Stmt>,
        condition: Option<Expr>,
        loop_eval: Option<Expr>,
    ) -> (r: Result<Stmt, String>)
        requires
            old(self).wf(),
            start < old(self).position(),
        ensures
            final(self).wf(),
            final(self).input() == old(self).input(),
            outcome(
                r,
                for_body_spec(
                    old(self).input(),
                    start,
                    old(self).position(),
                    option_stmt_view(initializer),
                    option_expr_view(condition),
                    option_expr_view(loop_eval),
                ),
                start,
                final(self).position(),
            ),
        decreases remaining(old(self).input(), old(self).position()), 14nat,
    {
        reveal(for_body_spec);
        reveal(statement_spec);
        let body = self.statement()?;
        let boxed = match initializer {
            Some(first) => Some(Box::new(first)),
            None => None,
        };
        let whole = For { initializer: boxed, condition, loop_eval, body: Box::new(body) };
        Ok(whole.desugar())
    }

    /// The step of a `for` statement, and its body.
    #[verifier::rlimit(30)]
    fn for_step(
        &mut self,
        Ghost(start): Ghost<int>,
        initializer: Option<Stmt>,
        condition: Option<Expr>,
    ) -> (r: Result<Stmt, String>)
        requires
            old(self).wf(),
            start < old(self).position(),
        ensures
            final(self).wf(),
            final(self).input() == old(self).input(),
            outcome(
                r,
                for_step_spec(
                    old(self).input(),
                    start,
                    old(self).position(),
                    option_stmt_view(initializer),
                    option_expr_view(condition),
                ),
                start,
                final(self).position(),
            ),
        decreases remaining(old(self).input(), old(self).position()), 15nat,
    {
        reveal(for_step_spec);
        reveal(for_body_spec);
        reveal(expression_spec);
        if self.check(&TokenType::RightParen) {
            self.skip();
            self.for_body(Ghost(start), initializer, condition, None)
        } else {
            let step = self.expression()?;
            self.consume_token(TokenType::RightParen, "Expected ')' after for loop expr")?;
            self.for_body(Ghost(start), initializer, condition, Some(step))
        }
    }

    /// The condition of a `for` statement, its step and its body.
    #[verifier::rlimit(30)]
    fn for_condition(&mut self, Ghost(start): Ghost<int>, initializer: Option<Stmt>) -> (r: Result<
        Stmt,
        String,
    >)
        requires
            old(self).wf(),
            start < old(self).position(),
        ensures
            final(self).wf(),
            final(self).input() == old(self).input(),
            outcome(
                r,
                for_condition_spec(
                    old(self).input(),
                    start,
                    old(self).position(),
                    option_stmt_view(initializer),
                ),
                start,
                final(self).position(),
            ),
        decreases remaining(old(self).input(), old(self).position()), 16nat,
    {
        reveal(for_condition_spec);
        reveal(for_step_spec);
        reveal(expression_spec);
        if self.check(&TokenType::SemiColon) {
            self.skip();
            self.for_step(Ghost(start), initializer, None)
        } else {
            let condition = self.expression()?;
            self.consume_token(TokenType::SemiColon, "Expected ';' after for condition")?;
            self.for_step(Ghost(start), initializer, Some(condition))
        }
    }

    /// `for_stmt`.
    #[verifier::rlimit(30)]
    fn for_stmt(&mut self) -> (r: Result<Stmt, String>)
        requires
            old(self).wf(),
        ensures
            final(self).wf(),
            final(self).input() == old(self).input(),
            outcome(
                r,
                for_stmt_spec(old(self).input(), old(self).position()),
                old(self).position(),
                final(self).position(),
            ),
        decreases remaining(old(self).input(), old(self).position()), 12nat,
    {
        reveal(for_stmt_spec);
        reveal(for_condition_spec);
        reveal(statement_spec);
        let ghost start = self.position();
        self.consume_token(TokenType::LeftParen, "Expected '(' after for statement")?;
        if self.check(&TokenType::SemiColon) {
            self.skip();
            self.for_condition(Ghost(start), None)
        } else {
            let first = self.statement()?;
            self.for_condition(Ghost(start), Some(first))
        }
    }

    /// Steps over the name at the position, in a function declaration, and
    /// returns it with its line.
    fn name(&mut self) -> (r: Result<(String, u32), String>)
        requires
            old(self).wf(),
        ensures
            final(self).wf(),
            final(self).input() == old(self).input(),
            match name_error_spec(old(self).input(), old(self).position()) {
                None => {
                    &&& r is Ok
                    &&& 0 <= old(self).position() < old(self).input().len()
                    &&& r.unwrap().0@ == old(self).input()[old(
                        self,
                    ).position()].token_type->Identifier_0
                    &&& r.unwrap().1 == old(self).input()[old(self).position()].line
                    &&& final(self).position() == old(self).position() + 1
                },
                Some(message) => r is Err && r.unwrap_err()@ == message,
            },
    {
        proof {
            self.lemma_input();
        }
        if self.pos >= self.tokens.len() {
            return Err(copy_string("Expected identifer after 'fun', found EOF"));
        }
        let token = &self.tokens[self.pos];
        match &token.token_type {
            TokenType::Identifier(name) => {
                self.skip();
                Ok((copy_string(name.as_str()), token.line))
            },
            _ => {
                let mut s = String::new();
                append(&mut s, "Expected identifier after 'fun', found ");
                let text = token.to_string();
                append(&mut s, text.as_str());
                assert(s@ =~= function_name_message(token@));
                Err(s)
            },
        }
    }

    /// The parameters of a function, of which there is at least one.
    fn parameters(&mut self) -> (r: Result<Vec<String>, String>)
        requires
            old(self).wf(),
        ensures
            final(self).wf(),
            final(self).input() == old(self).input(),
            match r {
                Ok(names) => {
                    let spec = parameters_spec(
                        old(self).input(),
                        old(self).position(),
                        old(self).position(),
                        Seq::empty(),
                    );
                    &&& old(self).position() < final(self).position()
                    &&& spec is Ok
                    &&& spec->Ok_0.value == strings_view(names@)
                    &&& end_of(old(self).position(), spec->Ok_0) == final(self).position()
                },
                Err(message) => parameters_spec(
                    old(self).input(),
                    old(self).position(),
                    old(self).position(),
                    Seq::empty(),
                ) == Err::<Parsed<Seq<Seq<char>>>, Seq<char>>(message@),
            },
    {
        reveal(parameters_spec);
        let mut names: Vec<String> = Vec::new();
        let first = self.name()?;
        names.push(first.0);
        assert(strings_view(names@) =~= Seq::<Seq<char>>::empty().push(first.0@));
        while self.check(&TokenType::Comma)
            invariant
                self.wf(),
                self.input() == old(self).input(),
                old(self).position() < self.position(),
                parameters_spec(
                    self.input(),
                    old(self).position(),
                    old(self).position(),
                    Seq::empty(),
                ) == parameters_after_spec(
                    self.input(),
                    old(self).position(),
                    self.position(),
                    strings_view(names@),
                ),
            decreases remaining(self.input(), self.position()),
        {
            reveal(parameters_spec);
            self.skip();
            let ghost seen = strings_view(names@);
            let next = self.name()?;
            names.push(next.0);
            assert(strings_view(names@) =~= seen.push(next.0@));
        }
        Ok(names)
    }

    /// `function_stmt`.
    #[verifier::rlimit(30)]
    fn function_stmt(&mut self) -> (r: Result<Stmt, String>)
        requires
            old(self).wf(),
        ensures
            final(self).wf(),
            final(self).input() == old(self).input(),
            outcome(
                r,
                function_stmt_spec(old(self).input(), old(self).position()),
                old(self).position(),
                final(self).position(),
            ),
        decreases remaining(old(self).input(), old(self).position()), 15nat,
    {
        reveal(function_stmt_spec);
        reveal(block_rest_spec);
        let named = self.name()?;
        self.consume_token(TokenType::LeftParen, "Expected '(' after function name")?;
        let mut parameters: Vec<String> = Vec::new();
        if self.check(&TokenType::RightParen) {
            self.skip();
            assert(strings_view(parameters@) =~= Seq::<Seq<char>>::empty());
        } else {
            parameters = self.parameters()?;
            self.consume_token(TokenType::RightParen, "Expected ')' after function parameters")?;
        }
        self.consume_token(TokenType::LeftBrace, "Expected '{' after function parameters")?;
        let statements = self.block_rest()?;
        Ok(new_function(named.0, parameters, statements, named.1))
    }

    /// `statement`.
    #[verifier::rlimit(30)]
    fn statement(&mut self) -> (r: Result<Stmt, String>)
        requires
            old(self).wf(),
        ensures
            final(self).wf(),
            final(self).input() == old(self).input(),
            outcome(
                r,
                statement_spec(old(self).input(), old(self).position()),
                old(self).position(),
                final(self).position(),
            ),
        decreases remaining(old(self).input(), old(self).position()), 13nat,
    {
        reveal(statement_spec);
        reveal(if_stmt_spec);
        reveal(block_rest_spec);
        reveal(print_rest_spec);
        reveal(var_stmt_spec);
        reveal(while_stmt_spec);
        reveal(for_stmt_spec);
        reveal(function_stmt_spec);
        reveal(return_stmt_spec);
        reveal(expr_stmt_spec);
        proof {
            self.lemma_input();
        }
        if self.pos < self.tokens.len() {
            match &self.tokens[self.pos].token_type {
                TokenType::If => {
                    self.skip();
                    return self.if_stmt();
                },
                TokenType::LeftBrace => {
                    self.skip();
                    return self.block_stmt();
                },
                TokenType::Print => {
                    self.skip();
                    return self.print_stmt();
                },
                TokenType::Var => {
                    self.skip();
                    return self.var_stmt();
                },
                TokenType::While => {
                    self.skip();
                    return self.while_stmt();
                },
                TokenType::For => {
                    self.skip();
                    return self.for_stmt();
                },
                TokenType::Fun => {
                    self.skip();
                    return self.function_stmt();
                },
                TokenType::Return => {
                    self.skip();
                    return self.return_stmt();
                },
                _ => {},
            }
        }
        self.expr_stmt()
    }
}

/// The view of a statement that may be missing.
pub open spec fn option_stmt_view(s: Option<Stmt>) -> Option<StmtView> {
    match s {
        Some(s) => Some(s@),
        None => None,
    }
}

/// The view of an expression that may be missing.
pub open spec fn option_expr_view(e: Option<Expr>) -> Option<ExprView> {
    match e {
        Some(e) => Some(e@),
        None => None,
    }
}

/// Parses `tokens` up to the token for the end of the input, or to the last
/// token: the statements, or the first error in a list of its own.
pub fn parse(tokens: &[Token]) -> (r: Result<Vec<Stmt>, Vec<String>>)
    ensures
        match r {
            Ok(statements) => parse_spec(tokens_view(tokens@)) == Ok::<
                Seq<StmtView>,
                Seq<Seq<char>>,
            >(stmts_view(statements@)),
            Err(errors) => parse_spec(tokens_view(tokens@)) == Err::<
                Seq<StmtView>,
                Seq<Seq<char>>,
            >(strings_view(errors@)),
        },
{
    reveal(program_spec);
    reveal(statement_spec);
    let mut parser = Parser::new(tokens);
    let mut stmts: Vec<Stmt> = Vec::new();
    let ghost input = tokens_view(tokens@);
    while parser.pos < tokens.len() && !parser.check(&TokenType::Eof)
        invariant
            parser.wf(),
            parser.input() == input,
            input == tokens_view(tokens@),
            0 <= parser.position(),
            program_spec(input, 0, Seq::empty()) == program_spec(
                input,
                parser.position(),
                stmts_view(stmts@),
            ),
        decreases remaining(input, parser.position()),
    {
        reveal(program_spec);
        reveal(statement_spec);
        match parser.statement() {
            Ok(statement) => {
                proof {
                    lemma_stmts_push(stmts@, statement);
                }
                stmts.push(statement);
            },
            Err(message) => {
                let errors = vec![message];
                assert(strings_view(errors@) =~= seq![message@]);
                return Err(errors);
            },
        }
    }
    Ok(stmts)
}

} // verus!
