//! The grammar, as functions on a sequence of tokens.
//!
//! Each function takes the tokens and a cursor (a position and the messages
//! gathered so far) and returns what was recognised and the cursor after it.
//! A construct that cannot be recognised yields `None`; parsing goes on behind
//! it, and what was wrong is added to the messages.

use crate::ast::{ExprView, Infix, LiteralView, Precedence, Prefix, StatementView};
use crate::token::{token_text, TokenView};
use vstd::prelude::*;

verus! {

/// Where a parser stands: the position of the current token and the messages
/// gathered so far.
pub struct Cursor {
    pub position: nat,
    pub errors: Seq<Seq<char>>,
}

/// The number of tokens from the cursor on.
pub open spec fn remaining(ts: Seq<TokenView>, c: Cursor) -> nat {
    if c.position <= ts.len() {
        (ts.len() - c.position) as nat
    } else {
        0
    }
}

/// The current token; the end marker past the last token.
pub open spec fn current(ts: Seq<TokenView>, c: Cursor) -> TokenView {
    if c.position < ts.len() {
        ts[c.position as int]
    } else {
        TokenView::Eof
    }
}

/// The token after the current one; the end marker if there is none.
pub open spec fn peek(ts: Seq<TokenView>, c: Cursor) -> TokenView {
    if c.position + 1 < ts.len() {
        ts[c.position as int + 1]
    } else {
        TokenView::Eof
    }
}

/// The cursor one token on; at the end it stays.
pub open spec fn advance(ts: Seq<TokenView>, c: Cursor) -> Cursor {
    if c.position < ts.len() {
        Cursor { position: c.position + 1, errors: c.errors }
    } else {
        c
    }
}

/// The cursor with one more message.
pub open spec fn complain(c: Cursor, message: Seq<char>) -> Cursor {
    Cursor { position: c.position, errors: c.errors.push(message) }
}

/// The message for a token that was expected next and did not come.
pub open spec fn expected_message(expected: TokenView, got: TokenView) -> Seq<char> {
    "expected next token to be "@ + token_text(expected) + ", got "@ + token_text(got)
        + " instead"@
}

/// The cursor with the message that `expected` did not come next.
pub open spec fn peek_error(ts: Seq<TokenView>, c: Cursor, expected: TokenView) -> Cursor {
    complain(c, expected_message(expected, peek(ts, c)))
}

/// Steps over the next token if it is `expected`; else leaves a message.
pub open spec fn expect_peek(ts: Seq<TokenView>, c: Cursor, expected: TokenView) -> (
    bool,
    Cursor,
) {
    if peek(ts, c) == expected {
        (true, advance(ts, c))
    } else {
        (false, peek_error(ts, c, expected))
    }
}

/// The cursor on the next semicolon at or after it, or at the end.
pub open spec fn skip_to_semicolon(ts: Seq<TokenView>, c: Cursor) -> Cursor
    decreases remaining(ts, c),
{
    if c.position < ts.len() && ts[c.position as int] != TokenView::Semicolon {
        skip_to_semicolon(ts, advance(ts, c))
    } else {
        c
    }
}

/// How strongly a token binds as an operator between or behind operands.
pub open spec fn token_precedence(t: TokenView) -> Precedence {
    match t {
        TokenView::Equals | TokenView::NotEquals => Precedence::Equals,
        TokenView::Less | TokenView::LessEqual => Precedence::LessGreater,
        TokenView::Greater | TokenView::GreaterEqual => Precedence::LessGreater,
        TokenView::Plus | TokenView::Minus => Precedence::Sum,
        TokenView::Slash | TokenView::Asterisk | TokenView::Percent => Precedence::Product,
        TokenView::LeftBracket => Precedence::Index,
        TokenView::LeftParen => Precedence::Call,
        TokenView::In => Precedence::In,
        TokenView::LeftShift => Precedence::LeftShift,
        TokenView::RightShift => Precedence::RightShift,
        TokenView::AND => Precedence::AND,
        TokenView::OR => Precedence::OR,
        TokenView::XOR => Precedence::XOR,
        _ => Precedence::Lowest,
    }
}

/// The place of a precedence level in the order of levels, weakest first.
pub open spec fn precedence_rank(p: Precedence) -> nat {
    match p {
        Precedence::Lowest => 0,
        Precedence::Equals => 1,
        Precedence::LessGreater => 2,
        Precedence::Sum => 3,
        Precedence::Product => 4,
        Precedence::Prefix => 5,
        Precedence::Call => 6,
        Precedence::Index => 7,
        Precedence::In => 8,
        Precedence::LeftShift => 9,
        Precedence::RightShift => 10,
        Precedence::AND => 11,
        Precedence::OR => 12,
        Precedence::XOR => 13,
    }
}

/// The binary operator that a token denotes.
pub open spec fn infix_of(t: TokenView) -> Option<Infix> {
    match t {
        TokenView::Plus => Some(Infix::Plus),
        TokenView::Minus => Some(Infix::Minus),
        TokenView::Slash => Some(Infix::Divide),
        TokenView::Asterisk => Some(Infix::Times),
        TokenView::Percent => Some(Infix::Modulo),
        TokenView::Equals => Some(Infix::Equals),
        TokenView::NotEquals => Some(Infix::NotEquals),
        TokenView::Less => Some(Infix::LessThan),
        TokenView::Greater => Some(Infix::GreaterThan),
        TokenView::LessEqual => Some(Infix::LessThanEqual),
        TokenView::GreaterEqual => Some(Infix::GreaterThanEqual),
        TokenView::LeftShift => Some(Infix::LeftShift),
        TokenView::RightShift => Some(Infix::RightShift),
        TokenView::AND => Some(Infix::AND),
        TokenView::OR => Some(Infix::OR),
        TokenView::XOR => Some(Infix::XOR),
        TokenView::In => Some(Infix::In),
        _ => None,
    }
}

/// The unary operator that a token denotes.
pub open spec fn prefix_of(t: TokenView) -> Option<Prefix> {
    match t {
        TokenView::Bang => Some(Prefix::Exclamation),
        TokenView::Minus => Some(Prefix::Minus),
        TokenView::Plus => Some(Prefix::Plus),
        _ => None,
    }
}

/// The number of points in a numeral.
pub open spec fn points(numeral: Seq<char>) -> nat
    decreases numeral.len(),
{
    if numeral.len() == 0 {
        0
    } else {
        points(numeral.drop_last()) + if numeral.last() == '.' {
            1nat
        } else {
            0nat
        }
    }
}

/// A numeral denotes a number if it holds at most one point.
pub open spec fn numeral_is_valid(numeral: Seq<char>) -> bool {
    points(numeral) <= 1
}

/// The message for a numeral that denotes no number.
pub open spec fn numeral_message(numeral: Seq<char>) -> Seq<char> {
    "malformed number: "@ + numeral
}

/// The message for a parameter that is no identifier.
pub open spec fn parameter_message(got: TokenView) -> Seq<char> {
    "Expected identifier as parameter name. Got: "@ + token_text(got)
}

/// An expression, read with operators that bind more strongly than
/// `precedence`.
pub open spec fn parse_expr(ts: Seq<TokenView>, c: Cursor, precedence: Precedence) -> (
    Option<ExprView>,
    Cursor,
)
    decreases remaining(ts, c), 5nat,
{
    if c.position >= ts.len() {
        (None, c)
    } else {
        let (left, c1) = parse_primary(ts, c);
        match left {
            Some(e) => if c1.position >= c.position {
                parse_operators(ts, c1, precedence, e)
            } else {
                (None, c1)
            },
            None => (None, c1),
        }
    }
}

/// The operators, calls and indexings that follow the operand `left`, as far
/// as they bind more strongly than `precedence`.
pub open spec fn parse_operators(
    ts: Seq<TokenView>,
    c: Cursor,
    precedence: Precedence,
    left: ExprView,
) -> (Option<ExprView>, Cursor)
    decreases remaining(ts, c), 3nat,
{
    let next = peek(ts, c);
    if next != TokenView::Semicolon && precedence_rank(precedence) < precedence_rank(
        token_precedence(next),
    ) {
        let c1 = advance(ts, c);
        let (combined, c2) = if next == TokenView::LeftParen {
            parse_call_expr(ts, c1, left)
        } else if next == TokenView::LeftBracket {
            parse_index_expr(ts, c1, left)
        } else {
            parse_infix_expr(ts, c1, left)
        };
        match combined {
            Some(e) => if c2.position > c.position {
                parse_operators(ts, c2, precedence, e)
            } else {
                (None, c2)
            },
            None => (None, c2),
        }
    } else {
        (Some(left), c)
    }
}

/// An operand: a literal, an identifier, a prefix operator with its operand,
/// a group in parentheses, or one of the keyword expressions.
pub open spec fn parse_primary(ts: Seq<TokenView>, c: Cursor) -> (Option<ExprView>, Cursor)
    decreases remaining(ts, c), 4nat,
{
    match current(ts, c) {
        TokenView::Ident(name) => (Some(ExprView::Ident(name)), c),
        TokenView::Number(numeral) => if numeral_is_valid(numeral) {
            (Some(ExprView::Literal(LiteralView::Number(numeral))), c)
        } else {
            (None, complain(c, numeral_message(numeral)))
        },
        TokenView::Boolean(b) => (Some(ExprView::Literal(LiteralView::Boolean(b))), c),
        TokenView::String(s) => (Some(ExprView::Literal(LiteralView::String(s))), c),
        TokenView::Bang | TokenView::Minus | TokenView::Plus => parse_prefix_expr(ts, c),
        TokenView::LeftParen => parse_grouped_expr(ts, c),
        TokenView::If => parse_if_expr(ts, c),
        TokenView::Func => parse_fn_expr(ts, c),
        TokenView::LeftBracket => parse_array_literal(ts, c),
        TokenView::LeftBrace => parse_object_literal(ts, c),
        TokenView::Typeof => parse_typeof_expr(ts, c),
        TokenView::Loop => parse_loop_expr(ts, c),
        _ => (None, c),
    }
}

/// A prefix operator, under the cursor, with its operand.
pub open spec fn parse_prefix_expr(ts: Seq<TokenView>, c: Cursor) -> (Option<ExprView>, Cursor)
    decreases remaining(ts, c), 2nat,
{
    match prefix_of(current(ts, c)) {
        Some(op) => {
            let (operand, c1) = parse_expr(ts, advance(ts, c), Precedence::Prefix);
            match operand {
                Some(e) => (Some(ExprView::Prefix(op, Box::new(e))), c1),
                None => (None, c1),
            }
        },
        None => (None, c),
    }
}

/// A binary operator, under the cursor, with its right operand.
pub open spec fn parse_infix_expr(ts: Seq<TokenView>, c: Cursor, left: ExprView) -> (
    Option<ExprView>,
    Cursor,
)
    decreases remaining(ts, c), 2nat,
{
    match infix_of(current(ts, c)) {
        Some(op) => {
            let (right, c1) = parse_expr(
                ts,
                advance(ts, c),
                token_precedence(current(ts, c)),
            );
            match right {
                Some(e) => (Some(ExprView::Infix(op, Box::new(left), Box::new(e))), c1),
                None => (None, c1),
            }
        },
        None => (None, c),
    }
}

/// An expression in parentheses; the opening one is under the cursor.
pub open spec fn parse_grouped_expr(ts: Seq<TokenView>, c: Cursor) -> (
    Option<ExprView>,
    Cursor,
)
    decreases remaining(ts, c), 2nat,
{
    if c.position >= ts.len() {
        (None, c)
    } else {
        let (inner, c1) = parse_expr(ts, advance(ts, c), Precedence::Lowest);
        let (closed, c2) = expect_peek(ts, c1, TokenView::RightParen);
        if closed {
            (inner, c2)
        } else {
            (None, c2)
        }
    }
}

/// A `typeof` expression; the keyword is under the cursor.
pub open spec fn parse_typeof_expr(ts: Seq<TokenView>, c: Cursor) -> (Option<ExprView>, Cursor)
    decreases remaining(ts, c), 2nat,
{
    if c.position >= ts.len() {
        (None, c)
    } else {
        let (operand, c1) = parse_expr(ts, advance(ts, c), Precedence::Lowest);
        match operand {
            Some(e) => (Some(ExprView::Typeof { expr: Box::new(e) }), c1),
            None => (None, c1),
        }
    }
}

/// A loop; the keyword is under the cursor, and the token behind it opens
/// the body.
pub open spec fn parse_loop_expr(ts: Seq<TokenView>, c: Cursor) -> (Option<ExprView>, Cursor)
    decreases remaining(ts, c), 2nat,
{
    if c.position >= ts.len() {
        (None, c)
    } else {
        let (body, c1) = parse_block_statement(ts, advance(ts, c));
        (Some(ExprView::Loop { body }), c1)
    }
}

/// A function literal; the keyword is under the cursor.
pub open spec fn parse_fn_expr(ts: Seq<TokenView>, c: Cursor) -> (Option<ExprView>, Cursor)
    decreases remaining(ts, c), 2nat,
{
    let (opened, c1) = expect_peek(ts, c, TokenView::LeftParen);
    if !opened {
        (None, c1)
    } else {
        let (params, c2) = parse_params(ts, c1);
        match params {
            Some(ps) => if c2.position > c.position {
                let (body, c3) = parse_block_statement(ts, advance(ts, c2));
                (Some(ExprView::Fun { params: ps, body }), c3)
            } else {
                (None, c2)
            },
            None => (None, c2),
        }
    }
}

/// The parameters of a function literal; the opening parenthesis is under
/// the cursor, and the closing one is left under it.
pub open spec fn parse_params(ts: Seq<TokenView>, c: Cursor) -> (Option<Seq<Seq<char>>>, Cursor) {
    if peek(ts, c) == TokenView::RightParen {
        (Some(Seq::empty()), advance(ts, c))
    } else {
        let c1 = advance(ts, c);
        match current(ts, c1) {
            TokenView::Ident(name) => {
                let (rest, c2) = parse_more_params(ts, c1, seq![name]);
                match rest {
                    Some(ps) => {
                        let (closed, c3) = expect_peek(ts, c2, TokenView::RightParen);
                        if closed {
                            (Some(ps), c3)
                        } else {
                            (None, c3)
                        }
                    },
                    None => (None, c2),
                }
            },
            other => (None, complain(c1, parameter_message(other))),
        }
    }
}

/// The parameters that follow the first, each behind a comma.
pub open spec fn parse_more_params(ts: Seq<TokenView>, c: Cursor, found: Seq<Seq<char>>) -> (
    Option<Seq<Seq<char>>>,
    Cursor,
)
    decreases remaining(ts, c),
{
    if peek(ts, c) == TokenView::Comma {
        let c1 = advance(ts, advance(ts, c));
        match current(ts, c1) {
            TokenView::Ident(name) => parse_more_params(ts, c1, found.push(name)),
            _ => (None, c1),
        }
    } else {
        (Some(found), c)
    }
}

/// A conditional; the keyword is under the cursor.
pub open spec fn parse_if_expr(ts: Seq<TokenView>, c: Cursor) -> (Option<ExprView>, Cursor)
    decreases remaining(ts, c), 2nat,
{
    let (opened, c1) = expect_peek(ts, c, TokenView::LeftParen);
    if !opened {
        (None, c1)
    } else {
        let (cond, c2) = parse_expr(ts, advance(ts, c1), Precedence::Lowest);
        match cond {
            None => (None, c2),
            Some(condition) => {
                let (closed, c3) = expect_peek(ts, c2, TokenView::RightParen);
                if !closed {
                    (None, c3)
                } else {
                    let (braced, c4) = expect_peek(ts, c3, TokenView::LeftBrace);
                    if !braced || c4.position <= c.position {
                        (None, c4)
                    } else {
                        let (consequence, c5) = parse_block_statement(ts, c4);
                        if peek(ts, c5) != TokenView::Else {
                            (
                                Some(
                                    ExprView::If {
                                        cond: Box::new(condition),
                                        then_: consequence,
                                        else_: None,
                                    },
                                ),
                                c5,
                            )
                        } else if c5.position < c4.position {
                            (None, c5)
                        } else {
                            let (alternative, c6) = parse_else(ts, advance(ts, c5));
                            match alternative {
                                Some(block) => (
                                    Some(
                                        ExprView::If {
                                            cond: Box::new(condition),
                                            then_: consequence,
                                            else_: Some(block),
                                        },
                                    ),
                                    c6,
                                ),
                                None => (None, c6),
                            }
                        }
                    }
                }
            },
        }
    }
}

/// What follows `else`, which is under the cursor: another conditional, which
/// becomes the only statement of the alternative, or a block.
pub open spec fn parse_else(ts: Seq<TokenView>, c: Cursor) -> (
    Option<Seq<StatementView>>,
    Cursor,
)
    decreases remaining(ts, c), 1nat,
{
    if c.position >= ts.len() {
        (None, c)
    } else if peek(ts, c) == TokenView::If {
        let (nested, c1) = parse_if_expr(ts, advance(ts, c));
        match nested {
            Some(e) => (Some(seq![StatementView::Expression(e)]), c1),
            None => (None, c1),
        }
    } else {
        let (braced, c1) = expect_peek(ts, c, TokenView::LeftBrace);
        if !braced {
            (None, c1)
        } else {
            let (block, c2) = parse_block_statement(ts, c1);
            (Some(block), c2)
        }
    }
}

/// An array literal; the opening bracket is under the cursor.
pub open spec fn parse_array_literal(ts: Seq<TokenView>, c: Cursor) -> (
    Option<ExprView>,
    Cursor,
)
    decreases remaining(ts, c), 2nat,
{
    if c.position >= ts.len() {
        (None, c)
    } else {
        let (list, c1) = parse_expr_list(ts, c, TokenView::RightBracket);
        match list {
            Some(items) => (Some(ExprView::Literal(LiteralView::Array(items))), c1),
            None => (None, c1),
        }
    }
}

/// Expressions with commas between them, up to the token `end`.
pub open spec fn parse_expr_list(ts: Seq<TokenView>, c: Cursor, end: TokenView) -> (
    Option<Seq<ExprView>>,
    Cursor,
)
    decreases remaining(ts, c), 1nat,
{
    if c.position >= ts.len() {
        (None, c)
    } else if peek(ts, c) == end {
        (Some(Seq::empty()), advance(ts, c))
    } else {
        let (first, c1) = parse_expr(ts, advance(ts, c), Precedence::Lowest);
        match first {
            None => (None, c1),
            Some(e) => if c1.position <= c.position {
                (None, c1)
            } else {
                let (rest, c2) = parse_more_items(ts, c1, seq![e]);
                match rest {
                    None => (None, c2),
                    Some(items) => {
                        let (closed, c3) = expect_peek(ts, c2, end);
                        if closed {
                            (Some(items), c3)
                        } else {
                            (None, c3)
                        }
                    },
                }
            },
        }
    }
}

/// The items of a list that follow the first, each behind a comma; a comma
/// before a closing bracket ends the list.
pub open spec fn parse_more_items(ts: Seq<TokenView>, c: Cursor, found: Seq<ExprView>) -> (
    Option<Seq<ExprView>>,
    Cursor,
)
    decreases remaining(ts, c), 0nat,
{
    if peek(ts, c) == TokenView::Comma {
        let c1 = advance(ts, c);
        if peek(ts, c1) == TokenView::RightBracket {
            (Some(found), c1)
        } else {
            let (item, c2) = parse_expr(ts, advance(ts, c1), Precedence::Lowest);
            match item {
                Some(e) => if c2.position > c.position {
                    parse_more_items(ts, c2, found.push(e))
                } else {
                    (None, c2)
                },
                None => (None, c2),
            }
        }
    } else {
        (Some(found), c)
    }
}

/// The arguments of a call; the opening parenthesis is under the cursor.
pub open spec fn parse_call_arguments(ts: Seq<TokenView>, c: Cursor) -> (
    Option<Seq<ExprView>>,
    Cursor,
)
    decreases remaining(ts, c), 1nat,
{
    if c.position >= ts.len() {
        (None, c)
    } else if peek(ts, c) == TokenView::RightParen {
        (Some(Seq::empty()), advance(ts, c))
    } else {
        let (first, c1) = parse_expr(ts, advance(ts, c), Precedence::Lowest);
        match first {
            None => (None, c1),
            Some(e) => if c1.position <= c.position {
                (None, c1)
            } else {
                let (rest, c2) = parse_more_arguments(ts, c1, seq![e]);
                match rest {
                    None => (None, c2),
                    Some(args) => {
                        let (closed, c3) = expect_peek(ts, c2, TokenView::RightParen);
                        if closed {
                            (Some(args), c3)
                        } else {
                            (None, c3)
                        }
                    },
                }
            },
        }
    }
}

/// The arguments that follow the first, each behind a comma.
pub open spec fn parse_more_arguments(ts: Seq<TokenView>, c: Cursor, found: Seq<ExprView>) -> (
    Option<Seq<ExprView>>,
    Cursor,
)
    decreases remaining(ts, c), 0nat,
{
    if peek(ts, c) == TokenView::Comma {
        let (item, c1) = parse_expr(ts, advance(ts, advance(ts, c)), Precedence::Lowest);
        match item {
            Some(e) => if c1.position > c.position {
                parse_more_arguments(ts, c1, found.push(e))
            } else {
                (None, c1)
            },
            None => (None, c1),
        }
    } else {
        (Some(found), c)
    }
}

/// A call of `left`; the opening parenthesis is under the cursor.
pub open spec fn parse_call_expr(ts: Seq<TokenView>, c: Cursor, left: ExprView) -> (
    Option<ExprView>,
    Cursor,
)
    decreases remaining(ts, c), 2nat,
{
    let (args, c1) = parse_call_arguments(ts, c);
    match args {
        Some(a) => (Some(ExprView::Call { function: Box::new(left), args: a }), c1),
        None => (None, c1),
    }
}

/// An indexing of `left`; the opening bracket is under the cursor.
pub open spec fn parse_index_expr(ts: Seq<TokenView>, c: Cursor, left: ExprView) -> (
    Option<ExprView>,
    Cursor,
)
    decreases remaining(ts, c), 2nat,
{
    if c.position >= ts.len() {
        (None, c)
    } else {
        let (index, c1) = parse_expr(ts, advance(ts, c), Precedence::Lowest);
        match index {
            None => (None, c1),
            Some(i) => {
                let (closed, c2) = expect_peek(ts, c1, TokenView::RightBracket);
                if closed {
                    (Some(ExprView::Index { array: Box::new(left), index: Box::new(i) }), c2)
                } else {
                    (None, c2)
                }
            },
        }
    }
}

/// An object literal; the opening brace is under the cursor.
pub open spec fn parse_object_literal(ts: Seq<TokenView>, c: Cursor) -> (
    Option<ExprView>,
    Cursor,
)
    decreases remaining(ts, c), 2nat,
{
    if c.position >= ts.len() {
        (None, c)
    } else {
        let (entries, c1) = parse_entries(ts, c, Seq::empty());
        match entries {
            None => (None, c1),
            Some(pairs) => {
                let (closed, c2) = expect_peek(ts, c1, TokenView::RightBrace);
                if closed {
                    (Some(ExprView::Literal(LiteralView::Object(pairs))), c2)
                } else {
                    (None, c2)
                }
            },
        }
    }
}

/// The entries of an object literal, each a key, a colon and a value, with
/// commas between them, up to the closing brace.
pub open spec fn parse_entries(
    ts: Seq<TokenView>,
    c: Cursor,
    found: Seq<(ExprView, ExprView)>,
) -> (Option<Seq<(ExprView, ExprView)>>, Cursor)
    decreases remaining(ts, c), 1nat,
{
    if c.position >= ts.len() {
        (None, c)
    } else if peek(ts, c) == TokenView::RightBrace {
        (Some(found), c)
    } else {
        let (key, c1) = parse_expr(ts, advance(ts, c), Precedence::Lowest);
        match key {
            None => (None, c1),
            Some(k) => {
                let (colon, c2) = expect_peek(ts, c1, TokenView::Colon);
                if !colon || c2.position <= c.position {
                    (None, c2)
                } else {
                    let (value, c3) = parse_expr(ts, advance(ts, c2), Precedence::Lowest);
                    match value {
                        None => (None, c3),
                        Some(v) => {
                            let pairs = found.push((k, v));
                            if c3.position <= c.position {
                                (None, c3)
                            } else if peek(ts, c3) == TokenView::RightBrace {
                                (Some(pairs), c3)
                            } else {
                                let (comma, c4) = expect_peek(ts, c3, TokenView::Comma);
                                if comma {
                                    parse_entries(ts, c4, pairs)
                                } else {
                                    (None, c4)
                                }
                            }
                        },
                    }
                }
            },
        }
    }
}

/// The statements of a block, up to its closing brace or the end; the token
/// that opens the block is under the cursor.
pub open spec fn parse_block_statement(ts: Seq<TokenView>, c: Cursor) -> (
    Seq<StatementView>,
    Cursor,
)
    decreases remaining(ts, c), 9nat,
{
    if c.position >= ts.len() {
        (Seq::empty(), c)
    } else {
        parse_block_rest(ts, advance(ts, c), Seq::empty())
    }
}

/// The statements of a block from the cursor on, behind those in `found`.
pub open spec fn parse_block_rest(ts: Seq<TokenView>, c: Cursor, found: Seq<StatementView>) -> (
    Seq<StatementView>,
    Cursor,
)
    decreases remaining(ts, c), 8nat,
{
    if c.position >= ts.len() || current(ts, c) == TokenView::RightBrace {
        (found, c)
    } else {
        let (statement, c1) = parse_statement(ts, c);
        let grown = match statement {
            Some(s) => found.push(s),
            None => found,
        };
        let c2 = advance(ts, c1);
        if c2.position > c.position {
            parse_block_rest(ts, c2, grown)
        } else {
            (grown, c2)
        }
    }
}

/// One statement; its first token is under the cursor.
pub open spec fn parse_statement(ts: Seq<TokenView>, c: Cursor) -> (
    Option<StatementView>,
    Cursor,
)
    decreases remaining(ts, c), 7nat,
{
    match current(ts, c) {
        TokenView::Bind => parse_set_statement(ts, c),
        TokenView::Return => parse_return_statement(ts, c),
        TokenView::Include => parse_include_statement(ts, c),
        TokenView::Anew => parse_anew_expr(ts, c),
        TokenView::Break => parse_break_statement(ts, c),
        TokenView::Continue => parse_continue_statement(ts, c),
        _ => parse_expr_statement(ts, c),
    }
}

/// An expression that stands as a statement; a semicolon behind it is
/// stepped over.
pub open spec fn parse_expr_statement(ts: Seq<TokenView>, c: Cursor) -> (
    Option<StatementView>,
    Cursor,
)
    decreases remaining(ts, c), 6nat,
{
    let (expression, c1) = parse_expr(ts, c, Precedence::Lowest);
    match expression {
        Some(e) => (
            Some(StatementView::Expression(e)),
            if peek(ts, c1) == TokenView::Semicolon {
                advance(ts, c1)
            } else {
                c1
            },
        ),
        None => (None, c1),
    }
}

/// A name, `=` and an expression, behind the keyword under the cursor; the
/// cursor is left on the semicolon that ends the statement.
pub open spec fn parse_assignment(ts: Seq<TokenView>, c: Cursor) -> (
    Option<(Seq<char>, ExprView)>,
    Cursor,
)
    decreases remaining(ts, c), 5nat,
{
    match peek(ts, c) {
        TokenView::Ident(name) => {
            let c1 = advance(ts, c);
            let (assigned, c2) = expect_peek(ts, c1, TokenView::Assign);
            if !assigned {
                (None, c2)
            } else {
                let (value, c3) = parse_expr(ts, advance(ts, c2), Precedence::Lowest);
                match value {
                    Some(e) => (Some((name, e)), skip_to_semicolon(ts, c3)),
                    None => (None, c3),
                }
            }
        },
        _ => (None, peek_error(ts, c, TokenView::Ident(Seq::empty()))),
    }
}

/// A statement that binds a name in the current scope.
pub open spec fn parse_set_statement(ts: Seq<TokenView>, c: Cursor) -> (
    Option<StatementView>,
    Cursor,
)
    decreases remaining(ts, c), 6nat,
{
    let (assignment, c1) = parse_assignment(ts, c);
    match assignment {
        Some((name, e)) => (Some(StatementView::Bind(name, e)), c1),
        None => (None, c1),
    }
}

/// A statement that assigns to a name bound before.
pub open spec fn parse_anew_expr(ts: Seq<TokenView>, c: Cursor) -> (
    Option<StatementView>,
    Cursor,
)
    decreases remaining(ts, c), 6nat,
{
    let (assignment, c1) = parse_assignment(ts, c);
    match assignment {
        Some((name, e)) => (Some(StatementView::Anew(name, e)), c1),
        None => (None, c1),
    }
}

/// A return statement; the keyword is under the cursor.
pub open spec fn parse_return_statement(ts: Seq<TokenView>, c: Cursor) -> (
    Option<StatementView>,
    Cursor,
)
    decreases remaining(ts, c), 6nat,
{
    if c.position >= ts.len() {
        (None, c)
    } else {
        let (value, c1) = parse_expr(ts, advance(ts, c), Precedence::Lowest);
        match value {
            Some(e) => (Some(StatementView::Return(e)), skip_to_semicolon(ts, c1)),
            None => (None, c1),
        }
    }
}

/// A statement that names a library; the keyword is under the cursor.
pub open spec fn parse_include_statement(ts: Seq<TokenView>, c: Cursor) -> (
    Option<StatementView>,
    Cursor,
) {
    let c1 = advance(ts, c);
    match current(ts, c1) {
        TokenView::String(name) => (
            Some(StatementView::Include(name)),
            skip_to_semicolon(ts, c1),
        ),
        _ => (None, peek_error(ts, c1, TokenView::String(Seq::empty()))),
    }
}

/// A statement that leaves the enclosing loop.
pub open spec fn parse_break_statement(ts: Seq<TokenView>, c: Cursor) -> (
    Option<StatementView>,
    Cursor,
) {
    (Some(StatementView::Break), skip_to_semicolon(ts, advance(ts, c)))
}

/// A statement that starts the next round of the enclosing loop.
pub open spec fn parse_continue_statement(ts: Seq<TokenView>, c: Cursor) -> (
    Option<StatementView>,
    Cursor,
) {
    (Some(StatementView::Continue), skip_to_semicolon(ts, advance(ts, c)))
}

/// The statements of a program from the cursor on, behind those in `found`.
pub open spec fn parse_program_rest(
    ts: Seq<TokenView>,
    c: Cursor,
    found: Seq<StatementView>,
) -> (Seq<StatementView>, Cursor)
    decreases remaining(ts, c), 10nat,
{
    if c.position >= ts.len() || current(ts, c) == TokenView::Eof {
        (found, c)
    } else {
        let (statement, c1) = parse_statement(ts, c);
        let grown = match statement {
            Some(s) => found.push(s),
            None => found,
        };
        let c2 = advance(ts, c1);
        if c2.position > c.position {
            parse_program_rest(ts, c2, grown)
        } else {
            (grown, c2)
        }
    }
}

/// The program that a sequence of tokens denotes, and the messages on what
/// could not be read.
pub open spec fn parse_program(ts: Seq<TokenView>) -> (Seq<StatementView>, Seq<Seq<char>>) {
    let (statements, c) = parse_program_rest(
        ts,
        Cursor { position: 0, errors: Seq::empty() },
        Seq::empty(),
    );
    (statements, c.errors)
}

} // verus!
