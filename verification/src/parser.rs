//! The parser: builds the syntax tree of a program from its tokens.

use crate::ast::{
    block_view, exprs_view, idents_view, lemma_block_push, lemma_exprs_push, lemma_idents_push,
    lemma_pairs_push, opt_expr_view, opt_statement_view, pairs_view, BlockStatement, Expr, Ident,
    Infix, Literal, Precedence, Prefix, Program, Statement,
};
use crate::grammar;
use crate::grammar::{remaining, Cursor};
use crate::lexer::{lemma_token_advances, tokens_from, Lexer};
use crate::token::{Token, TokenView};
use vstd::prelude::*;
use vstd::string::*;

verus! {

/// The texts of a list of strings.
pub open spec fn texts(v: Seq<String>) -> Seq<Seq<char>> {
    Seq::new(v.len(), |i: int| v[i]@)
}

/// The models of a list of tokens.
pub open spec fn token_views(v: Seq<Token>) -> Seq<TokenView> {
    Seq::new(v.len(), |i: int| v[i]@)
}

/// The models of the names of a parameter list that may be missing.
pub open spec fn opt_idents_view(o: Option<Vec<Ident>>) -> Option<Seq<Seq<char>>> {
    match o {
        Some(v) => Some(idents_view(v@)),
        None => None,
    }
}

/// The models of a list of expressions that may be missing.
pub open spec fn opt_exprs_view(o: Option<Vec<Expr>>) -> Option<Seq<crate::ast::ExprView>> {
    match o {
        Some(v) => Some(exprs_view(v)),
        None => None,
    }
}

/// The models of the entries of an object literal that may be missing.
pub open spec fn opt_pairs_view(o: Option<Vec<(Expr, Expr)>>) -> Option<
    Seq<(crate::ast::ExprView, crate::ast::ExprView)>,
> {
    match o {
        Some(v) => Some(pairs_view(v)),
        None => None,
    }
}

/// The models of the statements of a block that may be missing.
pub open spec fn opt_block_view(o: Option<Vec<Statement>>) -> Option<
    Seq<crate::ast::StatementView>,
> {
    match o {
        Some(v) => Some(block_view(v)),
        None => None,
    }
}

/// Whether a numeral holds at most one point.
pub fn numeral_is_valid(numeral: &str) -> (r: bool)
    ensures
        r == grammar::numeral_is_valid(numeral@),
{
    let n = numeral.unicode_len();
    let mut count: usize = 0;
    let mut i: usize = 0;
    while i < n
        invariant
            i <= n,
            n == numeral@.len(),
            count <= i,
            count == grammar::points(numeral@.subrange(0, i as int)),
        decreases n - i,
    {
        proof {
            assert(numeral@.subrange(0, i + 1).drop_last() =~= numeral@.subrange(0, i as int));
        }
        if numeral.get_char(i) == '.' {
            count += 1;
        }
        i += 1;
    }
    proof {
        assert(numeral@.subrange(0, n as int) =~= numeral@);
    }
    count <= 1
}

impl Precedence {
    /// The place of the level in the order of levels, weakest first.
    pub fn rank(&self) -> (r: u8)
        ensures
            r == grammar::precedence_rank(*self),
    {
        match self {
            Precedence::Lowest => 0,
            Precedence::Equals => 1,
            Precedence::LessGreater => 2,
            Precedence::Sum => 3,
            Precedence::Product => 4,
            Precedence::Prefix => 5,
            Precedence::Call => 6,
            Precedence::Index => 7,
            Precedence::In => 8,
            Precedence::LeftShift => 9,
            Precedence::RightShift => 10,
            Precedence::AND => 11,
            Precedence::OR => 12,
            Precedence::XOR => 13,
        }
    }
}

/// A parser over the tokens of one source text.
pub struct Parser {
    tokens: Vec<Token>,
    position: usize,
    /// What could not be read, in the order in which it was met.
    pub errors: Vec<String>,
}

impl Parser {
    /// The tokens that are parsed.
    pub closed spec fn tokens_view(&self) -> Seq<TokenView> {
        token_views(self.tokens@)
    }

    /// The position of the current token.
    pub closed spec fn place(&self) -> nat {
        self.position as nat
    }

    /// The texts of the errors gathered so far.
    pub closed spec fn messages(&self) -> Seq<Seq<char>> {
        texts(self.errors@)
    }

    /// Where the parser stands: at `place()`, with `messages()` gathered.
    pub open spec fn cursor(&self) -> Cursor {
        Cursor { position: self.place(), errors: self.messages() }
    }

    /// The parser reads the same tokens as `before` and stands no earlier.
    pub open spec fn follows(&self, before: &Parser) -> bool {
        &&& self.tokens_view() == before.tokens_view()
        &&& self.place() >= before.place()
    }

    /// A parser over the tokens that `lexer` gives from its cursor on.
    pub fn new(lexer: Lexer) -> (p: Parser)
        ensures
            p.tokens_view() == tokens_from(lexer.text(), lexer.cursor()),
            p.place() == 0,
            p.messages().len() == 0,
    {
        let mut lexer = lexer;
        let mut tokens: Vec<Token> = Vec::new();
        let ghost text = lexer.text();
        let ghost start = lexer.cursor();
        loop
            invariant_except_break
                tokens_from(text, start) == token_views(tokens@) + tokens_from(
                    text,
                    lexer.cursor(),
                ),
            invariant
                lexer.text() == text,
            ensures
                tokens_from(text, start) == token_views(tokens@),
            decreases text.len() - lexer.cursor(),
        {
            let ghost before = lexer.cursor();
            let ghost seen = tokens@;
            let token = lexer.next_token();
            proof {
                lemma_token_advances(text, before);
            }
            if token.code() == Token::Eof.code() {
                proof {
                    assert(token_views(tokens@) + Seq::<TokenView>::empty() =~= token_views(
                        tokens@,
                    ));
                }
                break;
            }
            tokens.push(token);
            proof {
                assert(token_views(tokens@) =~= token_views(seen) + seq![token@]);
                assert(token_views(seen) + (seq![token@] + tokens_from(text, lexer.cursor()))
                    =~= token_views(tokens@) + tokens_from(text, lexer.cursor()));
            }
        }
        Parser { tokens, position: 0, errors: Vec::new() }
    }

    /// Moves on to the next token; at the end the parser stays.
    pub fn next_token(&mut self)
        ensures
            final(self).follows(old(self)),
            final(self).cursor() == grammar::advance(old(self).tokens_view(), old(self).cursor()),
    {
        if self.position < self.tokens.len() {
            self.position = self.position + 1;
        }
    }

    /// A copy of the current token.
    fn current(&self) -> (t: Token)
        ensures
            t@ == grammar::current(self.tokens_view(), self.cursor()),
    {
        if self.position < self.tokens.len() {
            self.tokens[self.position].duplicate()
        } else {
            Token::Eof
        }
    }

    /// A copy of the token after the current one.
    fn peek(&self) -> (t: Token)
        ensures
            t@ == grammar::peek(self.tokens_view(), self.cursor()),
    {
        if self.position < self.tokens.len() && self.position + 1 < self.tokens.len() {
            self.tokens[self.position + 1].duplicate()
        } else {
            Token::Eof
        }
    }

    /// Whether the token after the current one is `t`.
    fn peek_token(&self, t: &Token) -> (r: bool)
        ensures
            r == (grammar::peek(self.tokens_view(), self.cursor()) == t@),
    {
        if self.position < self.tokens.len() && self.position + 1 < self.tokens.len() {
            self.tokens[self.position + 1].same(t)
        } else {
            Token::Eof.same(t)
        }
    }

    /// Whether the current token is `t`.
    fn current_token(&self, t: Token) -> (r: bool)
        ensures
            r == (grammar::current(self.tokens_view(), self.cursor()) == t@),
    {
        if self.position < self.tokens.len() {
            self.tokens[self.position].same(&t)
        } else {
            Token::Eof.same(&t)
        }
    }

    /// Adds a message to the errors.
    fn complain(&mut self, message: String)
        ensures
            final(self).follows(old(self)),
            final(self).cursor() == grammar::complain(old(self).cursor(), message@),
    {
        self.errors.push(message);
        proof {
            assert(texts(self.errors@) =~= texts(old(self).errors@).push(message@));
        }
    }

    /// Adds the message that `t` was expected next.
    fn peek_error(&mut self, t: Token)
        ensures
            final(self).follows(old(self)),
            final(self).cursor() == grammar::peek_error(
                old(self).tokens_view(),
                old(self).cursor(),
                t@,
            ),
    {
        let mut msg = String::from_str("expected next token to be ");
        msg.append(t.text().as_str());
        msg.append(", got ");
        msg.append(self.peek().text().as_str());
        msg.append(" instead");
        self.complain(msg);
    }

    /// Steps over the next token if it is `t`; else adds a message.
    fn expect_peek(&mut self, t: Token) -> (r: bool)
        ensures
            final(self).follows(old(self)),
            (r, final(self).cursor()) == grammar::expect_peek(
                old(self).tokens_view(),
                old(self).cursor(),
                t@,
            ),
    {
        if self.peek_token(&t) {
            self.next_token();
            true
        } else {
            self.peek_error(t);
            false
        }
    }

    /// Moves on to the next semicolon, or to the end.
    fn skip_to_semicolon(&mut self)
        ensures
            final(self).follows(old(self)),
            final(self).cursor() == grammar::skip_to_semicolon(
                old(self).tokens_view(),
                old(self).cursor(),
            ),
    {
        while self.position < self.tokens.len() && !self.current_token(Token::Semicolon)
            invariant
                self.follows(old(self)),
                grammar::skip_to_semicolon(self.tokens_view(), self.cursor())
                    == grammar::skip_to_semicolon(old(self).tokens_view(), old(self).cursor()),
            decreases remaining(self.tokens_view(), self.cursor()),
        {
            self.next_token();
        }
    }

    /// How strongly a token binds as an operator.
    fn token_to_precedence(tok: &Token) -> (r: Precedence)
        ensures
            r == grammar::token_precedence(tok@),
    {
        match tok {
            Token::Equals | Token::NotEquals => Precedence::Equals,
            Token::Less | Token::LessEqual => Precedence::LessGreater,
            Token::Greater | Token::GreaterEqual => Precedence::LessGreater,
            Token::Plus | Token::Minus => Precedence::Sum,
            Token::Slash | Token::Asterisk | Token::Percent => Precedence::Product,
            Token::LeftBracket => Precedence::Index,
            Token::LeftParen => Precedence::Call,
            Token::In => Precedence::In,
            Token::LeftShift => Precedence::LeftShift,
            Token::RightShift => Precedence::RightShift,
            Token::AND => Precedence::AND,
            Token::OR => Precedence::OR,
            Token::XOR => Precedence::XOR,
            _ => Precedence::Lowest,
        }
    }

    /// How strongly the current token binds.
    fn current_token_precedence(&self) -> (r: Precedence)
        ensures
            r == grammar::token_precedence(grammar::current(self.tokens_view(), self.cursor())),
    {
        let t = self.current();
        Self::token_to_precedence(&t)
    }

}

impl Parser {
    /// Parses an expression whose first token is the current one, with the
    /// operators behind it that bind more strongly than `precedence`. The
    /// parser is left on the last token of the expression.
    pub fn parse_expr(&mut self, precedence: Precedence) -> (r: Option<Expr>)
        ensures
            final(self).follows(old(self)),
            (opt_expr_view(r), final(self).cursor()) == grammar::parse_expr(
                old(self).tokens_view(),
                old(self).cursor(),
                precedence,
            ),
        decreases remaining(old(self).tokens_view(), old(self).cursor()), 5nat,
    {
        if self.position >= self.tokens.len() {
            return None;
        }
        match self.parse_primary() {
            Some(e) => self.parse_operators(precedence, e),
            None => None,
        }
    }

    fn parse_operators(&mut self, precedence: Precedence, left: Expr) -> (r: Option<Expr>)
        ensures
            final(self).follows(old(self)),
            (opt_expr_view(r), final(self).cursor()) == grammar::parse_operators(
                old(self).tokens_view(),
                old(self).cursor(),
                precedence,
                left@,
            ),
        decreases remaining(old(self).tokens_view(), old(self).cursor()), 3nat,
    {
        let next = self.peek();
        if next.code() != Token::Semicolon.code() && precedence.rank() < Self::token_to_precedence(
            &next,
        ).rank() {
            self.next_token();
            let combined = if next.code() == Token::LeftParen.code() {
                self.parse_call_expr(left)
            } else if next.code() == Token::LeftBracket.code() {
                self.parse_index_expr(left)
            } else {
                self.parse_infix_expr(left)
            };
            match combined {
                Some(e) => self.parse_operators(precedence, e),
                None => None,
            }
        } else {
            Some(left)
        }
    }

    fn parse_primary(&mut self) -> (r: Option<Expr>)
        ensures
            final(self).follows(old(self)),
            (opt_expr_view(r), final(self).cursor()) == grammar::parse_primary(
                old(self).tokens_view(),
                old(self).cursor(),
            ),
        decreases remaining(old(self).tokens_view(), old(self).cursor()), 4nat,
    {
        proof {
            reveal_with_fuel(crate::ast::expr_view, 2);
        }
        match self.current() {
            Token::Ident(name) => Some(Expr::Ident(Ident(name))),
            Token::Number(numeral) => self.parse_int_literal(numeral),
            Token::Boolean(b) => Some(Expr::Literal(Literal::Boolean(b))),
            Token::String(s) => Some(Expr::Literal(Literal::String(s))),
            Token::Bang | Token::Minus | Token::Plus => self.parse_prefix_expr(),
            Token::LeftParen => self.parse_grouped_expr(),
            Token::If => self.parse_if_expr(),
            Token::Func => self.parse_fn_expr(),
            Token::LeftBracket => self.parse_array_literal(),
            Token::LeftBrace => self.parse_object_literal(),
            Token::Typeof => self.parse_typof_expr(),
            Token::Loop => self.parse_loop_expr(),
            _ => None,
        }
    }

    /// A number literal from its numeral; a numeral with more than one point
    /// is reported and gives nothing.
    fn parse_int_literal(&mut self, numeral: String) -> (r: Option<Expr>)
        ensures
            final(self).follows(old(self)),
            grammar::numeral_is_valid(numeral@) ==> opt_expr_view(r) == Some(
                crate::ast::ExprView::Literal(crate::ast::LiteralView::Number(numeral@)),
            ) && final(self).cursor() == old(self).cursor(),
            !grammar::numeral_is_valid(numeral@) ==> r.is_none() && final(self).cursor()
                == grammar::complain(old(self).cursor(), grammar::numeral_message(numeral@)),
    {
        proof {
            reveal_with_fuel(crate::ast::expr_view, 2);
        }
        if numeral_is_valid(numeral.as_str()) {
            Some(Expr::Literal(Literal::Number(numeral)))
        } else {
            let mut msg = String::from_str("malformed number: ");
            msg.append(numeral.as_str());
            self.complain(msg);
            None
        }
    }

    fn parse_prefix_expr(&mut self) -> (r: Option<Expr>)
        ensures
            final(self).follows(old(self)),
            (opt_expr_view(r), final(self).cursor()) == grammar::parse_prefix_expr(
                old(self).tokens_view(),
                old(self).cursor(),
            ),
        decreases remaining(old(self).tokens_view(), old(self).cursor()), 2nat,
    {
        let prefix = match self.current() {
            Token::Bang => Prefix::Exclamation,
            Token::Minus => Prefix::Minus,
            Token::Plus => Prefix::Plus,
            _ => {
                return None;
            },
        };
        self.next_token();
        match self.parse_expr(Precedence::Prefix) {
            Some(e) => Some(Expr::Prefix(prefix, Box::new(e))),
            None => None,
        }
    }

    fn parse_infix_expr(&mut self, left: Expr) -> (r: Option<Expr>)
        ensures
            final(self).follows(old(self)),
            (opt_expr_view(r), final(self).cursor()) == grammar::parse_infix_expr(
                old(self).tokens_view(),
                old(self).cursor(),
                left@,
            ),
        decreases remaining(old(self).tokens_view(), old(self).cursor()), 2nat,
    {
        let infix = match self.current() {
            Token::Plus => Infix::Plus,
            Token::Minus => Infix::Minus,
            Token::Slash => Infix::Divide,
            Token::Asterisk => Infix::Times,
            Token::Percent => Infix::Modulo,
            Token::Equals => Infix::Equals,
            Token::NotEquals => Infix::NotEquals,
            Token::Less => Infix::LessThan,
            Token::Greater => Infix::GreaterThan,
            Token::LessEqual => Infix::LessThanEqual,
            Token::GreaterEqual => Infix::GreaterThanEqual,
            Token::LeftShift => Infix::LeftShift,
            Token::RightShift => Infix::RightShift,
            Token::AND => Infix::AND,
            Token::OR => Infix::OR,
            Token::XOR => Infix::XOR,
            Token::In => Infix::In,
            _ => {
                return None;
            },
        };
        let precedence = self.current_token_precedence();
        self.next_token();
        match self.parse_expr(precedence) {
            Some(e) => Some(Expr::Infix(infix, Box::new(left), Box::new(e))),
            None => None,
        }
    }

    fn parse_grouped_expr(&mut self) -> (r: Option<Expr>)
        ensures
            final(self).follows(old(self)),
            (opt_expr_view(r), final(self).cursor()) == grammar::parse_grouped_expr(
                old(self).tokens_view(),
                old(self).cursor(),
            ),
        decreases remaining(old(self).tokens_view(), old(self).cursor()), 2nat,
    {
        if self.position >= self.tokens.len() {
            return None;
        }
        self.next_token();
        let exp = self.parse_expr(Precedence::Lowest);
        if !self.expect_peek(Token::RightParen) {
            return None;
        }
        exp
    }

    fn parse_typof_expr(&mut self) -> (r: Option<Expr>)
        ensures
            final(self).follows(old(self)),
            (opt_expr_view(r), final(self).cursor()) == grammar::parse_typeof_expr(
                old(self).tokens_view(),
                old(self).cursor(),
            ),
        decreases remaining(old(self).tokens_view(), old(self).cursor()), 2nat,
    {
        if self.position >= self.tokens.len() {
            return None;
        }
        self.next_token();
        match self.parse_expr(Precedence::Lowest) {
            Some(e) => Some(Expr::Typeof { expr: Box::new(e) }),
            None => None,
        }
    }

    fn parse_loop_expr(&mut self) -> (r: Option<Expr>)
        ensures
            final(self).follows(old(self)),
            (opt_expr_view(r), final(self).cursor()) == grammar::parse_loop_expr(
                old(self).tokens_view(),
                old(self).cursor(),
            ),
        decreases remaining(old(self).tokens_view(), old(self).cursor()), 2nat,
    {
        if self.position >= self.tokens.len() {
            return None;
        }
        self.next_token();
        let body = self.parse_block_statement();
        Some(Expr::Loop { body })
    }

    fn parse_fn_expr(&mut self) -> (r: Option<Expr>)
        ensures
            final(self).follows(old(self)),
            (opt_expr_view(r), final(self).cursor()) == grammar::parse_fn_expr(
                old(self).tokens_view(),
                old(self).cursor(),
            ),
        decreases remaining(old(self).tokens_view(), old(self).cursor()), 2nat,
    {
        if !self.expect_peek(Token::LeftParen) {
            return None;
        }
        let params = match self.parse_params() {
            Some(s) => s,
            None => {
                return None;
            },
        };
        self.next_token();
        let body = self.parse_block_statement();
        Some(Expr::Fun { params, body })
    }

    fn parse_params(&mut self) -> (r: Option<Vec<Ident>>)
        ensures
            final(self).follows(old(self)),
            (opt_idents_view(r), final(self).cursor()) == grammar::parse_params(
                old(self).tokens_view(),
                old(self).cursor(),
            ),
    {
        let mut idents: Vec<Ident> = Vec::new();
        if self.peek_token(&Token::RightParen) {
            self.next_token();
            proof {
                assert(idents_view(idents@) =~= Seq::empty());
            }
            return Some(idents);
        }
        self.next_token();
        match self.current() {
            Token::Ident(name) => {
                idents.push(Ident(name));
                proof {
                    assert(idents_view(idents@) =~= seq![name@]);
                }
            },
            other => {
                let mut msg = String::from_str("Expected identifier as parameter name. Got: ");
                msg.append(other.text().as_str());
                self.complain(msg);
                return None;
            },
        }
        let idents = match self.parse_more_params(idents) {
            Some(found) => found,
            None => {
                return None;
            },
        };
        if !self.expect_peek(Token::RightParen) {
            return None;
        }
        Some(idents)
    }

    fn parse_more_params(&mut self, found: Vec<Ident>) -> (r: Option<Vec<Ident>>)
        ensures
            final(self).follows(old(self)),
            (opt_idents_view(r), final(self).cursor()) == grammar::parse_more_params(
                old(self).tokens_view(),
                old(self).cursor(),
                idents_view(found@),
            ),
        decreases remaining(old(self).tokens_view(), old(self).cursor()),
    {
        let mut found = found;
        if self.peek_token(&Token::Comma) {
            self.next_token();
            self.next_token();
            match self.current() {
                Token::Ident(name) => {
                    proof {
                        lemma_idents_push(found@, Ident(name));
                    }
                    found.push(Ident(name));
                    self.parse_more_params(found)
                },
                _ => None,
            }
        } else {
            Some(found)
        }
    }
}

impl Parser {
    fn parse_if_expr(&mut self) -> (r: Option<Expr>)
        ensures
            final(self).follows(old(self)),
            (opt_expr_view(r), final(self).cursor()) == grammar::parse_if_expr(
                old(self).tokens_view(),
                old(self).cursor(),
            ),
        decreases remaining(old(self).tokens_view(), old(self).cursor()), 2nat,
    {
        if !self.expect_peek(Token::LeftParen) {
            return None;
        }
        self.next_token();
        let expr: Expr = match self.parse_expr(Precedence::Lowest) {
            Some(e) => e,
            None => {
                return None;
            },
        };
        if !self.expect_peek(Token::RightParen) {
            return None;
        }
        if !self.expect_peek(Token::LeftBrace) {
            return None;
        }
        let cons: Vec<Statement> = self.parse_block_statement();
        if !self.peek_token(&Token::Else) {
            return Some(Expr::If { cond: Box::new(expr), then_: Box::new(cons), else_: None });
        }
        self.next_token();
        match self.parse_else() {
            Some(alternative) => Some(
                Expr::If { cond: Box::new(expr), then_: Box::new(cons), else_: Some(alternative) },
            ),
            None => None,
        }
    }

    fn parse_else(&mut self) -> (r: Option<Vec<Statement>>)
        ensures
            final(self).follows(old(self)),
            (opt_block_view(r), final(self).cursor()) == grammar::parse_else(
                old(self).tokens_view(),
                old(self).cursor(),
            ),
        decreases remaining(old(self).tokens_view(), old(self).cursor()), 1nat,
    {
        if self.position >= self.tokens.len() {
            return None;
        }
        if self.peek_token(&Token::If) {
            self.next_token();
            match self.parse_if_expr() {
                Some(else_if) => {
                    let mut block: Vec<Statement> = Vec::new();
                    let statement = Statement::Expression(else_if);
                    block.push(statement);
                    proof {
                        assert(block_view(block) =~= seq![statement@]);
                    }
                    Some(block)
                },
                None => None,
            }
        } else if !self.expect_peek(Token::LeftBrace) {
            None
        } else {
            Some(self.parse_block_statement())
        }
    }

    fn parse_array_literal(&mut self) -> (r: Option<Expr>)
        ensures
            final(self).follows(old(self)),
            (opt_expr_view(r), final(self).cursor()) == grammar::parse_array_literal(
                old(self).tokens_view(),
                old(self).cursor(),
            ),
        decreases remaining(old(self).tokens_view(), old(self).cursor()), 2nat,
    {
        if self.position >= self.tokens.len() {
            return None;
        }
        proof {
            reveal_with_fuel(crate::ast::expr_view, 2);
        }
        match self.parse_expr_list(Token::RightBracket) {
            Some(list) => Some(Expr::Literal(Literal::Array(list))),
            None => None,
        }
    }

    fn parse_expr_list(&mut self, end: Token) -> (r: Option<Vec<Expr>>)
        ensures
            final(self).follows(old(self)),
            (opt_exprs_view(r), final(self).cursor()) == grammar::parse_expr_list(
                old(self).tokens_view(),
                old(self).cursor(),
                end@,
            ),
        decreases remaining(old(self).tokens_view(), old(self).cursor()), 1nat,
    {
        let mut list: Vec<Expr> = Vec::new();
        if self.position >= self.tokens.len() {
            return None;
        }
        if self.peek_token(&end) {
            self.next_token();
            proof {
                assert(exprs_view(list) =~= Seq::empty());
            }
            return Some(list);
        }
        self.next_token();
        match self.parse_expr(Precedence::Lowest) {
            Some(a) => {
                list.push(a);
                proof {
                    assert(exprs_view(list) =~= seq![a@]);
                }
            },
            None => {
                return None;
            },
        }
        let list = match self.parse_more_items(list) {
            Some(l) => l,
            None => {
                return None;
            },
        };
        if !self.expect_peek(end) {
            return None;
        }
        Some(list)
    }

    fn parse_more_items(&mut self, found: Vec<Expr>) -> (r: Option<Vec<Expr>>)
        ensures
            final(self).follows(old(self)),
            (opt_exprs_view(r), final(self).cursor()) == grammar::parse_more_items(
                old(self).tokens_view(),
                old(self).cursor(),
                exprs_view(found),
            ),
        decreases remaining(old(self).tokens_view(), old(self).cursor()), 0nat,
    {
        let mut found = found;
        if self.peek_token(&Token::Comma) {
            self.next_token();
            if self.peek_token(&Token::RightBracket) {
                return Some(found);
            }
            self.next_token();
            match self.parse_expr(Precedence::Lowest) {
                Some(e) => {
                    let ghost before = found;
                    found.push(e);
                    proof {
                        lemma_exprs_push(before, found, e);
                    }
                    self.parse_more_items(found)
                },
                None => None,
            }
        } else {
            Some(found)
        }
    }

    fn parse_call_arguments(&mut self) -> (r: Option<Vec<Expr>>)
        ensures
            final(self).follows(old(self)),
            (opt_exprs_view(r), final(self).cursor()) == grammar::parse_call_arguments(
                old(self).tokens_view(),
                old(self).cursor(),
            ),
        decreases remaining(old(self).tokens_view(), old(self).cursor()), 1nat,
    {
        let mut args: Vec<Expr> = Vec::new();
        if self.position >= self.tokens.len() {
            return None;
        }
        if self.peek_token(&Token::RightParen) {
            self.next_token();
            proof {
                assert(exprs_view(args) =~= Seq::empty());
            }
            return Some(args);
        }
        self.next_token();
        match self.parse_expr(Precedence::Lowest) {
            Some(e) => {
                args.push(e);
                proof {
                    assert(exprs_view(args) =~= seq![e@]);
                }
            },
            None => {
                return None;
            },
        }
        let args = match self.parse_more_arguments(args) {
            Some(a) => a,
            None => {
                return None;
            },
        };
        if !self.expect_peek(Token::RightParen) {
            return None;
        }
        Some(args)
    }

    fn parse_more_arguments(&mut self, found: Vec<Expr>) -> (r: Option<Vec<Expr>>)
        ensures
            final(self).follows(old(self)),
            (opt_exprs_view(r), final(self).cursor()) == grammar::parse_more_arguments(
                old(self).tokens_view(),
                old(self).cursor(),
                exprs_view(found),
            ),
        decreases remaining(old(self).tokens_view(), old(self).cursor()), 0nat,
    {
        let mut found = found;
        if self.peek_token(&Token::Comma) {
            self.next_token();
            self.next_token();
            match self.parse_expr(Precedence::Lowest) {
                Some(e) => {
                    let ghost before = found;
                    found.push(e);
                    proof {
                        lemma_exprs_push(before, found, e);
                    }
                    self.parse_more_arguments(found)
                },
                None => None,
            }
        } else {
            Some(found)
        }
    }

    fn parse_call_expr(&mut self, left: Expr) -> (r: Option<Expr>)
        ensures
            final(self).follows(old(self)),
            (opt_expr_view(r), final(self).cursor()) == grammar::parse_call_expr(
                old(self).tokens_view(),
                old(self).cursor(),
                left@,
            ),
        decreases remaining(old(self).tokens_view(), old(self).cursor()), 2nat,
    {
        match self.parse_call_arguments() {
            Some(args) => Some(Expr::Call { function: Box::new(left), args }),
            None => None,
        }
    }

    fn parse_index_expr(&mut self, left: Expr) -> (r: Option<Expr>)
        ensures
            final(self).follows(old(self)),
            (opt_expr_view(r), final(self).cursor()) == grammar::parse_index_expr(
                old(self).tokens_view(),
                old(self).cursor(),
                left@,
            ),
        decreases remaining(old(self).tokens_view(), old(self).cursor()), 2nat,
    {
        if self.position >= self.tokens.len() {
            return None;
        }
        self.next_token();
        let expr = match self.parse_expr(Precedence::Lowest) {
            Some(e) => e,
            None => {
                return None;
            },
        };
        if !self.expect_peek(Token::RightBracket) {
            return None;
        }
        Some(Expr::Index { array: Box::new(left), index: Box::new(expr) })
    }

    fn parse_object_literal(&mut self) -> (r: Option<Expr>)
        ensures
            final(self).follows(old(self)),
            (opt_expr_view(r), final(self).cursor()) == grammar::parse_object_literal(
                old(self).tokens_view(),
                old(self).cursor(),
            ),
        decreases remaining(old(self).tokens_view(), old(self).cursor()), 2nat,
    {
        if self.position >= self.tokens.len() {
            return None;
        }
        let obj: Vec<(Expr, Expr)> = Vec::new();
        proof {
            reveal_with_fuel(crate::ast::expr_view, 2);
            assert(pairs_view(obj) =~= Seq::empty());
        }
        let obj = match self.parse_entries(obj) {
            Some(o) => o,
            None => {
                return None;
            },
        };
        if !self.expect_peek(Token::RightBrace) {
            return None;
        }
        Some(Expr::Literal(Literal::Object(obj)))
    }

    fn parse_entries(&mut self, found: Vec<(Expr, Expr)>) -> (r: Option<Vec<(Expr, Expr)>>)
        ensures
            final(self).follows(old(self)),
            (opt_pairs_view(r), final(self).cursor()) == grammar::parse_entries(
                old(self).tokens_view(),
                old(self).cursor(),
                pairs_view(found),
            ),
        decreases remaining(old(self).tokens_view(), old(self).cursor()), 1nat,
    {
        let mut found = found;
        if self.position >= self.tokens.len() {
            return None;
        }
        if self.peek_token(&Token::RightBrace) {
            return Some(found);
        }
        self.next_token();
        let key = match self.parse_expr(Precedence::Lowest) {
            Some(o) => o,
            None => {
                return None;
            },
        };
        if !self.expect_peek(Token::Colon) {
            return None;
        }
        self.next_token();
        let val = match self.parse_expr(Precedence::Lowest) {
            Some(o) => o,
            None => {
                return None;
            },
        };
        let ghost before = found;
        found.push((key, val));
        proof {
            lemma_pairs_push(before, found, key, val);
        }
        if self.peek_token(&Token::RightBrace) {
            return Some(found);
        }
        if !self.expect_peek(Token::Comma) {
            return None;
        }
        self.parse_entries(found)
    }

    /// Parses the statements of a block, whose opening token is the current
    /// one, up to the closing brace or the end of the tokens.
    fn parse_block_statement(&mut self) -> (r: BlockStatement)
        ensures
            final(self).follows(old(self)),
            (block_view(r), final(self).cursor()) == grammar::parse_block_statement(
                old(self).tokens_view(),
                old(self).cursor(),
            ),
        decreases remaining(old(self).tokens_view(), old(self).cursor()), 20nat,
    {
        let statements: Vec<Statement> = Vec::new();
        proof {
            assert(block_view(statements) =~= Seq::empty());
        }
        if self.position >= self.tokens.len() {
            return statements;
        }
        self.next_token();
        self.parse_block_rest(statements)
    }

    fn parse_block_rest(&mut self, found: Vec<Statement>) -> (r: Vec<Statement>)
        ensures
            final(self).follows(old(self)),
            (block_view(r), final(self).cursor()) == grammar::parse_block_rest(
                old(self).tokens_view(),
                old(self).cursor(),
                block_view(found),
            ),
        decreases remaining(old(self).tokens_view(), old(self).cursor()), 19nat,
    {
        let mut found = found;
        if self.position >= self.tokens.len() || self.current_token(Token::RightBrace) {
            return found;
        }
        if let Some(s) = self.parse_statement() {
            let ghost before = found;
            found.push(s);
            proof {
                lemma_block_push(before, found, s);
            }
        }
        self.next_token();
        self.parse_block_rest(found)
    }

    /// Parses one statement, whose first token is the current one.
    pub fn parse_statement(&mut self) -> (r: Option<Statement>)
        ensures
            final(self).follows(old(self)),
            (opt_statement_view(r), final(self).cursor()) == grammar::parse_statement(
                old(self).tokens_view(),
                old(self).cursor(),
            ),
        decreases remaining(old(self).tokens_view(), old(self).cursor()), 18nat,
    {
        let ghost ts = self.tokens_view();
        let ghost c = self.cursor();
        let code = self.current().code();
        if code == Token::Bind.code() {
            assert(grammar::current(ts, c) == TokenView::Bind);
            self.parse_set_statement()
        } else if code == Token::Return.code() {
            assert(grammar::current(ts, c) == TokenView::Return);
            self.parse_return_statement()
        } else if code == Token::Include.code() {
            assert(grammar::current(ts, c) == TokenView::Include);
            self.parse_include_statement()
        } else if code == Token::Anew.code() {
            assert(grammar::current(ts, c) == TokenView::Anew);
            self.parse_anew_expr()
        } else if code == Token::Break.code() {
            assert(grammar::current(ts, c) == TokenView::Break);
            self.parse_break_statement()
        } else if code == Token::Continue.code() {
            assert(grammar::current(ts, c) == TokenView::Continue);
            self.parse_continue_statement()
        } else {
            assert(grammar::parse_statement(ts, c) == grammar::parse_expr_statement(ts, c));
            self.parse_expr_statement()
        }
    }

    /// Parses an expression that stands as a statement, and steps over a
    /// semicolon behind it.
    pub fn parse_expr_statement(&mut self) -> (r: Option<Statement>)
        ensures
            final(self).follows(old(self)),
            (opt_statement_view(r), final(self).cursor()) == grammar::parse_expr_statement(
                old(self).tokens_view(),
                old(self).cursor(),
            ),
        decreases remaining(old(self).tokens_view(), old(self).cursor()), 14nat,
    {
        match self.parse_expr(Precedence::Lowest) {
            Some(expression) => {
                if self.peek_token(&Token::Semicolon) {
                    self.next_token();
                }
                Some(Statement::Expression(expression))
            },
            None => None,
        }
    }

    fn parse_assignment(&mut self) -> (r: Option<(Ident, Expr)>)
        ensures
            final(self).follows(old(self)),
            final(self).cursor() == grammar::parse_assignment(
                old(self).tokens_view(),
                old(self).cursor(),
            ).1,
            match r {
                Some((name, e)) => grammar::parse_assignment(
                    old(self).tokens_view(),
                    old(self).cursor(),
                ).0 == Some((name@, e@)),
                None => grammar::parse_assignment(
                    old(self).tokens_view(),
                    old(self).cursor(),
                ).0.is_none(),
            },
        decreases remaining(old(self).tokens_view(), old(self).cursor()), 13nat,
    {
        let name: Ident = match self.peek() {
            Token::Ident(name) => Ident(name),
            _ => {
                self.peek_error(Token::Ident(String::new()));
                return None;
            },
        };
        self.next_token();
        if !self.expect_peek(Token::Assign) {
            return None;
        }
        self.next_token();
        let lit: Expr = match self.parse_expr(Precedence::Lowest) {
            Some(e) => e,
            None => {
                return None;
            },
        };
        self.skip_to_semicolon();
        Some((name, lit))
    }

    /// Parses a statement that binds a name in the current scope: the
    /// keyword, a name, `=` and an expression.
    pub fn parse_set_statement(&mut self) -> (r: Option<Statement>)
        ensures
            final(self).follows(old(self)),
            (opt_statement_view(r), final(self).cursor()) == grammar::parse_set_statement(
                old(self).tokens_view(),
                old(self).cursor(),
            ),
        decreases remaining(old(self).tokens_view(), old(self).cursor()), 14nat,
    {
        match self.parse_assignment() {
            Some((name, lit)) => Some(Statement::Bind(name, lit)),
            None => None,
        }
    }

    /// Parses a statement that assigns to a name bound before: the keyword,
    /// a name, `=` and an expression.
    pub fn parse_anew_expr(&mut self) -> (r: Option<Statement>)
        ensures
            final(self).follows(old(self)),
            (opt_statement_view(r), final(self).cursor()) == grammar::parse_anew_expr(
                old(self).tokens_view(),
                old(self).cursor(),
            ),
        decreases remaining(old(self).tokens_view(), old(self).cursor()), 14nat,
    {
        match self.parse_assignment() {
            Some((name, lit)) => Some(Statement::Anew(name, lit)),
            None => None,
        }
    }

    /// Parses a return statement: the keyword and an expression.
    pub fn parse_return_statement(&mut self) -> (r: Option<Statement>)
        ensures
            final(self).follows(old(self)),
            (opt_statement_view(r), final(self).cursor()) == grammar::parse_return_statement(
                old(self).tokens_view(),
                old(self).cursor(),
            ),
        decreases remaining(old(self).tokens_view(), old(self).cursor()), 14nat,
    {
        if self.position >= self.tokens.len() {
            return None;
        }
        self.next_token();
        let exp = match self.parse_expr(Precedence::Lowest) {
            Some(e) => e,
            None => {
                return None;
            },
        };
        self.skip_to_semicolon();
        Some(Statement::Return(exp))
    }

    /// Parses a statement that names a library: the keyword and a string.
    pub fn parse_include_statement(&mut self) -> (r: Option<Statement>)
        ensures
            final(self).follows(old(self)),
            (opt_statement_view(r), final(self).cursor()) == grammar::parse_include_statement(
                old(self).tokens_view(),
                old(self).cursor(),
            ),
    {
        self.next_token();
        let lib = match self.current() {
            Token::String(s) => s,
            _ => {
                self.peek_error(Token::String(String::new()));
                return None;
            },
        };
        self.skip_to_semicolon();
        Some(Statement::Include(lib))
    }

    /// Parses a statement that leaves the enclosing loop.
    pub fn parse_break_statement(&mut self) -> (r: Option<Statement>)
        ensures
            final(self).follows(old(self)),
            (opt_statement_view(r), final(self).cursor()) == grammar::parse_break_statement(
                old(self).tokens_view(),
                old(self).cursor(),
            ),
    {
        self.next_token();
        self.skip_to_semicolon();
        Some(Statement::Break)
    }

    /// Parses a statement that starts the next round of the enclosing loop.
    pub fn parse_continue_statement(&mut self) -> (r: Option<Statement>)
        ensures
            final(self).follows(old(self)),
            (opt_statement_view(r), final(self).cursor()) == grammar::parse_continue_statement(
                old(self).tokens_view(),
                old(self).cursor(),
            ),
    {
        self.next_token();
        self.skip_to_semicolon();
        Some(Statement::Continue)
    }

    /// Parses all the tokens that are left into a program. What cannot be
    /// read is skipped and reported in `errors`; parsing goes on behind it.
    pub fn parse_program(&mut self) -> (program: Program)
        ensures
            final(self).follows(old(self)),
            (program@, final(self).cursor()) == grammar::parse_program_rest(
                old(self).tokens_view(),
                old(self).cursor(),
                Seq::empty(),
            ),
    {
        let mut statements: Vec<Statement> = Vec::new();
        proof {
            assert(block_view(statements) =~= Seq::empty());
        }
        let ghost goal = grammar::parse_program_rest(
            self.tokens_view(),
            self.cursor(),
            Seq::empty(),
        );
        while self.position < self.tokens.len() && !self.current_token(Token::Eof)
            invariant
                self.follows(old(self)),
                grammar::parse_program_rest(
                    self.tokens_view(),
                    self.cursor(),
                    block_view(statements),
                ) == goal,
            decreases remaining(self.tokens_view(), self.cursor()),
        {
            if let Some(s) = self.parse_statement() {
                let ghost before = statements;
                statements.push(s);
                proof {
                    lemma_block_push(before, statements, s);
                }
            }
            self.next_token();
        }
        Program { statements }
    }
}

/// Parses a source text into a program, and returns with it the messages on
/// what could not be read. A program with messages is not to be evaluated.
pub fn parse(text: String) -> (r: (Program, Vec<String>))
    ensures
        (r.0@, texts(r.1@)) == grammar::parse_program(tokens_from(text@, 0)),
{
    let mut parser = Parser::new(Lexer::new(text));
    proof {
        assert(parser.messages() =~= Seq::empty());
        assert(parser.cursor() == Cursor { position: 0, errors: Seq::empty() });
    }
    let program = parser.parse_program();
    (program, parser.errors)
}

} // verus!
