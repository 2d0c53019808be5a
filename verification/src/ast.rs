//! The syntax tree that the parser builds and the evaluator walks.

use vstd::prelude::*;

verus! {

/// An identifier.
#[derive(PartialEq, Clone, Debug)]
pub struct Ident(pub String);

/// A unary operator written before its operand.
#[derive(PartialEq, Eq, Structural, Clone, Copy, Debug)]
pub enum Prefix {
    Plus,
    Minus,
    Exclamation,
}

/// A binary operator written between its operands.
#[derive(PartialEq, Eq, Structural, Clone, Copy, Debug)]
pub enum Infix {
    In,
    Plus,
    Minus,
    Times,
    Divide,
    Modulo,
    Equals,
    NotEquals,
    LessThan,
    GreaterThan,
    LessThanEqual,
    GreaterThanEqual,
    LeftShift,
    RightShift,
    AND,
    OR,
    XOR,
}

/// A literal. A number is kept as the numeral that was written.
#[derive(PartialEq, Debug)]
pub enum Literal {
    Number(String),
    String(String),
    Boolean(bool),
    Array(Vec<Expr>),
    Object(Vec<(Expr, Expr)>),
}

/// A statement.
#[derive(PartialEq, Debug)]
pub enum Statement {
    Bind(Ident, Expr),
    Return(Expr),
    Expression(Expr),
    Include(String),
    Anew(Ident, Expr),
    Break,
    Continue,
}

/// Binding strength of the operators, weakest first.
#[derive(PartialEq, Eq, Structural, PartialOrd, Debug, Clone, Copy)]
pub enum Precedence {
    Lowest,
    Equals,
    LessGreater,
    Sum,
    Product,
    Prefix,
    Call,
    Index,
    In,
    LeftShift,
    RightShift,
    AND,
    OR,
    XOR,
}

/// The statements between two braces.
pub type BlockStatement = Vec<Statement>;

/// An expression.
#[derive(PartialEq, Debug)]
pub enum Expr {
    Literal(Literal),
    Ident(Ident),
    Prefix(Prefix, Box<Expr>),
    Infix(Infix, Box<Expr>, Box<Expr>),
    If { cond: Box<Expr>, then_: Box<BlockStatement>, else_: Option<BlockStatement> },
    Fun { params: Vec<Ident>, body: BlockStatement },
    Call { function: Box<Expr>, args: Vec<Expr> },
    Index { array: Box<Expr>, index: Box<Expr> },
    Typeof { expr: Box<Expr> },
    Loop { body: BlockStatement },
}

/// A program: its statements, which are run from the first to the last.
#[derive(PartialEq, Debug)]
pub struct Program {
    pub statements: Vec<Statement>,
}

/// The mathematical model of a [`Literal`].
pub enum LiteralView {
    Number(Seq<char>),
    String(Seq<char>),
    Boolean(bool),
    Array(Seq<ExprView>),
    Object(Seq<(ExprView, ExprView)>),
}

/// The mathematical model of a [`Statement`].
pub enum StatementView {
    Bind(Seq<char>, ExprView),
    Return(ExprView),
    Expression(ExprView),
    Include(Seq<char>),
    Anew(Seq<char>, ExprView),
    Break,
    Continue,
}

/// The mathematical model of an [`Expr`].
pub enum ExprView {
    Literal(LiteralView),
    Ident(Seq<char>),
    Prefix(Prefix, Box<ExprView>),
    Infix(Infix, Box<ExprView>, Box<ExprView>),
    If { cond: Box<ExprView>, then_: Seq<StatementView>, else_: Option<Seq<StatementView>> },
    Fun { params: Seq<Seq<char>>, body: Seq<StatementView> },
    Call { function: Box<ExprView>, args: Seq<ExprView> },
    Index { array: Box<ExprView>, index: Box<ExprView> },
    Typeof { expr: Box<ExprView> },
    Loop { body: Seq<StatementView> },
}

impl View for Ident {
    type V = Seq<char>;

    open spec fn view(&self) -> Seq<char> {
        self.0@
    }
}

/// The models of the identifiers of a parameter list.
pub open spec fn idents_view(params: Seq<Ident>) -> Seq<Seq<char>> {
    Seq::new(params.len(), |i: int| params[i]@)
}

/// The model of an expression.
pub open spec fn expr_view(e: Expr) -> ExprView
    decreases e,
{
    match e {
        Expr::Literal(l) => ExprView::Literal(literal_view(l)),
        Expr::Ident(i) => ExprView::Ident(i@),
        Expr::Prefix(p, r) => ExprView::Prefix(p, Box::new(expr_view(*r))),
        Expr::Infix(o, l, r) => ExprView::Infix(
            o,
            Box::new(expr_view(*l)),
            Box::new(expr_view(*r)),
        ),
        Expr::If { cond, then_, else_ } => ExprView::If {
            cond: Box::new(expr_view(*cond)),
            then_: block_view(*then_),
            else_: match else_ {
                Some(b) => Some(block_view(b)),
                None => None,
            },
        },
        Expr::Fun { params, body } => ExprView::Fun {
            params: idents_view(params@),
            body: block_view(body),
        },
        Expr::Call { function, args } => ExprView::Call {
            function: Box::new(expr_view(*function)),
            args: exprs_view(args),
        },
        Expr::Index { array, index } => ExprView::Index {
            array: Box::new(expr_view(*array)),
            index: Box::new(expr_view(*index)),
        },
        Expr::Typeof { expr } => ExprView::Typeof { expr: Box::new(expr_view(*expr)) },
        Expr::Loop { body } => ExprView::Loop { body: block_view(body) },
    }
}

/// The models of a list of expressions, in order.
pub open spec fn exprs_view(v: Vec<Expr>) -> Seq<ExprView>
    decreases v,
{
    Seq::new(
        v@.len(),
        |i: int|
            if 0 <= i < v@.len() {
                expr_view(v@[i])
            } else {
                ExprView::Ident(Seq::empty())
            },
    )
}

/// The models of the key and value expressions of an object literal.
pub open spec fn pairs_view(v: Vec<(Expr, Expr)>) -> Seq<(ExprView, ExprView)>
    decreases v,
{
    Seq::new(
        v@.len(),
        |i: int|
            if 0 <= i < v@.len() {
                (expr_view(v@[i].0), expr_view(v@[i].1))
            } else {
                (ExprView::Ident(Seq::empty()), ExprView::Ident(Seq::empty()))
            },
    )
}

/// The model of a literal.
pub open spec fn literal_view(l: Literal) -> LiteralView
    decreases l,
{
    match l {
        Literal::Number(n) => LiteralView::Number(n@),
        Literal::String(s) => LiteralView::String(s@),
        Literal::Boolean(b) => LiteralView::Boolean(b),
        Literal::Array(a) => LiteralView::Array(exprs_view(a)),
        Literal::Object(o) => LiteralView::Object(pairs_view(o)),
    }
}

/// The model of a statement.
pub open spec fn statement_view(s: Statement) -> StatementView
    decreases s,
{
    match s {
        Statement::Bind(i, e) => StatementView::Bind(i@, expr_view(e)),
        Statement::Return(e) => StatementView::Return(expr_view(e)),
        Statement::Expression(e) => StatementView::Expression(expr_view(e)),
        Statement::Include(l) => StatementView::Include(l@),
        Statement::Anew(i, e) => StatementView::Anew(i@, expr_view(e)),
        Statement::Break => StatementView::Break,
        Statement::Continue => StatementView::Continue,
    }
}

/// The models of the statements of a block, in order.
pub open spec fn block_view(v: Vec<Statement>) -> Seq<StatementView>
    decreases v,
{
    Seq::new(
        v@.len(),
        |i: int|
            if 0 <= i < v@.len() {
                statement_view(v@[i])
            } else {
                StatementView::Break
            },
    )
}

impl View for Expr {
    type V = ExprView;

    open spec fn view(&self) -> ExprView {
        expr_view(*self)
    }
}

impl View for Literal {
    type V = LiteralView;

    open spec fn view(&self) -> LiteralView {
        literal_view(*self)
    }
}

impl View for Statement {
    type V = StatementView;

    open spec fn view(&self) -> StatementView {
        statement_view(*self)
    }
}

impl View for Program {
    type V = Seq<StatementView>;

    open spec fn view(&self) -> Seq<StatementView> {
        block_view(self.statements)
    }
}

/// Copies an identifier.
pub fn clone_ident(i: &Ident) -> (r: Ident)
    ensures
        r@ == i@,
{
    Ident(i.0.clone())
}

/// Copies a parameter list.
pub fn clone_idents(v: &Vec<Ident>) -> (r: Vec<Ident>)
    ensures
        idents_view(r@) == idents_view(v@),
{
    let mut out: Vec<Ident> = Vec::new();
    let mut i: usize = 0;
    while i < v.len()
        invariant
            i <= v.len(),
            out@.len() == i,
            forall|k: int| 0 <= k < i ==> out@[k]@ == v@[k]@,
        decreases v.len() - i,
    {
        out.push(clone_ident(&v[i]));
        i += 1;
    }
    assert(idents_view(out@) =~= idents_view(v@));
    out
}

/// Copies an expression, with everything below it.
pub fn clone_expr(e: &Expr) -> (r: Expr)
    ensures
        r@ == e@,
    decreases e,
{
    match e {
        Expr::Literal(l) => Expr::Literal(clone_literal(l)),
        Expr::Ident(i) => Expr::Ident(clone_ident(i)),
        Expr::Prefix(p, r) => Expr::Prefix(*p, Box::new(clone_expr(r))),
        Expr::Infix(o, l, r) => Expr::Infix(*o, Box::new(clone_expr(l)), Box::new(clone_expr(r))),
        Expr::If { cond, then_, else_ } => {
            let alternative = match else_ {
                Some(b) => Some(clone_block(b)),
                None => None,
            };
            Expr::If {
                cond: Box::new(clone_expr(cond)),
                then_: Box::new(clone_block(then_)),
                else_: alternative,
            }
        },
        Expr::Fun { params, body } => Expr::Fun {
            params: clone_idents(params),
            body: clone_block(body),
        },
        Expr::Call { function, args } => Expr::Call {
            function: Box::new(clone_expr(function)),
            args: clone_exprs(args),
        },
        Expr::Index { array, index } => Expr::Index {
            array: Box::new(clone_expr(array)),
            index: Box::new(clone_expr(index)),
        },
        Expr::Typeof { expr } => Expr::Typeof { expr: Box::new(clone_expr(expr)) },
        Expr::Loop { body } => Expr::Loop { body: clone_block(body) },
    }
}

/// Copies a list of expressions.
pub fn clone_exprs(v: &Vec<Expr>) -> (r: Vec<Expr>)
    ensures
        exprs_view(r) == exprs_view(*v),
    decreases v,
{
    let mut out: Vec<Expr> = Vec::new();
    let mut i: usize = 0;
    while i < v.len()
        invariant
            i <= v.len(),
            out@.len() == i,
            forall|k: int| 0 <= k < i ==> out@[k]@ == v@[k]@,
        decreases v.len() - i,
    {
        out.push(clone_expr(&v[i]));
        i += 1;
    }
    assert(exprs_view(out) =~= exprs_view(*v));
    out
}

/// Copies the entries of an object literal.
pub fn clone_pairs(v: &Vec<(Expr, Expr)>) -> (r: Vec<(Expr, Expr)>)
    ensures
        pairs_view(r) == pairs_view(*v),
    decreases v,
{
    let mut out: Vec<(Expr, Expr)> = Vec::new();
    let mut i: usize = 0;
    while i < v.len()
        invariant
            i <= v.len(),
            out@.len() == i,
            forall|k: int|
                0 <= k < i ==> out@[k].0@ == v@[k].0@ && out@[k].1@ == v@[k].1@,
        decreases v.len() - i,
    {
        let key = clone_expr(&v[i].0);
        let value = clone_expr(&v[i].1);
        out.push((key, value));
        i += 1;
    }
    assert(pairs_view(out) =~= pairs_view(*v));
    out
}

/// Copies a literal.
pub fn clone_literal(l: &Literal) -> (r: Literal)
    ensures
        r@ == l@,
    decreases l,
{
    match l {
        Literal::Number(n) => Literal::Number(n.clone()),
        Literal::String(s) => Literal::String(s.clone()),
        Literal::Boolean(b) => Literal::Boolean(*b),
        Literal::Array(a) => Literal::Array(clone_exprs(a)),
        Literal::Object(o) => Literal::Object(clone_pairs(o)),
    }
}

/// Copies a statement.
pub fn clone_statement(s: &Statement) -> (r: Statement)
    ensures
        r@ == s@,
    decreases s,
{
    match s {
        Statement::Bind(i, e) => Statement::Bind(clone_ident(i), clone_expr(e)),
        Statement::Return(e) => Statement::Return(clone_expr(e)),
        Statement::Expression(e) => Statement::Expression(clone_expr(e)),
        Statement::Include(l) => Statement::Include(l.clone()),
        Statement::Anew(i, e) => Statement::Anew(clone_ident(i), clone_expr(e)),
        Statement::Break => Statement::Break,
        Statement::Continue => Statement::Continue,
    }
}

/// Copies a block of statements.
pub fn clone_block(v: &Vec<Statement>) -> (r: Vec<Statement>)
    ensures
        block_view(r) == block_view(*v),
    decreases v,
{
    let mut out: Vec<Statement> = Vec::new();
    let mut i: usize = 0;
    while i < v.len()
        invariant
            i <= v.len(),
            out@.len() == i,
            forall|k: int| 0 <= k < i ==> out@[k]@ == v@[k]@,
        decreases v.len() - i,
    {
        out.push(clone_statement(&v[i]));
        i += 1;
    }
    assert(block_view(out) =~= block_view(*v));
    out
}

impl Clone for Expr {
    fn clone(&self) -> (r: Self)
        ensures
            r@ == self@,
    {
        clone_expr(self)
    }
}

impl Clone for Literal {
    fn clone(&self) -> (r: Self)
        ensures
            r@ == self@,
    {
        clone_literal(self)
    }
}

impl Clone for Statement {
    fn clone(&self) -> (r: Self)
        ensures
            r@ == self@,
    {
        clone_statement(self)
    }
}

impl Clone for Program {
    fn clone(&self) -> (r: Self)
        ensures
            r@ == self@,
    {
        Program { statements: clone_block(&self.statements) }
    }
}

/// The model of an expression that may be missing.
pub open spec fn opt_expr_view(o: Option<Expr>) -> Option<ExprView> {
    match o {
        Some(e) => Some(e@),
        None => None,
    }
}

/// The model of a statement that may be missing.
pub open spec fn opt_statement_view(o: Option<Statement>) -> Option<StatementView> {
    match o {
        Some(s) => Some(s@),
        None => None,
    }
}

/// The model of a list grown by one expression is the model of the list
/// grown by the model of the expression.
pub proof fn lemma_exprs_push(before: Vec<Expr>, after: Vec<Expr>, e: Expr)
    requires
        after@ == before@.push(e),
    ensures
        exprs_view(after) == exprs_view(before).push(e@),
{
    assert(exprs_view(after) =~= exprs_view(before).push(e@));
}

/// The same for a block and a statement.
pub proof fn lemma_block_push(before: Vec<Statement>, after: Vec<Statement>, s: Statement)
    requires
        after@ == before@.push(s),
    ensures
        block_view(after) == block_view(before).push(s@),
{
    assert(block_view(after) =~= block_view(before).push(s@));
}

/// The same for the entries of an object literal.
pub proof fn lemma_pairs_push(
    before: Vec<(Expr, Expr)>,
    after: Vec<(Expr, Expr)>,
    key: Expr,
    value: Expr,
)
    requires
        after@ == before@.push((key, value)),
    ensures
        pairs_view(after) == pairs_view(before).push((key@, value@)),
{
    assert(pairs_view(after) =~= pairs_view(before).push((key@, value@)));
}

/// The same for a parameter list.
pub proof fn lemma_idents_push(before: Seq<Ident>, i: Ident)
    ensures
        idents_view(before.push(i)) == idents_view(before).push(i@),
{
    assert(idents_view(before.push(i)) =~= idents_view(before).push(i@));
}

/// How a prefix operator is written.
pub open spec fn prefix_symbol(p: Prefix) -> Seq<char> {
    match p {
        Prefix::Plus => "+"@,
        Prefix::Minus => "-"@,
        Prefix::Exclamation => "!"@,
    }
}

/// How an infix operator is written.
pub open spec fn infix_symbol(i: Infix) -> Seq<char> {
    match i {
        Infix::In => "~"@,
        Infix::Plus => "+"@,
        Infix::Minus => "-"@,
        Infix::Times => "*"@,
        Infix::Divide => "/"@,
        Infix::Modulo => "%"@,
        Infix::Equals => "=="@,
        Infix::NotEquals => "!="@,
        Infix::LessThan => "<"@,
        Infix::GreaterThan => ">"@,
        Infix::LessThanEqual => "<="@,
        Infix::GreaterThanEqual => ">="@,
        Infix::LeftShift => "<<"@,
        Infix::RightShift => ">>"@,
        Infix::AND => "&"@,
        Infix::OR => "|"@,
        Infix::XOR => "^"@,
    }
}

impl Prefix {
    /// The operator as it is written.
    pub fn symbol(&self) -> (r: &'static str)
        ensures
            r@ == prefix_symbol(*self),
    {
        match self {
            Prefix::Plus => "+",
            Prefix::Minus => "-",
            Prefix::Exclamation => "!",
        }
    }
}

impl Infix {
    /// The operator as it is written.
    pub fn symbol(&self) -> (r: &'static str)
        ensures
            r@ == infix_symbol(*self),
    {
        match self {
            Infix::In => "~",
            Infix::Plus => "+",
            Infix::Minus => "-",
            Infix::Times => "*",
            Infix::Divide => "/",
            Infix::Modulo => "%",
            Infix::Equals => "==",
            Infix::NotEquals => "!=",
            Infix::LessThan => "<",
            Infix::GreaterThan => ">",
            Infix::LessThanEqual => "<=",
            Infix::GreaterThanEqual => ">=",
            Infix::LeftShift => "<<",
            Infix::RightShift => ">>",
            Infix::AND => "&",
            Infix::OR => "|",
            Infix::XOR => "^",
        }
    }
}

/// The model of a block without its first statement.
pub proof fn lemma_block_rest(before: Vec<Statement>, after: Vec<Statement>)
    requires
        before@.len() > 0,
        after@ == before@.remove(0),
    ensures
        block_view(after) == block_view(before).drop_first(),
        block_view(before)[0] == before@[0]@,
{
    assert(block_view(after) =~= block_view(before).drop_first());
}

/// The model of a list of expressions without its first one.
pub proof fn lemma_exprs_rest(before: Vec<Expr>, after: Vec<Expr>)
    requires
        before@.len() > 0,
        after@ == before@.remove(0),
    ensures
        exprs_view(after) == exprs_view(before).drop_first(),
        exprs_view(before)[0] == before@[0]@,
{
    assert(exprs_view(after) =~= exprs_view(before).drop_first());
}

/// The model of the entries of an object literal without the first one.
pub proof fn lemma_pairs_rest(before: Vec<(Expr, Expr)>, after: Vec<(Expr, Expr)>)
    requires
        before@.len() > 0,
        after@ == before@.remove(0),
    ensures
        pairs_view(after) == pairs_view(before).drop_first(),
        pairs_view(before)[0] == (before@[0].0@, before@[0].1@),
{
    assert(pairs_view(after) =~= pairs_view(before).drop_first());
}

/// Whether two parameter lists hold the same names.
pub fn same_idents(a: &Vec<Ident>, b: &Vec<Ident>) -> (r: bool)
    ensures
        r == (idents_view(a@) == idents_view(b@)),
{
    if a.len() != b.len() {
        assert(idents_view(a@).len() != idents_view(b@).len());
        return false;
    }
    let mut i: usize = 0;
    while i < a.len()
        invariant
            i <= a.len(),
            a.len() == b.len(),
            forall|k: int| 0 <= k < i ==> a@[k]@ == b@[k]@,
        decreases a.len() - i,
    {
        if !crate::token::same_text(a[i].0.as_str(), b[i].0.as_str()) {
            assert(idents_view(a@)[i as int] != idents_view(b@)[i as int]);
            return false;
        }
        i += 1;
    }
    assert(idents_view(a@) =~= idents_view(b@));
    true
}

/// Whether two expressions are the same tree.
pub fn same_expr(a: &Expr, b: &Expr) -> (r: bool)
    ensures
        r == (a@ == b@),
    decreases a,
{
    match (a, b) {
        (Expr::Literal(x), Expr::Literal(y)) => same_literal(x, y),
        (Expr::Ident(x), Expr::Ident(y)) => crate::token::same_text(x.0.as_str(), y.0.as_str()),
        (Expr::Prefix(p, x), Expr::Prefix(q, y)) => *p == *q && same_expr(x, y),
        (Expr::Infix(p, xl, xr), Expr::Infix(q, yl, yr)) => *p == *q && same_expr(xl, yl)
            && same_expr(xr, yr),
        (
            Expr::If { cond: c1, then_: t1, else_: e1 },
            Expr::If { cond: c2, then_: t2, else_: e2 },
        ) => {
            let alternatives = match (e1, e2) {
                (Some(x), Some(y)) => same_block(x, y),
                (None, None) => true,
                _ => false,
            };
            same_expr(c1, c2) && same_block(t1, t2) && alternatives
        },
        (
            Expr::Fun { params: left_params, body: left_body },
            Expr::Fun { params: right_params, body: right_body },
        ) => same_idents(left_params, right_params) && same_block(left_body, right_body),
        (Expr::Call { function: f1, args: a1 }, Expr::Call { function: f2, args: a2 }) => same_expr(
            f1,
            f2,
        ) && same_exprs(a1, a2),
        (Expr::Index { array: a1, index: i1 }, Expr::Index { array: a2, index: i2 }) => same_expr(
            a1,
            a2,
        ) && same_expr(i1, i2),
        (Expr::Typeof { expr: x }, Expr::Typeof { expr: y }) => same_expr(x, y),
        (Expr::Loop { body: x }, Expr::Loop { body: y }) => same_block(x, y),
        _ => false,
    }
}

/// Whether two lists hold the same expressions.
pub fn same_exprs(a: &Vec<Expr>, b: &Vec<Expr>) -> (r: bool)
    ensures
        r == (exprs_view(*a) == exprs_view(*b)),
    decreases a,
{
    if a.len() != b.len() {
        assert(exprs_view(*a).len() != exprs_view(*b).len());
        return false;
    }
    let mut i: usize = 0;
    while i < a.len()
        invariant
            i <= a.len(),
            a.len() == b.len(),
            forall|k: int| 0 <= k < i ==> a@[k]@ == b@[k]@,
        decreases a.len() - i,
    {
        if !same_expr(&a[i], &b[i]) {
            assert(exprs_view(*a)[i as int] != exprs_view(*b)[i as int]);
            return false;
        }
        i += 1;
    }
    assert(exprs_view(*a) =~= exprs_view(*b));
    true
}

/// Whether two object literals hold the same entries.
pub fn same_pairs(a: &Vec<(Expr, Expr)>, b: &Vec<(Expr, Expr)>) -> (r: bool)
    ensures
        r == (pairs_view(*a) == pairs_view(*b)),
    decreases a,
{
    if a.len() != b.len() {
        assert(pairs_view(*a).len() != pairs_view(*b).len());
        return false;
    }
    let mut i: usize = 0;
    while i < a.len()
        invariant
            i <= a.len(),
            a.len() == b.len(),
            forall|k: int| 0 <= k < i ==> a@[k].0@ == b@[k].0@ && a@[k].1@ == b@[k].1@,
        decreases a.len() - i,
    {
        let keys = same_expr(&a[i].0, &b[i].0);
        let values = same_expr(&a[i].1, &b[i].1);
        if !(keys && values) {
            assert(pairs_view(*a)[i as int] != pairs_view(*b)[i as int]);
            return false;
        }
        i += 1;
    }
    assert(pairs_view(*a) =~= pairs_view(*b));
    true
}

/// Whether two literals are the same.
pub fn same_literal(a: &Literal, b: &Literal) -> (r: bool)
    ensures
        r == (a@ == b@),
    decreases a,
{
    match (a, b) {
        (Literal::Number(x), Literal::Number(y)) => crate::token::same_text(
            x.as_str(),
            y.as_str(),
        ),
        (Literal::String(x), Literal::String(y)) => crate::token::same_text(
            x.as_str(),
            y.as_str(),
        ),
        (Literal::Boolean(x), Literal::Boolean(y)) => *x == *y,
        (Literal::Array(x), Literal::Array(y)) => same_exprs(x, y),
        (Literal::Object(x), Literal::Object(y)) => same_pairs(x, y),
        _ => false,
    }
}

/// Whether two statements are the same.
pub fn same_statement(a: &Statement, b: &Statement) -> (r: bool)
    ensures
        r == (a@ == b@),
    decreases a,
{
    match (a, b) {
        (Statement::Bind(i, x), Statement::Bind(j, y)) => crate::token::same_text(
            i.0.as_str(),
            j.0.as_str(),
        ) && same_expr(x, y),
        (Statement::Return(x), Statement::Return(y)) => same_expr(x, y),
        (Statement::Expression(x), Statement::Expression(y)) => same_expr(x, y),
        (Statement::Include(x), Statement::Include(y)) => crate::token::same_text(
            x.as_str(),
            y.as_str(),
        ),
        (Statement::Anew(i, x), Statement::Anew(j, y)) => crate::token::same_text(
            i.0.as_str(),
            j.0.as_str(),
        ) && same_expr(x, y),
        (Statement::Break, Statement::Break) => true,
        (Statement::Continue, Statement::Continue) => true,
        _ => false,
    }
}

/// Whether two blocks hold the same statements.
pub fn same_block(a: &Vec<Statement>, b: &Vec<Statement>) -> (r: bool)
    ensures
        r == (block_view(*a) == block_view(*b)),
    decreases a,
{
    if a.len() != b.len() {
        assert(block_view(*a).len() != block_view(*b).len());
        return false;
    }
    let mut i: usize = 0;
    while i < a.len()
        invariant
            i <= a.len(),
            a.len() == b.len(),
            forall|k: int| 0 <= k < i ==> a@[k]@ == b@[k]@,
        decreases a.len() - i,
    {
        if !same_statement(&a[i], &b[i]) {
            assert(block_view(*a)[i as int] != block_view(*b)[i as int]);
            return false;
        }
        i += 1;
    }
    assert(block_view(*a) =~= block_view(*b));
    true
}

} // verus!
