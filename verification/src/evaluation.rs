//! The evaluator: a machine that walks a program one step at a time.
//!
//! The machine keeps a stack of tasks and one value, the result of the task
//! that ended last. A step takes the top task off the stack and performs it;
//! the task may put other tasks on the stack and may look at the value that
//! the tasks before it left. What the machine cannot do itself, it asks of
//! the program that embeds it: arithmetic on numbers, the number that a
//! numeral denotes, native functions that reach outside, and the text of a
//! library. The answer is handed back as the value, and the steps go on.
//!
//! [`step`] says exactly what one step does, and [`Eval::step`] does it.

use crate::ast::{
    block_view, clone_block, exprs_view, idents_view, pairs_view, Expr, ExprView, Ident, Infix,
    Literal, LiteralView, Prefix, Program, Statement, StatementView,
};
use crate::grammar;
use crate::lexer::tokens_from;
use crate::number::{decimal, Number};
use crate::object::{
    clone_object, entries_view, inserted, kind_name, object_text, objects_view, opt_object_view,
    Object, ObjectView,
};
use crate::operators::{
    index_result, infix_result, prefix_result, unwrapped, Computed, ComputedView,
};
use crate::std_library::{native_result, std_lib};
use crate::store::{
    bindings_view, enclosed, local_value, reassigned, resolve, with_binding, with_root,
    ScopeView, Store,
};
use vstd::prelude::*;
use vstd::string::*;

verus! {

/// A piece of work that the machine has still to do.
#[derive(Debug, PartialEq)]
pub enum Task {
    /// Run these statements as a program.
    Program(Vec<Statement>),
    /// Run these statements as a block.
    Block(Vec<Statement>),
    /// Run one statement.
    Statement(Statement),
    /// Evaluate an expression.
    Expr(Expr),
    /// Wrap the value into a return signal.
    ReturnValue,
    /// Bind the value to a name in the current scope.
    Bind(String),
    /// Assign the value to a name that is bound already.
    Reassign(String),
    /// Apply a prefix operator to the value.
    PrefixApply(Prefix),
    /// The value is the left operand; evaluate the right one.
    InfixRight(Infix, Expr),
    /// The value is the right operand; apply the operator to both.
    InfixApply(Infix, Option<Object>),
    /// The value is the condition; run one of the two blocks.
    Branch(Vec<Statement>, Option<Vec<Statement>>),
    /// The value is an argument of a call; evaluate the next one, and after
    /// the last one the function.
    Arguments(Expr, Vec<Expr>, Vec<Object>),
    /// The value is the function; call it with these arguments.
    Callee(Vec<Object>),
    /// The value is the result of a function's body; go back to the scope of
    /// the caller.
    Leave(usize),
    /// The value is what is indexed; evaluate the index.
    IndexRight(Expr),
    /// The value is the index; select from what is indexed.
    IndexApply(Option<Object>),
    /// Give the name of the kind of the value.
    TypeofApply,
    /// The value is the result of a round of a loop; go round again or leave.
    Repeat(Vec<Statement>),
    /// The value is an item of an array literal; evaluate the next one.
    Elements(Vec<Expr>, Vec<Object>),
    /// The value is a key of an object literal; evaluate its value.
    EntryKey(Expr, Vec<(Expr, Expr)>, Vec<(Object, Object)>),
    /// The value is the value for a key of an object literal.
    EntryValue(Object, Vec<(Expr, Expr)>, Vec<(Object, Object)>),
    /// The value is the source text of the library of this name.
    Source(String),
    /// A library has been evaluated in the current scope; lay its bindings,
    /// over these, as a new scope on that of the program that asked for it.
    Merge(usize, Vec<(String, Object)>),
}

/// The mathematical model of a [`Task`].
pub enum TaskView {
    Program(Seq<StatementView>),
    Block(Seq<StatementView>),
    Statement(StatementView),
    Expr(ExprView),
    ReturnValue,
    Bind(Seq<char>),
    Reassign(Seq<char>),
    PrefixApply(Prefix),
    InfixRight(Infix, ExprView),
    InfixApply(Infix, Option<ObjectView>),
    Branch(Seq<StatementView>, Option<Seq<StatementView>>),
    Arguments(ExprView, Seq<ExprView>, Seq<ObjectView>),
    Callee(Seq<ObjectView>),
    Leave(nat),
    IndexRight(ExprView),
    IndexApply(Option<ObjectView>),
    TypeofApply,
    Repeat(Seq<StatementView>),
    Elements(Seq<ExprView>, Seq<ObjectView>),
    EntryKey(ExprView, Seq<(ExprView, ExprView)>, Seq<(ObjectView, ObjectView)>),
    EntryValue(ObjectView, Seq<(ExprView, ExprView)>, Seq<(ObjectView, ObjectView)>),
    Source(Seq<char>),
    Merge(nat, Seq<(Seq<char>, ObjectView)>),
}

impl View for Task {
    type V = TaskView;

    open spec fn view(&self) -> TaskView {
        match self {
            Task::Program(s) => TaskView::Program(block_view(*s)),
            Task::Block(s) => TaskView::Block(block_view(*s)),
            Task::Statement(s) => TaskView::Statement(s@),
            Task::Expr(e) => TaskView::Expr(e@),
            Task::ReturnValue => TaskView::ReturnValue,
            Task::Bind(n) => TaskView::Bind(n@),
            Task::Reassign(n) => TaskView::Reassign(n@),
            Task::PrefixApply(p) => TaskView::PrefixApply(*p),
            Task::InfixRight(op, e) => TaskView::InfixRight(*op, e@),
            Task::InfixApply(op, l) => TaskView::InfixApply(*op, opt_object_view(*l)),
            Task::Branch(c, a) => TaskView::Branch(
                block_view(*c),
                match a {
                    Some(b) => Some(block_view(*b)),
                    None => None,
                },
            ),
            Task::Arguments(f, rest, values) => TaskView::Arguments(
                f@,
                exprs_view(*rest),
                objects_view(*values),
            ),
            Task::Callee(args) => TaskView::Callee(objects_view(*args)),
            Task::Leave(scope) => TaskView::Leave(*scope as nat),
            Task::IndexRight(e) => TaskView::IndexRight(e@),
            Task::IndexApply(o) => TaskView::IndexApply(opt_object_view(*o)),
            Task::TypeofApply => TaskView::TypeofApply,
            Task::Repeat(b) => TaskView::Repeat(block_view(*b)),
            Task::Elements(rest, values) => TaskView::Elements(
                exprs_view(*rest),
                objects_view(*values),
            ),
            Task::EntryKey(v, rest, map) => TaskView::EntryKey(
                v@,
                pairs_view(*rest),
                entries_view(*map),
            ),
            Task::EntryValue(k, rest, map) => TaskView::EntryValue(
                k@,
                pairs_view(*rest),
                entries_view(*map),
            ),
            Task::Source(name) => TaskView::Source(name@),
            Task::Merge(scope, seed) => TaskView::Merge(*scope as nat, bindings_view(seed@)),
        }
    }
}

/// What the machine says at the end of a step.
#[derive(Debug, PartialEq)]
pub enum Action {
    /// There is more to do: take the next step.
    Continue,
    /// The program has ended with this result.
    Done(Option<Object>),
    /// The machine asks for the number that a numeral denotes.
    Numeral(String),
    /// The machine asks for the result of an operator on two numbers.
    Arithmetic(Infix, Number, Number),
    /// The machine asks for the result of a native function.
    Native(String, Vec<Object>),
    /// The machine asks for the source text of a library.
    Library(String),
}

/// The mathematical model of an [`Action`].
pub enum ActionView {
    Continue,
    Done(Option<ObjectView>),
    Numeral(Seq<char>),
    Arithmetic(Infix, Seq<char>, Seq<char>),
    Native(Seq<char>, Seq<ObjectView>),
    Library(Seq<char>),
}

impl View for Action {
    type V = ActionView;

    open spec fn view(&self) -> ActionView {
        match self {
            Action::Continue => ActionView::Continue,
            Action::Done(o) => ActionView::Done(opt_object_view(*o)),
            Action::Numeral(t) => ActionView::Numeral(t@),
            Action::Arithmetic(op, a, b) => ActionView::Arithmetic(*op, a@, b@),
            Action::Native(name, args) => ActionView::Native(name@, objects_view(*args)),
            Action::Library(name) => ActionView::Library(name@),
        }
    }
}

/// The evaluator.
#[derive(Debug, PartialEq)]
pub struct Eval {
    /// All scopes of the run.
    pub scopes: Store,
    /// The current scope.
    pub store: usize,
    /// The work that is still to do; the last task is done next.
    pub tasks: Vec<Task>,
    /// The result of the task that ended last.
    pub value: Option<Object>,
    /// What could not be read in the libraries that were asked for.
    pub diagnostics: Vec<String>,
}

/// The mathematical model of an [`Eval`].
pub struct EvalView {
    pub scopes: Seq<ScopeView>,
    pub store: nat,
    pub tasks: Seq<TaskView>,
    pub value: Option<ObjectView>,
    pub diagnostics: Seq<Seq<char>>,
}

/// The models of a stack of tasks.
pub open spec fn tasks_view(v: Seq<Task>) -> Seq<TaskView> {
    Seq::new(v.len(), |i: int| v[i]@)
}

impl View for Eval {
    type V = EvalView;

    open spec fn view(&self) -> EvalView {
        EvalView {
            scopes: self.scopes@,
            store: self.store as nat,
            tasks: tasks_view(self.tasks@),
            value: opt_object_view(self.value),
            diagnostics: crate::parser::texts(self.diagnostics@),
        }
    }
}

impl EvalView {
    /// The machine with one more task on its stack.
    pub open spec fn push(self, t: TaskView) -> EvalView {
        EvalView { tasks: self.tasks.push(t), ..self }
    }

    /// The machine with another value.
    pub open spec fn with_value(self, v: Option<ObjectView>) -> EvalView {
        EvalView { value: v, ..self }
    }

    /// The machine going on with the next step.
    pub open spec fn go(self) -> (EvalView, ActionView) {
        (self, ActionView::Continue)
    }

    /// The machine with a value, going on with the next step.
    pub open spec fn give(self, v: ObjectView) -> (EvalView, ActionView) {
        (self.with_value(Some(v)), ActionView::Continue)
    }
}

/// The value in the machine, `Null` where there is none.
pub open spec fn value_or_null(v: Option<ObjectView>) -> ObjectView {
    match v {
        Some(o) => o,
        None => ObjectView::Null,
    }
}

/// Whether a value is one of the signals that end a block.
pub open spec fn ends_block(v: Option<ObjectView>) -> bool {
    match v {
        Some(ObjectView::Return(_)) => true,
        Some(ObjectView::Error(_)) => true,
        Some(ObjectView::Break) => true,
        Some(ObjectView::Continue) => true,
        _ => false,
    }
}

/// Whether a value is an error.
pub open spec fn is_error(v: Option<ObjectView>) -> bool {
    match v {
        Some(ObjectView::Error(_)) => true,
        _ => false,
    }
}

/// Whether a value counts as true.
pub open spec fn is_truthy(v: ObjectView) -> bool {
    !(v is Null || v == ObjectView::Bool(false))
}

/// The program that a source text denotes, and the messages on what could
/// not be read in it.
pub open spec fn parsed(source: Seq<char>) -> (Seq<StatementView>, Seq<Seq<char>>) {
    grammar::parse_program(tokens_from(source, 0))
}

/// The error for a name that no scope binds.
pub open spec fn not_found(name: Seq<char>) -> ObjectView {
    ObjectView::Error("identifier not found: "@ + name)
}

/// The error for a library that cannot be had.
pub open spec fn not_loaded(name: Seq<char>) -> ObjectView {
    ObjectView::Error("Could not load lib: "@ + name)
}

/// The error for a call with the wrong number of arguments.
pub open spec fn arity_error(expected: nat, given: nat) -> ObjectView {
    ObjectView::Error(
        "expected arguments: "@ + decimal(expected) + "\ngiven arguments: "@ + decimal(given),
    )
}

/// The error for a call of what is no function.
pub open spec fn not_a_function(o: ObjectView) -> ObjectView {
    ObjectView::Error("function not found: "@ + object_text(o))
}

/// The value of a name: that of the native function of this name that is
/// there in every scope, which no binding can shadow, or else what the scopes
/// bind to the name.
pub open spec fn ident_value(m: EvalView, name: Seq<char>) -> ObjectView {
    match local_value(crate::globals::globals(), name) {
        Some(v) => v,
        None => match resolve(m.scopes, m.store, name) {
            Some(v) => v,
            None => not_found(name),
        },
    }
}

/// The scopes after the first `n` of `bindings` are bound in `scope`, one
/// after the other.
pub open spec fn bind_list(
    scopes: Seq<ScopeView>,
    scope: nat,
    bindings: Seq<(Seq<char>, ObjectView)>,
    n: nat,
) -> Seq<ScopeView>
    decreases n,
{
    if n == 0 || n > bindings.len() {
        scopes
    } else {
        with_binding(
            bind_list(scopes, scope, bindings, (n - 1) as nat),
            scope,
            bindings[n - 1].0,
            bindings[n - 1].1,
        )
    }
}

/// The parameters of a call paired with the arguments.
pub open spec fn paired(params: Seq<Seq<char>>, args: Seq<ObjectView>) -> Seq<
    (Seq<char>, ObjectView),
> {
    Seq::new(
        if params.len() <= args.len() {
            params.len()
        } else {
            args.len()
        },
        |i: int| (params[i], args[i]),
    )
}

/// The machine in a new scope inside `outer` that holds `bindings`.
pub open spec fn in_new_scope(
    m: EvalView,
    outer: nat,
    bindings: Seq<(Seq<char>, ObjectView)>,
) -> EvalView {
    EvalView {
        scopes: bind_list(enclosed(m.scopes, outer), m.scopes.len(), bindings, bindings.len()),
        store: m.scopes.len(),
        value: None,
        ..m
    }
}

/// The machine in a new scope without an outer scope that holds `bindings`,
/// with the tasks to run `program` there and then to lay what it bound, over
/// `seed`, on the scope that the machine is in now.
pub open spec fn in_library(
    m: EvalView,
    bindings: Seq<(Seq<char>, ObjectView)>,
    program: Seq<StatementView>,
) -> EvalView {
    EvalView {
        scopes: with_root(m.scopes, bindings),
        store: m.scopes.len(),
        value: None,
        tasks: m.tasks.push(TaskView::Merge(m.store, bindings)).push(TaskView::Program(program)),
        ..m
    }
}

/// Whether the name of a library is that of a built-in one.
pub open spec fn is_builtin_name(name: Seq<char>) -> bool {
    name.len() >= 4 && name.subrange(0, 4) == "nya:"@
}

/// A program goes on with its next statement. It ends at an error, and at a
/// return, whose value is then the value of the program; at its end the
/// value of the last statement stays.
pub open spec fn program_step(m: EvalView, rest: Seq<StatementView>) -> (EvalView, ActionView) {
    match m.value {
        Some(ObjectView::Error(_)) => m.go(),
        Some(ObjectView::Return(v)) => m.give(*v),
        _ => if rest.len() == 0 {
            m.go()
        } else {
            m.push(TaskView::Program(rest.drop_first())).push(TaskView::Statement(rest[0])).go()
        },
    }
}

/// A block goes on with its next statement. It ends at a signal, which
/// stays the value, and at its end the value of the last statement stays.
pub open spec fn block_step(m: EvalView, rest: Seq<StatementView>) -> (EvalView, ActionView) {
    if ends_block(m.value) || rest.len() == 0 {
        m.go()
    } else {
        m.push(TaskView::Block(rest.drop_first())).push(TaskView::Statement(rest[0])).go()
    }
}

/// A library is asked for. A built-in one is laid on the current scope at
/// once, or after what it defines in the language itself has been run; the
/// text of any other is asked of the embedding program.
pub open spec fn include_step(m: EvalView, lib: Seq<char>) -> (EvalView, ActionView) {
    if is_builtin_name(lib) {
        match std_lib(lib) {
            None => m.give(not_loaded(lib)),
            Some(res) => match res.raw {
                None => in_new_scope(m, m.store, res.globals).go(),
                Some(source) => in_library(m, res.globals, parsed(source).0).go(),
            },
        }
    } else {
        (m.push(TaskView::Source(lib)), ActionView::Library(lib))
    }
}

/// A statement is begun: its expression is taken up, with the task that
/// deals with its value behind it; `break` and `continue` are signals at
/// once.
pub open spec fn statement_step(m: EvalView, s: StatementView) -> (EvalView, ActionView) {
    match s {
        StatementView::Expression(e) => m.push(TaskView::Expr(e)).go(),
        StatementView::Return(e) => m.push(TaskView::ReturnValue).push(TaskView::Expr(e)).go(),
        StatementView::Bind(n, e) => m.push(TaskView::Bind(n)).push(TaskView::Expr(e)).go(),
        StatementView::Anew(n, e) => m.push(TaskView::Reassign(n)).push(TaskView::Expr(e)).go(),
        StatementView::Include(lib) => include_step(m, lib),
        StatementView::Break => m.give(ObjectView::Break),
        StatementView::Continue => m.give(ObjectView::Continue),
    }
}

/// The value is wrapped into a return signal; no value stays none.
pub open spec fn return_step(m: EvalView) -> (EvalView, ActionView) {
    match m.value {
        Some(v) => m.give(ObjectView::Return(Box::new(v))),
        None => m.go(),
    }
}

/// The value is bound to a name in the current scope, and no value is left.
/// An error is not bound: it stays the value.
pub open spec fn bind_step(m: EvalView, name: Seq<char>) -> (EvalView, ActionView) {
    match m.value {
        None => m.go(),
        Some(v) => if v is Error {
            m.go()
        } else {
            EvalView {
                scopes: with_binding(m.scopes, m.store, name, v),
                value: None,
                ..m
            }.go()
        },
    }
}

/// The value is assigned to a name in the innermost scope that binds it,
/// and no value is left. Where no scope binds the name, that is an error.
/// An error is not assigned: it stays the value.
pub open spec fn reassign_step(m: EvalView, name: Seq<char>) -> (EvalView, ActionView) {
    match m.value {
        None => m.go(),
        Some(v) => if v is Error {
            m.go()
        } else if resolve(m.scopes, m.store, name).is_some() {
            EvalView { scopes: reassigned(m.scopes, m.store, name, v), value: None, ..m }.go()
        } else {
            m.give(not_found(name))
        },
    }
}

/// A literal is begun. Texts and truth values are values at once; the
/// number of a numeral is asked of the embedding program; the items of an
/// array and the entries of a map are taken up one after the other.
pub open spec fn literal_step(m: EvalView, l: LiteralView) -> (EvalView, ActionView) {
    match l {
        LiteralView::Number(numeral) => (m, ActionView::Numeral(numeral)),
        LiteralView::String(s) => m.give(ObjectView::String(s)),
        LiteralView::Boolean(b) => m.give(ObjectView::Bool(b)),
        LiteralView::Array(items) => if items.len() == 0 {
            m.give(ObjectView::Array(Seq::empty()))
        } else {
            m.push(TaskView::Elements(items.drop_first(), Seq::empty())).push(
                TaskView::Expr(items[0]),
            ).go()
        },
        LiteralView::Object(pairs) => if pairs.len() == 0 {
            m.give(ObjectView::Object(Seq::empty()))
        } else {
            m.push(TaskView::EntryKey(pairs[0].1, pairs.drop_first(), Seq::empty())).push(
                TaskView::Expr(pairs[0].0),
            ).go()
        },
    }
}

/// An expression is begun: a name or a function literal is a value at once;
/// of everything else the first part is taken up, with the task that deals
/// with its value behind it.
pub open spec fn expr_step(m: EvalView, e: ExprView) -> (EvalView, ActionView) {
    match e {
        ExprView::Ident(n) => m.give(ident_value(m, n)),
        ExprView::Literal(l) => literal_step(m, l),
        ExprView::Prefix(op, r) => m.push(TaskView::PrefixApply(op)).push(TaskView::Expr(*r)).go(),
        ExprView::Infix(op, l, r) => m.push(TaskView::InfixRight(op, *r)).push(
            TaskView::Expr(*l),
        ).go(),
        ExprView::If { cond, then_, else_ } => m.push(TaskView::Branch(then_, else_)).push(
            TaskView::Expr(*cond),
        ).go(),
        ExprView::Fun { params, body } => m.give(ObjectView::Fn(params, body, m.store)),
        ExprView::Call { function, args } => if args.len() == 0 {
            m.push(TaskView::Callee(Seq::empty())).push(TaskView::Expr(*function)).go()
        } else {
            m.push(TaskView::Arguments(*function, args.drop_first(), Seq::empty())).push(
                TaskView::Expr(args[0]),
            ).go()
        },
        ExprView::Index { array, index } => m.push(TaskView::IndexRight(*index)).push(
            TaskView::Expr(*array),
        ).go(),
        ExprView::Typeof { expr } => m.push(TaskView::TypeofApply).push(TaskView::Expr(*expr)).go(),
        ExprView::Loop { body } => m.with_value(None).push(TaskView::Repeat(body)).push(
            TaskView::Block(body),
        ).go(),
    }
}

/// A prefix operator is applied to the value.
pub open spec fn prefix_step(m: EvalView, op: Prefix) -> (EvalView, ActionView) {
    match m.value {
        Some(v) => m.give(prefix_result(op, v)),
        None => m.go(),
    }
}

/// The left operand has its value. An error ends the expression here; else
/// the right operand is taken up.
pub open spec fn infix_right_step(m: EvalView, op: Infix, right: ExprView) -> (
    EvalView,
    ActionView,
) {
    if is_error(m.value) {
        m.go()
    } else {
        m.with_value(None).push(TaskView::InfixApply(op, m.value)).push(
            TaskView::Expr(right),
        ).go()
    }
}

/// Both operands have their values. An error on the right stays the value;
/// without a value on either side there is no value; else the operator gives
/// a value, or arithmetic is asked of the embedding program.
pub open spec fn infix_apply_step(m: EvalView, op: Infix, left: Option<ObjectView>) -> (
    EvalView,
    ActionView,
) {
    match (left, m.value) {
        (Some(l), Some(r)) => if r is Error {
            m.go()
        } else {
            match infix_result(op, l, r) {
                ComputedView::Value(v) => m.give(v),
                ComputedView::Arithmetic(o, a, b) => (m, ActionView::Arithmetic(o, a, b)),
            }
        },
        _ => m.with_value(None).go(),
    }
}

/// The condition has its value. An error stays the value; a value that
/// counts as true has the first block run, any other the second if there is
/// one.
pub open spec fn branch_step(
    m: EvalView,
    consequence: Seq<StatementView>,
    alternative: Option<Seq<StatementView>>,
) -> (EvalView, ActionView) {
    match m.value {
        None => m.go(),
        Some(v) => if v is Error {
            m.go()
        } else if is_truthy(v) {
            m.with_value(None).push(TaskView::Block(consequence)).go()
        } else {
            match alternative {
                Some(a) => m.with_value(None).push(TaskView::Block(a)).go(),
                None => m.with_value(None).go(),
            }
        },
    }
}

/// An argument has its value. An error ends the call here; else the next
/// argument is taken up, and after the last one the function.
pub open spec fn arguments_step(
    m: EvalView,
    function: ExprView,
    rest: Seq<ExprView>,
    values: Seq<ObjectView>,
) -> (EvalView, ActionView) {
    let v = value_or_null(m.value);
    if v is Error {
        m.give(v)
    } else if rest.len() == 0 {
        m.with_value(None).push(TaskView::Callee(values.push(v))).push(
            TaskView::Expr(function),
        ).go()
    } else {
        m.with_value(None).push(
            TaskView::Arguments(function, rest.drop_first(), values.push(v)),
        ).push(TaskView::Expr(rest[0])).go()
    }
}

/// The function has its value. A function of the language is run in a new
/// scope inside the scope of its literal, with its parameters bound to the
/// arguments; a native function is computed here or asked of the embedding
/// program; the wrong number of arguments, and anything that is no function,
/// is an error.
pub open spec fn callee_step(m: EvalView, args: Seq<ObjectView>) -> (EvalView, ActionView) {
    match m.value {
        Some(ObjectView::Fn(params, body, scope)) => if params.len() != args.len() {
            m.give(arity_error(params.len(), args.len()))
        } else {
            let called = in_new_scope(m, scope, paired(params, args));
            EvalView {
                tasks: m.tasks.push(TaskView::Leave(m.store)).push(TaskView::Block(body)),
                ..called
            }.go()
        },
        Some(ObjectView::Inbuilt(name)) => match native_result(name, args) {
            Some(v) => m.give(v),
            None => (m, ActionView::Native(name, args)),
        },
        Some(o) => m.give(not_a_function(o)),
        None => m.give(ObjectView::Null),
    }
}

/// The body of a function has ended: the scope of the caller is current
/// again, and the value of the call is what the body returned.
pub open spec fn leave_step(m: EvalView, saved: nat) -> (EvalView, ActionView) {
    EvalView { store: saved, value: Some(unwrapped(m.value)), ..m }.go()
}

/// What is indexed has its value. An error ends the expression here; else
/// the index is taken up.
pub open spec fn index_right_step(m: EvalView, index: ExprView) -> (EvalView, ActionView) {
    if is_error(m.value) {
        m.go()
    } else {
        m.with_value(None).push(TaskView::IndexApply(m.value)).push(TaskView::Expr(index)).go()
    }
}

/// The index has its value. An error stays the value; without a value on
/// either side there is no value; else the index selects.
pub open spec fn index_apply_step(m: EvalView, indexed: Option<ObjectView>) -> (
    EvalView,
    ActionView,
) {
    match (indexed, m.value) {
        (Some(o), Some(i)) => if i is Error {
            m.go()
        } else {
            m.give(index_result(o, i))
        },
        _ => m.with_value(None).go(),
    }
}

/// The value is replaced by the name of its kind; no value is `undefined`.
pub open spec fn typeof_step(m: EvalView) -> (EvalView, ActionView) {
    match m.value {
        Some(v) => m.give(ObjectView::String(kind_name(v))),
        None => m.give(ObjectView::String("undefined"@)),
    }
}

/// A round of a loop has ended. A return and an error leave the loop and
/// stay the value; `break` leaves it with `Null`; after everything else the
/// body is run again.
pub open spec fn repeat_step(m: EvalView, body: Seq<StatementView>) -> (EvalView, ActionView) {
    match m.value {
        Some(ObjectView::Return(_)) => m.go(),
        Some(ObjectView::Error(_)) => m.go(),
        Some(ObjectView::Break) => m.give(ObjectView::Null),
        _ => m.with_value(None).push(TaskView::Repeat(body)).push(TaskView::Block(body)).go(),
    }
}

/// An item of an array literal has its value. An error ends the literal
/// here; else the next item is taken up, and after the last one the array is
/// the value.
pub open spec fn elements_step(m: EvalView, rest: Seq<ExprView>, values: Seq<ObjectView>) -> (
    EvalView,
    ActionView,
) {
    let v = value_or_null(m.value);
    if v is Error {
        m.give(v)
    } else if rest.len() == 0 {
        m.give(ObjectView::Array(values.push(v)))
    } else {
        m.with_value(None).push(TaskView::Elements(rest.drop_first(), values.push(v))).push(
            TaskView::Expr(rest[0]),
        ).go()
    }
}

/// A key of an object literal has its value. An error ends the literal
/// here; else the value for the key is taken up.
pub open spec fn entry_key_step(
    m: EvalView,
    value: ExprView,
    rest: Seq<(ExprView, ExprView)>,
    map: Seq<(ObjectView, ObjectView)>,
) -> (EvalView, ActionView) {
    let k = value_or_null(m.value);
    if k is Error {
        m.give(k)
    } else {
        m.with_value(None).push(TaskView::EntryValue(k, rest, map)).push(
            TaskView::Expr(value),
        ).go()
    }
}

/// The value for a key of an object literal has its value. An error ends
/// the literal here; else the entry is put into the map and the next entry
/// is taken up, and after the last one the map is the value.
pub open spec fn entry_value_step(
    m: EvalView,
    key: ObjectView,
    rest: Seq<(ExprView, ExprView)>,
    map: Seq<(ObjectView, ObjectView)>,
) -> (EvalView, ActionView) {
    let v = value_or_null(m.value);
    if v is Error {
        m.give(v)
    } else if rest.len() == 0 {
        m.give(ObjectView::Object(inserted(map, key, v)))
    } else {
        m.with_value(None).push(
            TaskView::EntryKey(rest[0].1, rest.drop_first(), inserted(map, key, v)),
        ).push(TaskView::Expr(rest[0].0)).go()
    }
}

/// The text of a library has come. A text that is read without messages is
/// run as a program in a new scope without an outer scope; a text with
/// messages is an error, and the messages are kept; no text is an error.
pub open spec fn source_step(m: EvalView, lib: Seq<char>) -> (EvalView, ActionView) {
    match m.value {
        Some(ObjectView::String(source)) => if parsed(source).1.len() > 0 {
            EvalView { diagnostics: m.diagnostics + parsed(source).1, ..m }.give(not_loaded(lib))
        } else {
            in_library(m, Seq::empty(), parsed(source).0).go()
        },
        _ => m.give(not_loaded(lib)),
    }
}

/// A library has been run. A new scope inside that of the program that
/// asked for it takes the bindings that the library started with and, over
/// them, those of the scope in which the library ended.
pub open spec fn merge_step(m: EvalView, includer: nat, seed: Seq<(Seq<char>, ObjectView)>) -> (
    EvalView,
    ActionView,
) {
    let own = if m.store < m.scopes.len() {
        m.scopes[m.store as int].bindings
    } else {
        Seq::empty()
    };
    let laid = in_new_scope(m, includer, seed);
    EvalView { scopes: bind_list(laid.scopes, laid.store, own, own.len()), ..laid }.go()
}

/// What performing the task `t` does to the machine `m`, from whose stack the
/// task has been taken.
pub open spec fn perform(m: EvalView, t: TaskView) -> (EvalView, ActionView) {
    match t {
        TaskView::Program(rest) => program_step(m, rest),
        TaskView::Block(rest) => block_step(m, rest),
        TaskView::Statement(s) => statement_step(m, s),
        TaskView::Expr(e) => expr_step(m, e),
        TaskView::ReturnValue => return_step(m),
        TaskView::Bind(n) => bind_step(m, n),
        TaskView::Reassign(n) => reassign_step(m, n),
        TaskView::PrefixApply(op) => prefix_step(m, op),
        TaskView::InfixRight(op, r) => infix_right_step(m, op, r),
        TaskView::InfixApply(op, l) => infix_apply_step(m, op, l),
        TaskView::Branch(c, a) => branch_step(m, c, a),
        TaskView::Arguments(f, rest, values) => arguments_step(m, f, rest, values),
        TaskView::Callee(args) => callee_step(m, args),
        TaskView::Leave(saved) => leave_step(m, saved),
        TaskView::IndexRight(i) => index_right_step(m, i),
        TaskView::IndexApply(o) => index_apply_step(m, o),
        TaskView::TypeofApply => typeof_step(m),
        TaskView::Repeat(body) => repeat_step(m, body),
        TaskView::Elements(rest, values) => elements_step(m, rest, values),
        TaskView::EntryKey(v, rest, map) => entry_key_step(m, v, rest, map),
        TaskView::EntryValue(k, rest, map) => entry_value_step(m, k, rest, map),
        TaskView::Source(lib) => source_step(m, lib),
        TaskView::Merge(includer, seed) => merge_step(m, includer, seed),
    }
}

/// One step of the machine: with no task left, the program has ended with
/// the value as its result; else the top task is taken off and performed.
pub open spec fn step(m: EvalView) -> (EvalView, ActionView) {
    if m.tasks.len() == 0 {
        (m.with_value(None), ActionView::Done(m.value))
    } else {
        perform(EvalView { tasks: m.tasks.drop_last(), ..m }, m.tasks.last())
    }
}

/// Up to `budget` steps of the machine: the steps go on as long as the
/// machine says that there is more to do.
pub open spec fn run(m: EvalView, budget: nat) -> (EvalView, ActionView)
    decreases budget,
{
    if budget == 0 {
        (m, ActionView::Continue)
    } else {
        let (next, action) = step(m);
        if action is Continue {
            run(next, (budget - 1) as nat)
        } else {
            (next, action)
        }
    }
}

/// The machine with a program to run: the value is cleared, and the program
/// is the top task.
pub open spec fn loaded(m: EvalView, program: Seq<StatementView>) -> EvalView {
    m.with_value(None).push(TaskView::Program(program))
}

/// Pairs the parameters of a call with copies of the arguments.
fn pair_up(params: &Vec<Ident>, args: &Vec<Object>) -> (r: Vec<(String, Object)>)
    ensures
        bindings_view(r@) == paired(idents_view(params@), objects_view(*args)),
{
    let n = if params.len() <= args.len() {
        params.len()
    } else {
        args.len()
    };
    let mut out: Vec<(String, Object)> = Vec::new();
    let mut i: usize = 0;
    while i < n
        invariant
            i <= n,
            n <= params.len(),
            n <= args.len(),
            out@.len() == i,
            forall|k: int| 0 <= k < i ==> out@[k].0@ == params@[k]@ && out@[k].1@ == args@[k]@,
        decreases n - i,
    {
        let name = params[i].0.clone();
        let value = clone_object(&args[i]);
        out.push((name, value));
        i += 1;
    }
    proof {
        assert(bindings_view(out@) =~= paired(idents_view(params@), objects_view(*args)));
    }
    out
}

/// Whether the name of a library is that of a built-in one.
fn is_builtin(name: &str) -> (r: bool)
    ensures
        r == is_builtin_name(name@),
{
    let n = name.unicode_len();
    if n < 4 {
        return false;
    }
    crate::token::same_text(name.substring_char(0, 4), "nya:")
}

/// Builds an error from a text and a name.
fn named_error(prefix: &str, name: &str) -> (r: Object)
    ensures
        r@ == ObjectView::Error(prefix@ + name@),
{
    let mut msg = String::from_str(prefix);
    msg.append(name);
    Object::Error(msg)
}

impl Eval {
    /// A machine over `scopes`, in their first scope, with nothing to do.
    pub fn new(scopes: Store) -> (r: Eval)
        ensures
            r@ == (EvalView {
                scopes: scopes@,
                store: 0,
                tasks: Seq::empty(),
                value: None,
                diagnostics: Seq::empty(),
            }),
    {
        let r = Eval {
            scopes,
            store: 0,
            tasks: Vec::new(),
            value: None,
            diagnostics: Vec::new(),
        };
        proof {
            assert(tasks_view(r.tasks@) =~= Seq::empty());
            assert(crate::parser::texts(r.diagnostics@) =~= Seq::empty());
        }
        r
    }

    /// Gives the machine a program to run.
    pub fn load(&mut self, program: Program)
        ensures
            final(self)@ == loaded(old(self)@, program@),
    {
        self.value = None;
        self.push(Task::Program(program.statements));
    }

    /// Hands the machine the answer to what it asked for.
    pub fn answer(&mut self, value: Object)
        ensures
            final(self)@ == old(self)@.with_value(Some(value@)),
    {
        self.value = Some(value);
    }

    fn push(&mut self, t: Task)
        ensures
            final(self)@ == old(self)@.push(t@),
    {
        self.tasks.push(t);
        proof {
            assert(tasks_view(self.tasks@) =~= tasks_view(old(self).tasks@).push(t@));
        }
    }

    fn give(&mut self, v: Object) -> (a: Action)
        ensures
            (final(self)@, a@) == old(self)@.give(v@),
    {
        self.value = Some(v);
        Action::Continue
    }

    fn clear(&mut self)
        ensures
            final(self)@ == old(self)@.with_value(None),
    {
        self.value = None;
    }

    fn value_is_error(&self) -> (r: bool)
        ensures
            r == is_error(self@.value),
    {
        match &self.value {
            Some(Object::Error(_)) => true,
            _ => false,
        }
    }

    fn value_ends_block(&self) -> (r: bool)
        ensures
            r == ends_block(self@.value),
    {
        match &self.value {
            Some(Object::Return(_)) => true,
            Some(Object::Error(_)) => true,
            Some(Object::Break) => true,
            Some(Object::Continue) => true,
            _ => false,
        }
    }

    /// Takes the value out of the machine, `Null` where there is none.
    fn take_or_null(&mut self) -> (v: Object)
        ensures
            v@ == value_or_null(old(self)@.value),
            final(self)@ == old(self)@.with_value(None),
    {
        match self.value.take() {
            Some(v) => v,
            None => Object::Null,
        }
    }

    /// Binds each of `bindings` in `scope`, one after the other.
    fn bind_all(&mut self, scope: usize, bindings: Vec<(String, Object)>)
        ensures
            final(self)@ == (EvalView {
                scopes: bind_list(
                    old(self)@.scopes,
                    scope as nat,
                    bindings_view(bindings@),
                    bindings@.len(),
                ),
                ..old(self)@
            }),
    {
        let mut i: usize = 0;
        while i < bindings.len()
            invariant
                i <= bindings.len(),
                self@ == (EvalView {
                    scopes: bind_list(
                        old(self)@.scopes,
                        scope as nat,
                        bindings_view(bindings@),
                        i as nat,
                    ),
                    ..old(self)@
                }),
            decreases bindings.len() - i,
        {
            let name = bindings[i].0.clone();
            let value = clone_object(&bindings[i].1);
            self.scopes.set(scope, name, value);
            i += 1;
        }
    }

    /// Moves into a new scope inside `outer` that holds `bindings`: the scope
    /// of a call, with the parameters bound to the arguments, or the scope
    /// that a library lays on a program.
    fn extended_function_store(&mut self, outer: usize, bindings: Vec<(String, Object)>)
        ensures
            final(self)@ == in_new_scope(old(self)@, outer as nat, bindings_view(bindings@)),
    {
        let id = self.scopes.new_enclosed(outer);
        self.bind_all(id, bindings);
        self.store = id;
        self.value = None;
    }

    /// Moves into a new scope without an outer scope that holds `bindings`,
    /// to run `program` there.
    fn enter_library(&mut self, bindings: Vec<(String, Object)>, program: Program)
        ensures
            final(self)@ == in_library(old(self)@, bindings_view(bindings@), program@),
    {
        let seed = crate::store::clone_bindings(&bindings);
        let includer = self.store;
        let id = self.scopes.new_root(bindings);
        self.push(Task::Merge(includer, seed));
        self.push(Task::Program(program.statements));
        self.store = id;
        self.value = None;
    }

    fn program_step(&mut self, rest: Vec<Statement>) -> (a: Action)
        ensures
            (final(self)@, a@) == program_step(old(self)@, block_view(rest)),
    {
        if self.value_is_error() {
            return Action::Continue;
        }
        match self.value.take() {
            Some(Object::Return(v)) => {
                return self.give(*v);
            },
            other => {
                self.value = other;
            },
        }
        if rest.len() == 0 {
            return Action::Continue;
        }
        let mut rest = rest;
        let ghost before = rest;
        let first = rest.remove(0);
        proof {
            crate::ast::lemma_block_rest(before, rest);
        }
        self.push(Task::Program(rest));
        self.push(Task::Statement(first));
        Action::Continue
    }

    /// Goes on with a block: takes up its next statement, unless a signal or
    /// the end of the block ends it.
    fn eval_block_statement(&mut self, rest: Vec<Statement>) -> (a: Action)
        ensures
            (final(self)@, a@) == block_step(old(self)@, block_view(rest)),
    {
        if self.value_ends_block() || rest.len() == 0 {
            return Action::Continue;
        }
        let mut rest = rest;
        let ghost before = rest;
        let first = rest.remove(0);
        proof {
            crate::ast::lemma_block_rest(before, rest);
        }
        self.push(Task::Block(rest));
        self.push(Task::Statement(first));
        Action::Continue
    }

    /// Begins to lay a library on the current scope.
    fn extend_global_store(&mut self, lib: String) -> (a: Action)
        ensures
            (final(self)@, a@) == include_step(old(self)@, lib@),
    {
        if is_builtin(lib.as_str()) {
            match crate::std_library::get_std_lib(lib.as_str()) {
                None => self.give(named_error("Could not load lib: ", lib.as_str())),
                Some(res) => match res.raw {
                    None => {
                        let outer = self.store;
                        self.extended_function_store(outer, res.globals);
                        Action::Continue
                    },
                    Some(source) => {
                        let (program, _) = crate::parser::parse(source);
                        self.enter_library(res.globals, program);
                        Action::Continue
                    },
                },
            }
        } else {
            let name = lib.clone();
            self.push(Task::Source(lib));
            Action::Library(name)
        }
    }

    /// Begins to run a statement.
    fn eval_statement(&mut self, statement: Statement) -> (a: Action)
        ensures
            (final(self)@, a@) == statement_step(old(self)@, statement@),
    {
        match statement {
            Statement::Expression(e) => {
                self.push(Task::Expr(e));
                Action::Continue
            },
            Statement::Return(e) => {
                self.push(Task::ReturnValue);
                self.push(Task::Expr(e));
                Action::Continue
            },
            Statement::Bind(i, v) => {
                self.push(Task::Bind(i.0));
                self.push(Task::Expr(v));
                Action::Continue
            },
            Statement::Anew(i, v) => {
                self.push(Task::Reassign(i.0));
                self.push(Task::Expr(v));
                Action::Continue
            },
            Statement::Include(lib) => self.extend_global_store(lib),
            Statement::Break => self.give(Object::Break),
            Statement::Continue => self.give(Object::Continue),
        }
    }

    fn return_step(&mut self) -> (a: Action)
        ensures
            (final(self)@, a@) == return_step(old(self)@),
    {
        match self.value.take() {
            Some(v) => self.give(Object::Return(Box::new(v))),
            None => Action::Continue,
        }
    }

    fn bind_step(&mut self, name: String) -> (a: Action)
        ensures
            (final(self)@, a@) == bind_step(old(self)@, name@),
    {
        if self.value_is_error() {
            return Action::Continue;
        }
        match self.value.take() {
            Some(v) => {
                self.scopes.set(self.store, name, v);
                Action::Continue
            },
            None => Action::Continue,
        }
    }

    fn reassign_step(&mut self, name: String) -> (a: Action)
        ensures
            (final(self)@, a@) == reassign_step(old(self)@, name@),
    {
        if self.value_is_error() {
            return Action::Continue;
        }
        match self.value.take() {
            Some(v) => {
                let error = named_error("identifier not found: ", name.as_str());
                proof {
                    if resolve(self.scopes@, self.store as nat, name@).is_none() {
                        crate::store::lemma_reassign_unbound(
                            self.scopes@,
                            self.store as nat,
                            name@,
                            v@,
                        );
                    }
                }
                if self.scopes.anew(self.store, name, v) {
                    Action::Continue
                } else {
                    self.give(error)
                }
            },
            None => Action::Continue,
        }
    }

    /// The value of a name.
    fn eval_ident(&self, ident: Ident) -> (r: Object)
        ensures
            r@ == ident_value(self@, ident@),
    {
        let name = ident.0;
        let builtins = crate::globals::new_globals();
        match crate::store::position_of_name(&builtins, name.as_str()) {
            Some(i) => {
                return clone_object(&builtins[i].1);
            },
            None => {},
        }
        match self.scopes.get(self.store, name.as_str()) {
            Some(v) => v,
            None => named_error("identifier not found: ", name.as_str()),
        }
    }

    /// Begins to evaluate a literal.
    fn eval_literal(&mut self, lit: Literal) -> (a: Action)
        ensures
            (final(self)@, a@) == literal_step(old(self)@, lit@),
    {
        match lit {
            Literal::Number(numeral) => Action::Numeral(numeral),
            Literal::String(s) => self.give(Object::String(s)),
            Literal::Boolean(b) => self.give(Object::Bool(b)),
            Literal::Array(items) => {
                let values: Vec<Object> = Vec::new();
                proof {
                    assert(objects_view(values) =~= Seq::empty());
                }
                if items.len() == 0 {
                    return self.give(Object::Array(values));
                }
                let mut items = items;
                let ghost before = items;
                let first = items.remove(0);
                proof {
                    crate::ast::lemma_exprs_rest(before, items);
                }
                self.push(Task::Elements(items, values));
                self.push(Task::Expr(first));
                Action::Continue
            },
            Literal::Object(pairs) => self.eval_object_literal(pairs),
        }
    }

    /// Begins to evaluate an object literal.
    fn eval_object_literal(&mut self, pairs: Vec<(Expr, Expr)>) -> (a: Action)
        ensures
            (final(self)@, a@) == literal_step(old(self)@, LiteralView::Object(pairs_view(pairs))),
    {
        let map: Vec<(Object, Object)> = Vec::new();
        proof {
            assert(entries_view(map) =~= Seq::empty());
        }
        if pairs.len() == 0 {
            return self.give(Object::Object(map));
        }
        let mut pairs = pairs;
        let ghost before = pairs;
        let (key, value) = pairs.remove(0);
        proof {
            crate::ast::lemma_pairs_rest(before, pairs);
        }
        self.push(Task::EntryKey(value, pairs, map));
        self.push(Task::Expr(key));
        Action::Continue
    }

    /// Begins to evaluate a call.
    fn eval_call_expr(&mut self, function: Expr, args: Vec<Expr>) -> (a: Action)
        ensures
            (final(self)@, a@) == expr_step(
                old(self)@,
                ExprView::Call { function: Box::new(function@), args: exprs_view(args) },
            ),
    {
        let values: Vec<Object> = Vec::new();
        proof {
            assert(objects_view(values) =~= Seq::empty());
        }
        if args.len() == 0 {
            self.push(Task::Callee(values));
            self.push(Task::Expr(function));
            return Action::Continue;
        }
        let mut args = args;
        let ghost before = args;
        let first = args.remove(0);
        proof {
            crate::ast::lemma_exprs_rest(before, args);
        }
        self.push(Task::Arguments(function, args, values));
        self.push(Task::Expr(first));
        Action::Continue
    }

    /// Begins to evaluate an expression.
    fn eval_expr(&mut self, expr: Expr) -> (a: Action)
        ensures
            (final(self)@, a@) == expr_step(old(self)@, expr@),
    {
        match expr {
            Expr::Ident(ident) => {
                let v = self.eval_ident(ident);
                self.give(v)
            },
            Expr::Literal(lit) => self.eval_literal(lit),
            Expr::Prefix(prefix, right) => {
                self.push(Task::PrefixApply(prefix));
                self.push(Task::Expr(*right));
                Action::Continue
            },
            Expr::Infix(infix, left, right) => {
                self.push(Task::InfixRight(infix, *right));
                self.push(Task::Expr(*left));
                Action::Continue
            },
            Expr::If { cond, then_, else_ } => {
                self.push(Task::Branch(*then_, else_));
                self.push(Task::Expr(*cond));
                Action::Continue
            },
            Expr::Fun { params, body } => {
                let scope = self.store;
                self.give(Object::Fn(params, body, scope))
            },
            Expr::Call { function, args } => self.eval_call_expr(*function, args),
            Expr::Index { array, index } => {
                self.push(Task::IndexRight(*index));
                self.push(Task::Expr(*array));
                Action::Continue
            },
            Expr::Typeof { expr } => {
                self.push(Task::TypeofApply);
                self.push(Task::Expr(*expr));
                Action::Continue
            },
            Expr::Loop { body } => {
                let round = clone_block(&body);
                self.clear();
                self.push(Task::Repeat(body));
                self.push(Task::Block(round));
                Action::Continue
            },
        }
    }

    fn prefix_step(&mut self, op: Prefix) -> (a: Action)
        ensures
            (final(self)@, a@) == prefix_step(old(self)@, op),
    {
        match self.value.take() {
            Some(v) => self.give(crate::operators::eval_prefix_expr(op, v)),
            None => Action::Continue,
        }
    }

    fn infix_right_step(&mut self, op: Infix, right: Expr) -> (a: Action)
        ensures
            (final(self)@, a@) == infix_right_step(old(self)@, op, right@),
    {
        if self.value_is_error() {
            return Action::Continue;
        }
        let left = self.value.take();
        self.push(Task::InfixApply(op, left));
        self.push(Task::Expr(right));
        Action::Continue
    }

    fn infix_apply_step(&mut self, op: Infix, left: Option<Object>) -> (a: Action)
        ensures
            (final(self)@, a@) == infix_apply_step(old(self)@, op, opt_object_view(left)),
    {
        if left.is_some() && self.value_is_error() {
            return Action::Continue;
        }
        match (left, self.value.take()) {
            (Some(l), Some(r)) => match crate::operators::eval_infix_expr(op, &l, &r) {
                Computed::Value(v) => self.give(v),
                Computed::Arithmetic(o, a, b) => {
                    self.value = Some(r);
                    Action::Arithmetic(o, a, b)
                },
            },
            _ => Action::Continue,
        }
    }

    fn branch_step(&mut self, consequence: Vec<Statement>, alternative: Option<Vec<Statement>>) -> (a:
        Action)
        ensures
            (final(self)@, a@) == branch_step(
                old(self)@,
                block_view(consequence),
                match alternative {
                    Some(b) => Some(block_view(b)),
                    None => None,
                },
            ),
    {
        if self.value_is_error() {
            return Action::Continue;
        }
        match self.value.take() {
            None => Action::Continue,
            Some(v) => {
                if v.is_truthy() {
                    self.push(Task::Block(consequence));
                } else {
                    match alternative {
                        Some(block) => {
                            self.push(Task::Block(block));
                        },
                        None => {},
                    }
                }
                Action::Continue
            },
        }
    }

    fn arguments_step(&mut self, function: Expr, rest: Vec<Expr>, values: Vec<Object>) -> (a:
        Action)
        ensures
            (final(self)@, a@) == arguments_step(
                old(self)@,
                function@,
                exprs_view(rest),
                objects_view(values),
            ),
    {
        let v = self.take_or_null();
        if v.is_error() {
            return self.give(v);
        }
        let mut values = values;
        let ghost seen = values;
        values.push(v);
        proof {
            crate::object::lemma_objects_push(seen, values, v);
        }
        if rest.len() == 0 {
            self.push(Task::Callee(values));
            self.push(Task::Expr(function));
            return Action::Continue;
        }
        let mut rest = rest;
        let ghost before = rest;
        let next = rest.remove(0);
        proof {
            crate::ast::lemma_exprs_rest(before, rest);
        }
        self.push(Task::Arguments(function, rest, values));
        self.push(Task::Expr(next));
        Action::Continue
    }

    /// Calls the function that is the value with `args`.
    fn apply_function(&mut self, args: Vec<Object>) -> (a: Action)
        ensures
            (final(self)@, a@) == callee_step(old(self)@, objects_view(args)),
    {
        match self.value.take() {
            Some(Object::Fn(params, body, scope)) => {
                if params.len() != args.len() {
                    let mut msg = String::from_str("expected arguments: ");
                    msg.append(crate::number::decimal_text(params.len()).as_str());
                    msg.append("\ngiven arguments: ");
                    msg.append(crate::number::decimal_text(args.len()).as_str());
                    return self.give(Object::Error(msg));
                }
                let caller = self.store;
                let bindings = pair_up(&params, &args);
                self.extended_function_store(scope, bindings);
                self.push(Task::Leave(caller));
                self.push(Task::Block(body));
                Action::Continue
            },
            Some(Object::Inbuilt(name)) => {
                match crate::std_library::call_native(name.as_str(), args) {
                    Ok(v) => self.give(v),
                    Err(back) => {
                        self.value = Some(Object::Inbuilt(name.clone()));
                        Action::Native(name, back)
                    },
                }
            },
            Some(o) => {
                let mut msg = String::from_str("function not found: ");
                msg.append(o.to_text().as_str());
                self.give(Object::Error(msg))
            },
            None => self.give(Object::Null),
        }
    }

    fn leave_step(&mut self, saved: usize) -> (a: Action)
        ensures
            (final(self)@, a@) == leave_step(old(self)@, saved as nat),
    {
        let v = self.value.take();
        self.store = saved;
        self.give(crate::operators::unwrap_return_value(v))
    }

    fn index_right_step(&mut self, index: Expr) -> (a: Action)
        ensures
            (final(self)@, a@) == index_right_step(old(self)@, index@),
    {
        if self.value_is_error() {
            return Action::Continue;
        }
        let indexed = self.value.take();
        self.push(Task::IndexApply(indexed));
        self.push(Task::Expr(index));
        Action::Continue
    }

    fn index_apply_step(&mut self, indexed: Option<Object>) -> (a: Action)
        ensures
            (final(self)@, a@) == index_apply_step(old(self)@, opt_object_view(indexed)),
    {
        if indexed.is_some() && self.value_is_error() {
            return Action::Continue;
        }
        match (indexed, self.value.take()) {
            (Some(o), Some(i)) => self.give(crate::operators::eval_index_expr(&o, i)),
            _ => Action::Continue,
        }
    }

    /// Gives the name of the kind of the value.
    fn eval_typeof_expr(&mut self) -> (a: Action)
        ensures
            (final(self)@, a@) == typeof_step(old(self)@),
    {
        match self.value.take() {
            Some(v) => self.give(Object::String(v.kind_name())),
            None => self.give(Object::String(String::from_str("undefined"))),
        }
    }

    fn repeat_step(&mut self, body: Vec<Statement>) -> (a: Action)
        ensures
            (final(self)@, a@) == repeat_step(old(self)@, block_view(body)),
    {
        match &self.value {
            Some(Object::Return(_)) => {
                return Action::Continue;
            },
            Some(Object::Error(_)) => {
                return Action::Continue;
            },
            Some(Object::Break) => {
                return self.give(Object::Null);
            },
            _ => {},
        }
        let round = clone_block(&body);
        self.clear();
        self.push(Task::Repeat(body));
        self.push(Task::Block(round));
        Action::Continue
    }

    fn elements_step(&mut self, rest: Vec<Expr>, values: Vec<Object>) -> (a: Action)
        ensures
            (final(self)@, a@) == elements_step(old(self)@, exprs_view(rest), objects_view(values)),
    {
        let v = self.take_or_null();
        if v.is_error() {
            return self.give(v);
        }
        let mut values = values;
        let ghost seen = values;
        values.push(v);
        proof {
            crate::object::lemma_objects_push(seen, values, v);
        }
        if rest.len() == 0 {
            return self.give(Object::Array(values));
        }
        let mut rest = rest;
        let ghost before = rest;
        let next = rest.remove(0);
        proof {
            crate::ast::lemma_exprs_rest(before, rest);
        }
        self.push(Task::Elements(rest, values));
        self.push(Task::Expr(next));
        Action::Continue
    }

    fn entry_key_step(
        &mut self,
        value: Expr,
        rest: Vec<(Expr, Expr)>,
        map: Vec<(Object, Object)>,
    ) -> (a: Action)
        ensures
            (final(self)@, a@) == entry_key_step(
                old(self)@,
                value@,
                pairs_view(rest),
                entries_view(map),
            ),
    {
        let k = self.take_or_null();
        if k.is_error() {
            return self.give(k);
        }
        self.push(Task::EntryValue(k, rest, map));
        self.push(Task::Expr(value));
        Action::Continue
    }

    fn entry_value_step(
        &mut self,
        key: Object,
        rest: Vec<(Expr, Expr)>,
        map: Vec<(Object, Object)>,
    ) -> (a: Action)
        ensures
            (final(self)@, a@) == entry_value_step(
                old(self)@,
                key@,
                pairs_view(rest),
                entries_view(map),
            ),
    {
        let v = self.take_or_null();
        if v.is_error() {
            return self.give(v);
        }
        let map = crate::object::map_insert(map, key, v);
        if rest.len() == 0 {
            return self.give(Object::Object(map));
        }
        let mut rest = rest;
        let ghost before = rest;
        let (next_key, next_value) = rest.remove(0);
        proof {
            crate::ast::lemma_pairs_rest(before, rest);
        }
        self.push(Task::EntryKey(next_value, rest, map));
        self.push(Task::Expr(next_key));
        Action::Continue
    }

    /// Takes up the source text of a library, which is the value: the text
    /// is parsed, and the program is run in a scope of its own. What it binds
    /// there is then laid on the scope of the program that asked for it. A
    /// text that cannot be read is an error, and so is a value that is no
    /// text.
    pub fn load_meow(&mut self, lib: String) -> (a: Action)
        ensures
            (final(self)@, a@) == source_step(old(self)@, lib@),
    {
        match self.value.take() {
            Some(Object::String(source)) => {
                let (program, errors) = crate::parser::parse(source);
                if errors.len() > 0 {
                    let ghost before = self.diagnostics@;
                    let mut i: usize = 0;
                    while i < errors.len()
                        invariant
                            i <= errors.len(),
                            self@ == (EvalView {
                                diagnostics: crate::parser::texts(before)
                                    + crate::parser::texts(errors@).subrange(0, i as int),
                                value: None,
                                ..old(self)@
                            }),
                        decreases errors.len() - i,
                    {
                        let ghost seen = self.diagnostics@;
                        self.diagnostics.push(errors[i].clone());
                        proof {
                            assert(crate::parser::texts(self.diagnostics@) =~= crate::parser::texts(
                                seen,
                            ).push(errors@[i as int]@));
                            assert(crate::parser::texts(seen).push(errors@[i as int]@)
                                =~= crate::parser::texts(before) + crate::parser::texts(
                                errors@,
                            ).subrange(0, i + 1));
                        }
                        i += 1;
                    }
                    proof {
                        assert(crate::parser::texts(errors@).subrange(0, errors@.len() as int)
                            =~= crate::parser::texts(errors@));
                    }
                    self.give(named_error("Could not load lib: ", lib.as_str()))
                } else {
                    let bindings: Vec<(String, Object)> = Vec::new();
                    proof {
                        assert(bindings_view(bindings@) =~= Seq::empty());
                    }
                    self.enter_library(bindings, program);
                    Action::Continue
                }
            },
            _ => self.give(named_error("Could not load lib: ", lib.as_str())),
        }
    }

    fn merge_step(&mut self, includer: usize, seed: Vec<(String, Object)>) -> (a: Action)
        ensures
            (final(self)@, a@) == merge_step(old(self)@, includer as nat, bindings_view(seed@)),
    {
        let own = self.scopes.iter(self.store);
        self.extended_function_store(includer, seed);
        let scope = self.store;
        self.bind_all(scope, own);
        Action::Continue
    }

    /// Performs a task that has been taken off the stack.
    fn perform(&mut self, task: Task) -> (a: Action)
        ensures
            (final(self)@, a@) == perform(old(self)@, task@),
    {
        match task {
            Task::Program(rest) => self.program_step(rest),
            Task::Block(rest) => self.eval_block_statement(rest),
            Task::Statement(s) => self.eval_statement(s),
            Task::Expr(e) => self.eval_expr(e),
            Task::ReturnValue => self.return_step(),
            Task::Bind(n) => self.bind_step(n),
            Task::Reassign(n) => self.reassign_step(n),
            Task::PrefixApply(op) => self.prefix_step(op),
            Task::InfixRight(op, r) => self.infix_right_step(op, r),
            Task::InfixApply(op, l) => self.infix_apply_step(op, l),
            Task::Branch(c, alt) => self.branch_step(c, alt),
            Task::Arguments(f, rest, values) => self.arguments_step(f, rest, values),
            Task::Callee(args) => self.apply_function(args),
            Task::Leave(saved) => self.leave_step(saved),
            Task::IndexRight(i) => self.index_right_step(i),
            Task::IndexApply(o) => self.index_apply_step(o),
            Task::TypeofApply => self.eval_typeof_expr(),
            Task::Repeat(body) => self.repeat_step(body),
            Task::Elements(rest, values) => self.elements_step(rest, values),
            Task::EntryKey(v, rest, map) => self.entry_key_step(v, rest, map),
            Task::EntryValue(k, rest, map) => self.entry_value_step(k, rest, map),
            Task::Source(lib) => self.load_meow(lib),
            Task::Merge(includer, seed) => self.merge_step(includer, seed),
        }
    }

    /// Takes one step: performs the top task, or says that the program has
    /// ended where no task is left.
    pub fn step(&mut self) -> (a: Action)
        ensures
            (final(self)@, a@) == step(old(self)@),
    {
        match self.tasks.pop() {
            None => Action::Done(self.value.take()),
            Some(task) => {
                proof {
                    assert(tasks_view(self.tasks@) =~= tasks_view(old(self).tasks@).drop_last());
                }
                self.perform(task)
            },
        }
    }

    /// Takes up to `budget` steps, as long as there is more to do.
    pub fn run(&mut self, budget: usize) -> (a: Action)
        ensures
            (final(self)@, a@) == run(old(self)@, budget as nat),
    {
        let mut left = budget;
        while left > 0
            invariant
                run(self@, left as nat) == run(old(self)@, budget as nat),
            decreases left,
        {
            let a = self.step();
            match a {
                Action::Continue => {},
                other => {
                    return other;
                },
            }
            left -= 1;
        }
        Action::Continue
    }

    /// Runs a program for up to `budget` steps.
    pub fn eval(&mut self, program: Program, budget: usize) -> (a: Action)
        ensures
            (final(self)@, a@) == run(loaded(old(self)@, program@), budget as nat),
    {
        self.load(program);
        self.run(budget)
    }

    /// Goes on for up to `budget` steps with the answer to what the machine
    /// asked for.
    pub fn resume(&mut self, answer: Object, budget: usize) -> (a: Action)
        ensures
            (final(self)@, a@) == run(old(self)@.with_value(Some(answer@)), budget as nat),
    {
        self.answer(answer);
        self.run(budget)
    }
}

} // verus!
