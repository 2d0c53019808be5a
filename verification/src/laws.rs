//! What holds of the language, whatever the program: laws on scopes, on
//! indexing, on maps and on the signals that cut evaluation short.

use crate::ast::{ExprView, Infix, LiteralView, StatementView};
use crate::evaluation::{
    ident_value,
    arity_error, bind_list, block_step, callee_step, in_new_scope, infix_right_step, is_error,
    repeat_step, run, step, EvalView, TaskView,
};
use crate::number::{
    contains_text, decimal, digit_char, digit_value, digits_value, fraction_part, has_nonzero_digit,
    is_digit, is_negative, lemma_digits_len, magnitude, negated, occurs_at, same_number,
    whole_digits,
};
use crate::object::{find_key, inserted, lemma_find_key, lookup, same_object, ObjectView};
use crate::operators::array_index_result;
use crate::store::{
    bound, enclosed, find_name, local_value, reassigned, resolve, with_binding, ScopeView,
};
use crate::ast::Precedence;
use crate::grammar::{
    infix_of, parse_expr, parse_grouped_expr, parse_infix_expr, parse_operators, parse_primary,
    precedence_rank, token_precedence, Cursor,
};
use crate::token::TokenView;
use vstd::prelude::*;

verus! {

/// The innermost scope, from `scope` outwards, that binds `name`.
pub open spec fn binder(scopes: Seq<ScopeView>, scope: nat, name: Seq<char>) -> Option<nat>
    decreases scope,
{
    if scope >= scopes.len() {
        None
    } else if local_value(scopes[scope as int].bindings, name).is_some() {
        Some(scope)
    } else {
        match scopes[scope as int].outer {
            Some(o) => if o < scope {
                binder(scopes, o, name)
            } else {
                None
            },
            None => None,
        }
    }
}

/// The value that the last of the first `n` bindings of `name` gives it.
pub open spec fn last_bound(bindings: Seq<(Seq<char>, ObjectView)>, name: Seq<char>, n: nat) -> Option<
    ObjectView,
>
    decreases n,
{
    if n == 0 || n > bindings.len() {
        None
    } else if bindings[n - 1].0 == name {
        Some(bindings[n - 1].1)
    } else {
        last_bound(bindings, name, (n - 1) as nat)
    }
}

/// A found position lies in the bindings and holds the name; without one,
/// no binding holds the name.
pub proof fn lemma_find_name(bindings: Seq<(Seq<char>, ObjectView)>, name: Seq<char>, from: nat)
    ensures
        match find_name(bindings, name, from) {
            Some(i) => from <= i < bindings.len() && bindings[i as int].0 == name && forall|k: int|
                from <= k < i ==> (#[trigger] bindings[k]).0 != name,
            None => forall|k: int|
                from <= k < bindings.len() ==> (#[trigger] bindings[k]).0 != name,
        },
    decreases bindings.len() - from,
{
    if from < bindings.len() && bindings[from as int].0 != name {
        lemma_find_name(bindings, name, from + 1);
    }
}

/// The first binding of a name is found where the names before it differ
/// and the name stands.
pub proof fn lemma_find_name_at(
    bindings: Seq<(Seq<char>, ObjectView)>,
    name: Seq<char>,
    from: nat,
    at: nat,
)
    requires
        from <= at < bindings.len(),
        bindings[at as int].0 == name,
        forall|k: int| from <= k < at ==> (#[trigger] bindings[k]).0 != name,
    ensures
        find_name(bindings, name, from) == Some(at),
    decreases at - from,
{
    if from < at {
        lemma_find_name_at(bindings, name, from + 1, at);
    }
}

/// A name that no binding holds is not found.
pub proof fn lemma_find_name_none(
    bindings: Seq<(Seq<char>, ObjectView)>,
    name: Seq<char>,
    from: nat,
)
    requires
        forall|k: int| from <= k < bindings.len() ==> (#[trigger] bindings[k]).0 != name,
    ensures
        find_name(bindings, name, from).is_none(),
    decreases bindings.len() - from,
{
    if from < bindings.len() {
        lemma_find_name_none(bindings, name, from + 1);
    }
}

/// After a name is bound in a list of bindings, the list gives it the new
/// value, and every other name the value it had.
pub proof fn lemma_bound(
    bindings: Seq<(Seq<char>, ObjectView)>,
    name: Seq<char>,
    value: ObjectView,
    other: Seq<char>,
)
    ensures
        local_value(bound(bindings, name, value), other) == if other == name {
            Some(value)
        } else {
            local_value(bindings, other)
        },
{
    lemma_find_name(bindings, name, 0);
    lemma_find_name(bindings, other, 0);
    let after = bound(bindings, name, value);
    match find_name(bindings, name, 0) {
        Some(i) => {
            if other == name {
                lemma_find_name_at(after, other, 0, i);
            } else {
                match find_name(bindings, other, 0) {
                    Some(j) => {
                        lemma_find_name_at(after, other, 0, j);
                    },
                    None => {
                        lemma_find_name_none(after, other, 0);
                    },
                }
            }
        },
        None => {
            if other == name {
                lemma_find_name_at(after, other, 0, bindings.len());
            } else {
                match find_name(bindings, other, 0) {
                    Some(j) => {
                        lemma_find_name_at(after, other, 0, j);
                    },
                    None => {
                        lemma_find_name_none(after, other, 0);
                    },
                }
            }
        },
    }
}

/// A name has the value that its innermost binder gives it.
pub proof fn lemma_resolve_by_binder(scopes: Seq<ScopeView>, scope: nat, name: Seq<char>)
    ensures
        match binder(scopes, scope, name) {
            Some(b) => b <= scope && b < scopes.len() && local_value(
                scopes[b as int].bindings,
                name,
            ).is_some() && resolve(scopes, scope, name) == local_value(
                scopes[b as int].bindings,
                name,
            ),
            None => resolve(scopes, scope, name).is_none(),
        },
    decreases scope,
{
    if scope < scopes.len() && local_value(scopes[scope as int].bindings, name).is_none() {
        match scopes[scope as int].outer {
            Some(o) => {
                if o < scope {
                    lemma_resolve_by_binder(scopes, o, name);
                }
            },
            None => {},
        }
    }
}

/// Assigning to a name binds it in its innermost binder, and changes nothing
/// where the name has none.
pub proof fn lemma_reassigned_by_binder(
    scopes: Seq<ScopeView>,
    scope: nat,
    name: Seq<char>,
    value: ObjectView,
)
    ensures
        reassigned(scopes, scope, name, value) == match binder(scopes, scope, name) {
            Some(b) => with_binding(scopes, b, name, value),
            None => scopes,
        },
    decreases scope,
{
    if scope < scopes.len() && local_value(scopes[scope as int].bindings, name).is_none() {
        match scopes[scope as int].outer {
            Some(o) => {
                if o < scope {
                    lemma_reassigned_by_binder(scopes, o, name, value);
                }
            },
            None => {},
        }
    }
}

/// Binding a name anew in a scope that binds it already leaves every name
/// with the binder it had.
pub proof fn lemma_binder_kept(
    scopes: Seq<ScopeView>,
    at: nat,
    name: Seq<char>,
    value: ObjectView,
    scope: nat,
    other: Seq<char>,
)
    requires
        at < scopes.len(),
        local_value(scopes[at as int].bindings, name).is_some(),
    ensures
        binder(with_binding(scopes, at, name, value), scope, other) == binder(
            scopes,
            scope,
            other,
        ),
    decreases scope,
{
    let after = with_binding(scopes, at, name, value);
    lemma_bound(scopes[at as int].bindings, name, value, other);
    if scope < scopes.len() {
        match scopes[scope as int].outer {
            Some(o) => {
                if o < scope {
                    lemma_binder_kept(scopes, at, name, value, o, other);
                }
            },
            None => {},
        }
    }
}

/// Closures share what they capture: when two scopes see a name through the
/// same binder, a value assigned to the name from one of them is the value
/// that the other one sees.
pub proof fn law_assignment_is_shared(
    scopes: Seq<ScopeView>,
    first: nat,
    second: nat,
    name: Seq<char>,
    value: ObjectView,
)
    requires
        binder(scopes, first, name).is_some(),
        binder(scopes, first, name) == binder(scopes, second, name),
    ensures
        resolve(reassigned(scopes, first, name, value), second, name) == Some(value),
{
    let b = binder(scopes, first, name).unwrap();
    lemma_resolve_by_binder(scopes, first, name);
    lemma_reassigned_by_binder(scopes, first, name, value);
    let after = with_binding(scopes, b, name, value);
    lemma_binder_kept(scopes, b, name, value, second, name);
    lemma_resolve_by_binder(after, second, name);
    lemma_bound(scopes[b as int].bindings, name, value, name);
}

/// Scopes that agree up to `scope` give every name the same value there.
pub proof fn lemma_resolve_agrees(
    a: Seq<ScopeView>,
    b: Seq<ScopeView>,
    scope: nat,
    name: Seq<char>,
)
    requires
        scope < a.len(),
        scope < b.len(),
        forall|i: int| 0 <= i <= scope ==> a[i] == b[i],
    ensures
        resolve(a, scope, name) == resolve(b, scope, name),
    decreases scope,
{
    if local_value(a[scope as int].bindings, name).is_none() {
        match a[scope as int].outer {
            Some(o) => {
                if o < scope {
                    lemma_resolve_agrees(a, b, o, name);
                }
            },
            None => {},
        }
    }
}

/// Binding shadows: a name bound in a scope leaves every name as it was in
/// the scopes that were there before it, the enclosing ones among them.
pub proof fn law_binding_shadows(
    scopes: Seq<ScopeView>,
    inner: nat,
    name: Seq<char>,
    value: ObjectView,
    outer: nat,
    other: Seq<char>,
)
    requires
        outer < inner,
    ensures
        resolve(with_binding(scopes, inner, name, value), outer, other) == resolve(
            scopes,
            outer,
            other,
        ),
        inner < scopes.len() ==> resolve(with_binding(scopes, inner, name, value), inner, name)
            == Some(value),
{
    if inner < scopes.len() {
        lemma_resolve_agrees(with_binding(scopes, inner, name, value), scopes, outer, other);
        lemma_bound(scopes[inner as int].bindings, name, value, name);
    }
}

/// Assignment reaches outwards: a value assigned, from a scope, to a name
/// that an enclosing scope binds is the value of the name in that scope.
pub proof fn law_assignment_reaches_outwards(
    scopes: Seq<ScopeView>,
    inner: nat,
    name: Seq<char>,
    value: ObjectView,
)
    requires
        binder(scopes, inner, name).is_some(),
    ensures
        resolve(
            reassigned(scopes, inner, name, value),
            binder(scopes, inner, name).unwrap(),
            name,
        ) == Some(value),
{
    let b = binder(scopes, inner, name).unwrap();
    lemma_resolve_by_binder(scopes, inner, name);
    law_assignment_is_shared(scopes, inner, b, name, value);
}

/// Binding in the newest scope leaves the scopes before it, and the outer
/// scope of the newest one, as they are.
pub proof fn lemma_bind_list_frame(
    scopes: Seq<ScopeView>,
    bindings: Seq<(Seq<char>, ObjectView)>,
    n: nat,
)
    requires
        scopes.len() > 0,
        n <= bindings.len(),
    ensures
        bind_list(scopes, (scopes.len() - 1) as nat, bindings, n).len() == scopes.len(),
        forall|i: int|
            0 <= i < scopes.len() - 1 ==> bind_list(
                scopes,
                (scopes.len() - 1) as nat,
                bindings,
                n,
            )[i] == scopes[i],
        bind_list(scopes, (scopes.len() - 1) as nat, bindings, n).last().outer
            == scopes.last().outer,
        forall|name: Seq<char>|
            local_value(scopes.last().bindings, name).is_none() ==> local_value(
                bind_list(scopes, (scopes.len() - 1) as nat, bindings, n).last().bindings,
                name,
            ) == last_bound(bindings, name, n),
    decreases n,
{
    let top = (scopes.len() - 1) as nat;
    if n > 0 {
        lemma_bind_list_frame(scopes, bindings, (n - 1) as nat);
        let before = bind_list(scopes, top, bindings, (n - 1) as nat);
        let after = bind_list(scopes, top, bindings, n);
        assert(after == with_binding(before, top, bindings[n - 1].0, bindings[n - 1].1));
        assert(before.last() == before[top as int]);
        assert(after.last() == after[top as int]);
        assert(after.last().bindings == bound(
            before[top as int].bindings,
            bindings[n - 1].0,
            bindings[n - 1].1,
        ));
        assert forall|name: Seq<char>|
            local_value(scopes.last().bindings, name).is_none() implies local_value(
            after.last().bindings,
            name,
        ) == last_bound(bindings, name, n) by {
            lemma_bound(before[top as int].bindings, bindings[n - 1].0, bindings[n - 1].1, name);
            assert(local_value(before.last().bindings, name) == last_bound(
                bindings,
                name,
                (n - 1) as nat,
            ));
        }
    }
}

/// A library lies on top of the program that asked for it: in the new scope
/// the names that the library binds have the library's values and all other
/// names the values of the includer; in the scopes that were there before,
/// every name has the value it had.
pub proof fn law_library_lies_on_top(
    m: EvalView,
    includer: nat,
    bindings: Seq<(Seq<char>, ObjectView)>,
    earlier: nat,
    name: Seq<char>,
)
    requires
        includer < m.scopes.len(),
        earlier < m.scopes.len(),
    ensures
        resolve(in_new_scope(m, includer, bindings).scopes, earlier, name) == resolve(
            m.scopes,
            earlier,
            name,
        ),
        resolve(
            in_new_scope(m, includer, bindings).scopes,
            in_new_scope(m, includer, bindings).store,
            name,
        ) == match last_bound(bindings, name, bindings.len()) {
            Some(v) => Some(v),
            None => resolve(m.scopes, includer, name),
        },
{
    let opened = enclosed(m.scopes, includer);
    let after = in_new_scope(m, includer, bindings).scopes;
    let top = m.scopes.len();
    lemma_bind_list_frame(opened, bindings, bindings.len());
    assert(after == bind_list(opened, top, bindings, bindings.len()));
    assert forall|i: int| 0 <= i < m.scopes.len() implies after[i] == m.scopes[i] by {
        assert(opened[i] == m.scopes[i]);
    }
    lemma_resolve_agrees(after, m.scopes, earlier, name);
    lemma_resolve_agrees(after, m.scopes, includer, name);
    assert(local_value(opened.last().bindings, name).is_none());
    assert(after[top as int] == after.last());
}

/// The digit for a value below ten has that value.
pub proof fn lemma_digit_char(d: nat)
    requires
        d < 10,
    ensures
        is_digit(digit_char(d)),
        digit_value(digit_char(d)) == d,
{
}

/// The decimal numeral of a number consists of digits, as many as it is
/// long, and has the number as its value.
pub proof fn lemma_decimal(n: nat)
    ensures
        decimal(n).len() > 0,
        forall|i: int| 0 <= i < decimal(n).len() ==> is_digit(#[trigger] decimal(n)[i]),
        digits_value(decimal(n)) == n,
    decreases n,
{
    if n >= 10 {
        lemma_decimal(n / 10);
        lemma_digit_char(n % 10);
        assert(decimal(n).drop_last() =~= decimal(n / 10));
        assert(decimal(n).last() == digit_char(n % 10));
    } else {
        lemma_digit_char(n);
        assert(decimal(n).drop_last() =~= Seq::<char>::empty());
        assert(decimal(n).last() == digit_char(n));
        assert(digits_value(Seq::<char>::empty()) == 0);
    }
}

/// Indexing from the back: in an array that is not empty, the index `-1`
/// selects the last item.
pub proof fn law_index_minus_one(items: Seq<ObjectView>)
    requires
        items.len() > 0,
    ensures
        array_index_result(items, "-1"@) == items.last(),
{
    reveal_strlit("-1");
    reveal_strlit("inf");
    let s = "-1"@;
    assert(s.len() == 2 && s[0] == '-' && s[1] == '1');
    let m = magnitude(s);
    assert(m =~= seq!['1']);
    lemma_digits_len(m, 1);
    assert(whole_digits(s) =~= seq!['1']);
    assert(whole_digits(s).drop_last() =~= Seq::<char>::empty());
    assert(digits_value(whole_digits(s)) == 1) by {
        reveal_with_fuel(digits_value, 2);
    }
    assert(fraction_part(s) =~= Seq::<char>::empty());
    assert(!has_nonzero_digit(fraction_part(s)));
    assert("inf"@.len() == 3);
}

/// Indexing past the end: the index that is the length of an array selects
/// nothing, and the result is `Null`, not an error.
pub proof fn law_index_at_length(items: Seq<ObjectView>)
    ensures
        array_index_result(items, decimal(items.len())) == ObjectView::Null,
{
    reveal_strlit("inf");
    let n = items.len();
    let s = decimal(n);
    lemma_decimal(n);
    assert("inf"@[0] == 'i');
    assert(is_digit(s[0]));
    assert(s != "inf"@);
    assert(!is_negative(s));
    assert(magnitude(s) == s);
    lemma_digits_len(s, s.len());
    assert(whole_digits(s) =~= s);
}

/// A key that equals itself is found where the keys before it differ from
/// it.
pub proof fn lemma_find_key_at(
    entries: Seq<(ObjectView, ObjectView)>,
    key: ObjectView,
    from: nat,
    at: nat,
)
    requires
        from <= at < entries.len(),
        same_object(key, entries[at as int].0),
        forall|k: int| from <= k < at ==> !same_object(key, (#[trigger] entries[k]).0),
    ensures
        find_key(entries, key, from) == Some(at),
    decreases at - from,
{
    if from < at {
        lemma_find_key_at(entries, key, from + 1, at);
    }
}

/// A map gives back what was put into it: after a value is put for a key
/// that equals itself, the map holds that value for the key.
pub proof fn law_map_round_trip(
    entries: Seq<(ObjectView, ObjectView)>,
    key: ObjectView,
    value: ObjectView,
)
    requires
        same_object(key, key),
    ensures
        lookup(inserted(entries, key, value), key) == Some(value),
{
    lemma_find_key(entries, key, 0);
    let after = inserted(entries, key, value);
    match find_key(entries, key, 0) {
        Some(i) => {
            lemma_find_key_at(after, key, 0, i);
        },
        None => {
            lemma_find_key_at(after, key, 0, entries.len());
        },
    }
}

/// A call with the wrong number of arguments is an error whose text reports
/// how many were expected and how many were given.
pub proof fn law_arity_is_enforced(
    m: EvalView,
    params: Seq<Seq<char>>,
    body: Seq<StatementView>,
    scope: nat,
    args: Seq<ObjectView>,
)
    requires
        m.value == Some(ObjectView::Fn(params, body, scope)),
        params.len() != args.len(),
    ensures
        callee_step(m, args) == m.give(arity_error(params.len(), args.len())),
        arity_error(params.len(), args.len()) is Error,
        contains_text(arity_error(params.len(), args.len())->Error_0, decimal(params.len())),
        contains_text(arity_error(params.len(), args.len())->Error_0, decimal(args.len())),
{
    let expected = decimal(params.len());
    let given = decimal(args.len());
    let head = "expected arguments: "@;
    let middle = "\ngiven arguments: "@;
    let text = head + expected + middle + given;
    assert(text.subrange(head.len() as int, (head.len() + expected.len()) as int) =~= expected);
    assert(occurs_at(text, expected, head.len() as int));
    let at = head.len() + expected.len() + middle.len();
    assert(text.subrange(at as int, (at + given.len()) as int) =~= given);
    assert(occurs_at(text, given, at as int));
}

/// An error on the left of an operator cuts the expression short: the error
/// stays the value, and the right operand is not taken up.
pub proof fn law_error_skips_right_operand(m: EvalView, op: Infix, right: ExprView)
    requires
        is_error(m.value),
    ensures
        infix_right_step(m, op, right) == m.go(),
{
}

/// `break` ends a loop, and the loop has the value `Null`.
pub proof fn law_break_ends_loop(m: EvalView, body: Seq<StatementView>)
    requires
        m.value == Some(ObjectView::Break),
    ensures
        repeat_step(m, body) == m.give(ObjectView::Null),
{
}

/// `continue` does not end a loop: the body is run again.
pub proof fn law_continue_repeats(m: EvalView, body: Seq<StatementView>)
    requires
        m.value == Some(ObjectView::Continue),
    ensures
        repeat_step(m, body) == m.with_value(None).push(TaskView::Repeat(body)).push(
            TaskView::Block(body),
        ).go(),
{
}

/// `break` and `continue` skip what is left of a block: no statement of it
/// is taken up, and the signal stays the value.
pub proof fn law_signal_skips_rest_of_block(m: EvalView, rest: Seq<StatementView>)
    requires
        m.value == Some(ObjectView::Break) || m.value == Some(ObjectView::Continue),
    ensures
        block_step(m, rest) == m.go(),
{
}

/// The budget does not change what is computed: a run of `a + b` steps is a
/// run of `a` steps and, if there is more to do then, a run of `b` steps
/// from where the first run stopped.
pub proof fn law_budget_splits(m: EvalView, a: nat, b: nat)
    ensures
        run(m, a + b) == if run(m, a).1 is Continue {
            run(run(m, a).0, b)
        } else {
            run(m, a)
        },
    decreases a,
{
    if a > 0 {
        let (next, action) = step(m);
        if action is Continue {
            law_budget_splits(next, (a - 1) as nat, b);
            assert(a + b - 1 == (a - 1) + b);
        }
    }
}

/// Negating a number twice gives the number back. This holds of every
/// numeral with at most one sign, where the sign does not stand before `NaN`.
pub proof fn law_double_negation(s: Seq<char>)
    requires
        is_negative(s) ==> !is_negative(s.drop_first()) && s.drop_first() != "NaN"@,
    ensures
        negated(negated(s)) == s,
{
    reveal_strlit("NaN");
    if s == "NaN"@ {
    } else if is_negative(s) {
        assert(seq!['-'] + s.drop_first() =~= s);
    } else {
        assert((seq!['-'] + s).drop_first() =~= s);
        assert((seq!['-'] + s)[0] == '-');
        assert("NaN"@[0] == 'N');
    }
}

/// Equality of numbers goes both ways.
pub proof fn law_same_number_is_symmetric(a: Seq<char>, b: Seq<char>)
    ensures
        same_number(a, b) == same_number(b, a),
{
}

/// A loop whose body starts with `break` ends after five steps, with `Null`
/// as its value and with nothing else changed; what stands behind the
/// `break` is never run.
pub proof fn law_loop_with_break_yields_null(m: EvalView, body: Seq<StatementView>)
    requires
        body.len() > 0,
        body[0] == StatementView::Break,
    ensures
        run(m.push(TaskView::Expr(ExprView::Loop { body })), 5) == m.give(ObjectView::Null),
{
    reveal_with_fuel(run, 6);
    let m0 = m.push(TaskView::Expr(ExprView::Loop { body }));
    assert(m0.tasks.drop_last() =~= m.tasks);
    let m1 = step(m0).0;
    assert(m1 == m.with_value(None).push(TaskView::Repeat(body)).push(TaskView::Block(body)));
    assert(m1.tasks.drop_last() =~= m.tasks.push(TaskView::Repeat(body)));
    let m2 = step(m1).0;
    assert(m2 == m.with_value(None).push(TaskView::Repeat(body)).push(
        TaskView::Block(body.drop_first()),
    ).push(TaskView::Statement(StatementView::Break)));
    assert(m2.tasks.drop_last() =~= m.tasks.push(TaskView::Repeat(body)).push(
        TaskView::Block(body.drop_first()),
    ));
    let m3 = step(m2).0;
    assert(m3 == m.with_value(Some(ObjectView::Break)).push(TaskView::Repeat(body)).push(
        TaskView::Block(body.drop_first()),
    ));
    assert(m3.tasks.drop_last() =~= m.tasks.push(TaskView::Repeat(body)));
    let m4 = step(m3).0;
    assert(m4 == m.with_value(Some(ObjectView::Break)).push(TaskView::Repeat(body)));
    assert(m4.tasks.drop_last() =~= m.tasks);
    let m5 = step(m4).0;
    assert(m5 == m.with_value(Some(ObjectView::Null)));
}

/// The sum of two texts is computed in five steps: its value is the two
/// texts joined, and nothing else has changed.
pub proof fn law_texts_are_joined(m: EvalView, left: Seq<char>, right: Seq<char>)
    ensures
        run(
            m.push(
                TaskView::Expr(
                    ExprView::Infix(
                        Infix::Plus,
                        Box::new(ExprView::Literal(LiteralView::String(left))),
                        Box::new(ExprView::Literal(LiteralView::String(right))),
                    ),
                ),
            ),
            5,
        ) == m.give(ObjectView::String(left + right)),
{
    reveal_with_fuel(run, 6);
    let l = ExprView::Literal(LiteralView::String(left));
    let r = ExprView::Literal(LiteralView::String(right));
    let m0 = m.push(TaskView::Expr(ExprView::Infix(Infix::Plus, Box::new(l), Box::new(r))));
    assert(m0.tasks.drop_last() =~= m.tasks);
    let m1 = step(m0).0;
    assert(m1 == m.push(TaskView::InfixRight(Infix::Plus, r)).push(TaskView::Expr(l)));
    assert(m1.tasks.drop_last() =~= m.tasks.push(TaskView::InfixRight(Infix::Plus, r)));
    let m2 = step(m1).0;
    assert(m2 == m.with_value(Some(ObjectView::String(left))).push(
        TaskView::InfixRight(Infix::Plus, r),
    ));
    assert(m2.tasks.drop_last() =~= m.tasks);
    let m3 = step(m2).0;
    assert(m3 == m.with_value(None).push(
        TaskView::InfixApply(Infix::Plus, Some(ObjectView::String(left))),
    ).push(TaskView::Expr(r)));
    assert(m3.tasks.drop_last() =~= m.tasks.push(
        TaskView::InfixApply(Infix::Plus, Some(ObjectView::String(left))),
    ));
    let m4 = step(m3).0;
    assert(m4 == m.with_value(Some(ObjectView::String(right))).push(
        TaskView::InfixApply(Infix::Plus, Some(ObjectView::String(left))),
    ));
    assert(m4.tasks.drop_last() =~= m.tasks);
    let m5 = step(m4).0;
    assert(m5 == m.with_value(Some(ObjectView::String(left + right))));
}

/// An operator whose left operand is a name with an error for its value,
/// such as a name that nothing binds, is done after three steps: the error
/// is the value, nothing else has changed, and the right operand, whatever
/// it is, has not been taken up.
pub proof fn law_error_on_the_left_ends_expression(
    m: EvalView,
    op: Infix,
    name: Seq<char>,
    right: ExprView,
)
    requires
        ident_value(m, name) is Error,
    ensures
        run(
            m.push(
                TaskView::Expr(
                    ExprView::Infix(op, Box::new(ExprView::Ident(name)), Box::new(right)),
                ),
            ),
            3,
        ) == m.give(ident_value(m, name)),
{
    reveal_with_fuel(run, 4);
    let l = ExprView::Ident(name);
    let m0 = m.push(TaskView::Expr(ExprView::Infix(op, Box::new(l), Box::new(right))));
    assert(m0.tasks.drop_last() =~= m.tasks);
    let m1 = step(m0).0;
    assert(m1 == m.push(TaskView::InfixRight(op, right)).push(TaskView::Expr(l)));
    assert(m1.tasks.drop_last() =~= m.tasks.push(TaskView::InfixRight(op, right)));
    let m2 = step(m1).0;
    let before = m.push(TaskView::InfixRight(op, right));
    assert(ident_value(before, name) == ident_value(m, name));
    assert(m2 == m.with_value(Some(ident_value(m, name))).push(TaskView::InfixRight(op, right)));
    assert(m2.tasks.drop_last() =~= m.tasks);
    let m3 = step(m2).0;
    assert(m3 == m.with_value(Some(ident_value(m, name))));
}

/// Operators climb by precedence: of three names with two binary operators
/// between them, the operator that binds more tightly takes its operands
/// first; where the second binds no more tightly than the first, the first
/// takes its operands first, so that operators of one level group from the
/// left.
pub proof fn law_operators_climb_by_precedence(
    a: Seq<char>,
    first: TokenView,
    b: Seq<char>,
    second: TokenView,
    c: Seq<char>,
)
    requires
        infix_of(first).is_some(),
        infix_of(second).is_some(),
    ensures
        parse_expr(
            seq![TokenView::Ident(a), first, TokenView::Ident(b), second, TokenView::Ident(c)],
            Cursor { position: 0, errors: Seq::empty() },
            Precedence::Lowest,
        ) == (
            Some(
                if precedence_rank(token_precedence(first)) < precedence_rank(
                    token_precedence(second),
                ) {
                    ExprView::Infix(
                        infix_of(first).unwrap(),
                        Box::new(ExprView::Ident(a)),
                        Box::new(
                            ExprView::Infix(
                                infix_of(second).unwrap(),
                                Box::new(ExprView::Ident(b)),
                                Box::new(ExprView::Ident(c)),
                            ),
                        ),
                    )
                } else {
                    ExprView::Infix(
                        infix_of(second).unwrap(),
                        Box::new(
                            ExprView::Infix(
                                infix_of(first).unwrap(),
                                Box::new(ExprView::Ident(a)),
                                Box::new(ExprView::Ident(b)),
                            ),
                        ),
                        Box::new(ExprView::Ident(c)),
                    )
                },
            ),
            Cursor { position: 4, errors: Seq::empty() },
        ),
{
    let ts = seq![TokenView::Ident(a), first, TokenView::Ident(b), second, TokenView::Ident(c)];
    let e = Seq::<Seq<char>>::empty();
    let at = |p: nat| Cursor { position: p, errors: e };
    let (ia, ib, ic) = (ExprView::Ident(a), ExprView::Ident(b), ExprView::Ident(c));
    let first_operator = infix_of(first).unwrap();
    let second_operator = infix_of(second).unwrap();
    let first_level = token_precedence(first);
    let second_level = token_precedence(second);
    assert(precedence_rank(first_level) > 0 && precedence_rank(second_level) > 0);
    assert(first != TokenView::Semicolon && first != TokenView::LeftParen && first
        != TokenView::LeftBracket);
    assert(second != TokenView::Semicolon && second != TokenView::LeftParen && second
        != TokenView::LeftBracket);
    // The last operand, with nothing behind it.
    assert(parse_primary(ts, at(4)) == (Some(ic), at(4)));
    assert(parse_operators(ts, at(4), second_level, ic) == (Some(ic), at(4)));
    assert(parse_expr(ts, at(4), second_level) == (Some(ic), at(4)));
    assert(parse_primary(ts, at(2)) == (Some(ib), at(2)));
    assert(parse_primary(ts, at(0)) == (Some(ia), at(0)));
    if precedence_rank(first_level) < precedence_rank(second_level) {
        let inner = ExprView::Infix(second_operator, Box::new(ib), Box::new(ic));
        let outer = ExprView::Infix(first_operator, Box::new(ia), Box::new(inner));
        assert(parse_infix_expr(ts, at(3), ib) == (Some(inner), at(4)));
        assert(parse_operators(ts, at(4), first_level, inner) == (Some(inner), at(4)));
        assert(parse_operators(ts, at(2), first_level, ib) == (Some(inner), at(4)));
        assert(parse_expr(ts, at(2), first_level) == (Some(inner), at(4)));
        assert(parse_infix_expr(ts, at(1), ia) == (Some(outer), at(4)));
        assert(parse_operators(ts, at(4), Precedence::Lowest, outer) == (Some(outer), at(4)));
        assert(parse_operators(ts, at(0), Precedence::Lowest, ia) == (Some(outer), at(4)));
    } else {
        let inner = ExprView::Infix(first_operator, Box::new(ia), Box::new(ib));
        let outer = ExprView::Infix(second_operator, Box::new(inner), Box::new(ic));
        assert(parse_operators(ts, at(2), first_level, ib) == (Some(ib), at(2)));
        assert(parse_expr(ts, at(2), first_level) == (Some(ib), at(2)));
        assert(parse_infix_expr(ts, at(1), ia) == (Some(inner), at(2)));
        assert(parse_infix_expr(ts, at(3), inner) == (Some(outer), at(4)));
        assert(parse_operators(ts, at(4), Precedence::Lowest, outer) == (Some(outer), at(4)));
        assert(parse_operators(ts, at(2), Precedence::Lowest, inner) == (Some(outer), at(4)));
        assert(parse_operators(ts, at(0), Precedence::Lowest, ia) == (Some(outer), at(4)));
    }
}

/// Parentheses group: a sum in parentheses, multiplied by a name, is added
/// up first.
pub proof fn law_parentheses_group(a: Seq<char>, b: Seq<char>, c: Seq<char>)
    ensures
        parse_expr(
            seq![
                TokenView::LeftParen,
                TokenView::Ident(a),
                TokenView::Plus,
                TokenView::Ident(b),
                TokenView::RightParen,
                TokenView::Asterisk,
                TokenView::Ident(c),
            ],
            Cursor { position: 0, errors: Seq::empty() },
            Precedence::Lowest,
        ) == (
            Some(
                ExprView::Infix(
                    Infix::Times,
                    Box::new(
                        ExprView::Infix(
                            Infix::Plus,
                            Box::new(ExprView::Ident(a)),
                            Box::new(ExprView::Ident(b)),
                        ),
                    ),
                    Box::new(ExprView::Ident(c)),
                ),
            ),
            Cursor { position: 6, errors: Seq::empty() },
        ),
{
    let ts = seq![
        TokenView::LeftParen,
        TokenView::Ident(a),
        TokenView::Plus,
        TokenView::Ident(b),
        TokenView::RightParen,
        TokenView::Asterisk,
        TokenView::Ident(c),
    ];
    let e = Seq::<Seq<char>>::empty();
    let at = |p: nat| Cursor { position: p, errors: e };
    let (ia, ib, ic) = (ExprView::Ident(a), ExprView::Ident(b), ExprView::Ident(c));
    let sum = ExprView::Infix(Infix::Plus, Box::new(ia), Box::new(ib));
    let product = ExprView::Infix(Infix::Times, Box::new(sum), Box::new(ic));
    // The sum between the parentheses.
    assert(parse_primary(ts, at(3)) == (Some(ib), at(3)));
    assert(parse_operators(ts, at(3), Precedence::Sum, ib) == (Some(ib), at(3)));
    assert(parse_expr(ts, at(3), Precedence::Sum) == (Some(ib), at(3)));
    assert(parse_infix_expr(ts, at(2), ia) == (Some(sum), at(3)));
    assert(parse_operators(ts, at(3), Precedence::Lowest, sum) == (Some(sum), at(3)));
    assert(parse_primary(ts, at(1)) == (Some(ia), at(1)));
    assert(parse_operators(ts, at(1), Precedence::Lowest, ia) == (Some(sum), at(3)));
    assert(parse_expr(ts, at(1), Precedence::Lowest) == (Some(sum), at(3)));
    assert(parse_grouped_expr(ts, at(0)) == (Some(sum), at(4)));
    assert(parse_primary(ts, at(0)) == (Some(sum), at(4)));
    // The product behind them.
    assert(parse_primary(ts, at(6)) == (Some(ic), at(6)));
    assert(parse_operators(ts, at(6), Precedence::Product, ic) == (Some(ic), at(6)));
    assert(parse_expr(ts, at(6), Precedence::Product) == (Some(ic), at(6)));
    assert(parse_infix_expr(ts, at(5), sum) == (Some(product), at(6)));
    assert(parse_operators(ts, at(6), Precedence::Lowest, product) == (Some(product), at(6)));
    assert(parse_operators(ts, at(4), Precedence::Lowest, sum) == (Some(product), at(6)));
}

} // verus!
