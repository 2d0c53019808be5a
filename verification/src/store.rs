//! Scopes: where names are bound to values.
//!
//! A scope holds its own bindings and may name an outer scope. All scopes of
//! a run live in one [`Store`] and are known by their position in it, so that
//! several function values can share a scope and see what the others bind.

use crate::object::{clone_object, opt_object_view, Object, ObjectView};
use crate::token::same_text;
use vstd::prelude::*;

verus! {

/// One scope: its own bindings, oldest first, and its outer scope.
#[derive(Debug, PartialEq)]
pub struct Scope {
    pub bindings: Vec<(String, Object)>,
    pub outer: Option<usize>,
}

/// The scopes of a run.
#[derive(Debug, PartialEq)]
pub struct Store {
    pub scopes: Vec<Scope>,
}

/// The mathematical model of a [`Scope`].
pub struct ScopeView {
    pub bindings: Seq<(Seq<char>, ObjectView)>,
    pub outer: Option<nat>,
}

/// The models of the bindings of a scope, in order.
pub open spec fn bindings_view(v: Seq<(String, Object)>) -> Seq<(Seq<char>, ObjectView)> {
    Seq::new(v.len(), |i: int| (v[i].0@, v[i].1@))
}

impl View for Scope {
    type V = ScopeView;

    open spec fn view(&self) -> ScopeView {
        ScopeView {
            bindings: bindings_view(self.bindings@),
            outer: match self.outer {
                Some(o) => Some(o as nat),
                None => None,
            },
        }
    }
}

impl View for Store {
    type V = Seq<ScopeView>;

    open spec fn view(&self) -> Seq<ScopeView> {
        Seq::new(self.scopes@.len(), |i: int| self.scopes@[i]@)
    }
}

/// The position of the first binding of `name` at or after `from`.
pub open spec fn find_name(bindings: Seq<(Seq<char>, ObjectView)>, name: Seq<char>, from: nat) -> Option<nat>
    decreases bindings.len() - from,
{
    if from >= bindings.len() {
        None
    } else if bindings[from as int].0 == name {
        Some(from)
    } else {
        find_name(bindings, name, from + 1)
    }
}

/// The value that a scope itself binds to `name`.
pub open spec fn local_value(bindings: Seq<(Seq<char>, ObjectView)>, name: Seq<char>) -> Option<ObjectView> {
    match find_name(bindings, name, 0) {
        Some(i) => Some(bindings[i as int].1),
        None => None,
    }
}

/// The bindings with `name` bound to `value`: a binding of the name is
/// replaced where it stands; without one, a new binding is put last.
pub open spec fn bound(
    bindings: Seq<(Seq<char>, ObjectView)>,
    name: Seq<char>,
    value: ObjectView,
) -> Seq<(Seq<char>, ObjectView)> {
    match find_name(bindings, name, 0) {
        Some(i) => bindings.update(i as int, (name, value)),
        None => bindings.push((name, value)),
    }
}

/// The value of `name` as seen from `scope`: that of the innermost scope, from
/// `scope` outwards, that binds the name.
pub open spec fn resolve(scopes: Seq<ScopeView>, scope: nat, name: Seq<char>) -> Option<ObjectView>
    decreases scope,
{
    if scope >= scopes.len() {
        None
    } else {
        match local_value(scopes[scope as int].bindings, name) {
            Some(v) => Some(v),
            None => match scopes[scope as int].outer {
                Some(o) => if o < scope {
                    resolve(scopes, o, name)
                } else {
                    None
                },
                None => None,
            },
        }
    }
}

/// The scopes after `name` is bound to `value` in `scope` itself.
pub open spec fn with_binding(
    scopes: Seq<ScopeView>,
    scope: nat,
    name: Seq<char>,
    value: ObjectView,
) -> Seq<ScopeView> {
    if scope >= scopes.len() {
        scopes
    } else {
        scopes.update(
            scope as int,
            ScopeView {
                bindings: bound(scopes[scope as int].bindings, name, value),
                outer: scopes[scope as int].outer,
            },
        )
    }
}

/// The scopes after `value` is assigned to `name` as seen from `scope`: the
/// innermost scope that binds the name gets the value; where no scope binds
/// it, nothing changes.
pub open spec fn reassigned(
    scopes: Seq<ScopeView>,
    scope: nat,
    name: Seq<char>,
    value: ObjectView,
) -> Seq<ScopeView>
    decreases scope,
{
    if scope >= scopes.len() {
        scopes
    } else if local_value(scopes[scope as int].bindings, name).is_some() {
        with_binding(scopes, scope, name, value)
    } else {
        match scopes[scope as int].outer {
            Some(o) => if o < scope {
                reassigned(scopes, o, name, value)
            } else {
                scopes
            },
            None => scopes,
        }
    }
}

/// The scopes with one more, empty, scope inside `outer`.
pub open spec fn enclosed(scopes: Seq<ScopeView>, outer: nat) -> Seq<ScopeView> {
    scopes.push(ScopeView { bindings: Seq::empty(), outer: Some(outer) })
}

/// The scopes with one more scope that has no outer scope.
pub open spec fn with_root(scopes: Seq<ScopeView>, bindings: Seq<(Seq<char>, ObjectView)>) -> Seq<
    ScopeView,
> {
    scopes.push(ScopeView { bindings, outer: None })
}

/// Assigning to a name that no scope binds changes nothing.
pub proof fn lemma_reassign_unbound(
    scopes: Seq<ScopeView>,
    scope: nat,
    name: Seq<char>,
    value: ObjectView,
)
    requires
        resolve(scopes, scope, name).is_none(),
    ensures
        reassigned(scopes, scope, name, value) == scopes,
    decreases scope,
{
    if scope < scopes.len() {
        match scopes[scope as int].outer {
            Some(o) => {
                if o < scope {
                    lemma_reassign_unbound(scopes, o, name, value);
                }
            },
            None => {},
        }
    }
}

/// The position in a scope of the first binding of `name`.
pub fn position_of_name(bindings: &Vec<(String, Object)>, name: &str) -> (r: Option<usize>)
    ensures
        match r {
            Some(i) => find_name(bindings_view(bindings@), name@, 0) == Some(i as nat) && i
                < bindings.len(),
            None => find_name(bindings_view(bindings@), name@, 0).is_none(),
        },
{
    let mut i: usize = 0;
    while i < bindings.len()
        invariant
            i <= bindings.len(),
            find_name(bindings_view(bindings@), name@, 0) == find_name(
                bindings_view(bindings@),
                name@,
                i as nat,
            ),
        decreases bindings.len() - i,
    {
        if same_text(bindings[i].0.as_str(), name) {
            return Some(i);
        }
        i += 1;
    }
    None
}

/// Binds `name` to `value` in a list of bindings.
pub fn bind(bindings: Vec<(String, Object)>, name: String, value: Object) -> (r: Vec<
    (String, Object),
>)
    ensures
        bindings_view(r@) == bound(bindings_view(bindings@), name@, value@),
{
    let mut bindings = bindings;
    let ghost before = bindings@;
    match position_of_name(&bindings, name.as_str()) {
        Some(i) => {
            bindings.set(i, (name, value));
            proof {
                assert(bindings_view(bindings@) =~= bindings_view(before).update(
                    i as int,
                    (name@, value@),
                ));
            }
        },
        None => {
            bindings.push((name, value));
            proof {
                assert(bindings_view(bindings@) =~= bindings_view(before).push(
                    (name@, value@),
                ));
            }
        },
    }
    bindings
}

/// Copies a list of bindings.
pub fn clone_bindings(v: &Vec<(String, Object)>) -> (r: Vec<(String, Object)>)
    ensures
        bindings_view(r@) == bindings_view(v@),
{
    let mut out: Vec<(String, Object)> = Vec::new();
    let mut i: usize = 0;
    while i < v.len()
        invariant
            i <= v.len(),
            out@.len() == i,
            forall|k: int| 0 <= k < i ==> out@[k].0@ == v@[k].0@ && out@[k].1@ == v@[k].1@,
        decreases v.len() - i,
    {
        let name = v[i].0.clone();
        let value = clone_object(&v[i].1);
        out.push((name, value));
        i += 1;
    }
    assert(bindings_view(out@) =~= bindings_view(v@));
    out
}

impl Store {
    /// A store with one scope, which is empty and has no outer scope.
    pub fn new() -> (r: Store)
        ensures
            r@ == seq![ScopeView { bindings: Seq::empty(), outer: None }],
    {
        let bindings: Vec<(String, Object)> = Vec::new();
        proof {
            assert(bindings_view(bindings@) =~= Seq::empty());
        }
        Self::from(bindings)
    }

    /// A store with one scope, which holds `bindings` and has no outer scope.
    pub fn from(bindings: Vec<(String, Object)>) -> (r: Store)
        ensures
            r@ == seq![ScopeView { bindings: bindings_view(bindings@), outer: None }],
    {
        let mut scopes: Vec<Scope> = Vec::new();
        scopes.push(Scope { bindings, outer: None });
        let r = Store { scopes };
        proof {
            assert(bindings_view(Seq::<(String, Object)>::empty()) =~= Seq::empty());
            assert(r@ =~= seq![ScopeView { bindings: bindings_view(bindings@), outer: None }]);
        }
        r
    }

    /// The number of scopes.
    pub fn len(&self) -> (r: usize)
        ensures
            r == self@.len(),
    {
        self.scopes.len()
    }

    /// Adds an empty scope inside `outer` and returns its position.
    pub fn new_enclosed(&mut self, outer: usize) -> (r: usize)
        ensures
            final(self)@ == enclosed(old(self)@, outer as nat),
            r == old(self)@.len(),
    {
        let r = self.scopes.len();
        self.scopes.push(Scope { bindings: Vec::new(), outer: Some(outer) });
        proof {
            assert(bindings_view(Seq::<(String, Object)>::empty()) =~= Seq::empty());
            assert(self@ =~= enclosed(old(self)@, outer as nat));
        }
        r
    }

    /// Adds a scope without an outer scope, which holds `bindings`, and
    /// returns its position.
    pub fn new_root(&mut self, bindings: Vec<(String, Object)>) -> (r: usize)
        ensures
            final(self)@ == with_root(old(self)@, bindings_view(bindings@)),
            r == old(self)@.len(),
    {
        let r = self.scopes.len();
        self.scopes.push(Scope { bindings, outer: None });
        proof {
            assert(self@ =~= with_root(old(self)@, bindings_view(bindings@)));
        }
        r
    }

    /// The value of `name` as seen from `scope`, copied.
    pub fn get(&self, scope: usize, name: &str) -> (r: Option<Object>)
        ensures
            opt_object_view(r) == resolve(self@, scope as nat, name@),
    {
        let mut current = scope;
        loop
            invariant
                resolve(self@, current as nat, name@) == resolve(self@, scope as nat, name@),
            decreases current,
        {
            if current >= self.scopes.len() {
                return None;
            }
            let here = &self.scopes[current];
            match position_of_name(&here.bindings, name) {
                Some(i) => {
                    return Some(clone_object(&here.bindings[i].1));
                },
                None => {},
            }
            match here.outer {
                Some(o) => {
                    if o < current {
                        current = o;
                    } else {
                        return None;
                    }
                },
                None => {
                    return None;
                },
            }
        }
    }

    /// Binds `name` to `value` in `scope` itself, whatever outer scopes bind.
    pub fn set(&mut self, scope: usize, name: String, value: Object)
        ensures
            final(self)@ == with_binding(old(self)@, scope as nat, name@, value@),
    {
        if scope < self.scopes.len() {
            let mut bindings: Vec<(String, Object)> = Vec::new();
            core::mem::swap(&mut bindings, &mut self.scopes[scope].bindings);
            let mut bindings = bind(bindings, name, value);
            core::mem::swap(&mut bindings, &mut self.scopes[scope].bindings);
            proof {
                assert(self@ =~= with_binding(old(self)@, scope as nat, name@, value@));
            }
        }
    }

    /// Assigns `value` to `name` in the innermost scope, from `scope`
    /// outwards, that binds the name, and says whether there was one.
    pub fn anew(&mut self, scope: usize, name: String, value: Object) -> (found: bool)
        ensures
            final(self)@ == reassigned(old(self)@, scope as nat, name@, value@),
            found == resolve(old(self)@, scope as nat, name@).is_some(),
    {
        let mut current = scope;
        loop
            invariant
                self@ == old(self)@,
                resolve(self@, current as nat, name@).is_some() == resolve(
                    self@,
                    scope as nat,
                    name@,
                ).is_some(),
                reassigned(self@, current as nat, name@, value@) == reassigned(
                    self@,
                    scope as nat,
                    name@,
                    value@,
                ),
            decreases current,
        {
            if current >= self.scopes.len() {
                return false;
            }
            let here = &self.scopes[current];
            match position_of_name(&here.bindings, name.as_str()) {
                Some(_) => {
                    self.set(current, name, value);
                    return true;
                },
                None => {},
            }
            match here.outer {
                Some(o) => {
                    if o < current {
                        current = o;
                    } else {
                        return false;
                    }
                },
                None => {
                    return false;
                },
            }
        }
    }

    /// The bindings of `scope` itself, copied, oldest first.
    pub fn iter(&self, scope: usize) -> (r: Vec<(String, Object)>)
        ensures
            bindings_view(r@) == if scope < self@.len() {
                self@[scope as int].bindings
            } else {
                Seq::empty()
            },
    {
        if scope < self.scopes.len() {
            clone_bindings(&self.scopes[scope].bindings)
        } else {
            let r: Vec<(String, Object)> = Vec::new();
            proof {
                assert(bindings_view(r@) =~= Seq::empty());
            }
            r
        }
    }
}

impl Default for Store {
    fn default() -> (r: Store)
        ensures
            r@ == seq![ScopeView { bindings: Seq::empty(), outer: None }],
    {
        Self::new()
    }
}

} // verus!
