//! Random choices, drawn from the generator of the `rand` crate.

use crate::object::{Object, ObjectView};
use crate::std_library::{Res, ResView};
use crate::store::bindings_view;
use rand::seq::SliceRandom;
use rand::Rng;
use vstd::prelude::*;
use vstd::string::*;

verus! {

/// The thread-local generator of the `rand` crate. Nothing is known of what
/// is inside it.
#[verifier::external_type_specification]
#[verifier::external_body]
pub struct ExThreadRng(rand::rngs::ThreadRng);

/// A source of random choices.
pub struct SimpleRandom {
    rng: rand::rngs::ThreadRng,
}

/// The names that the library binds, each to its native function.
pub open spec fn globals() -> Seq<(Seq<char>, ObjectView)> {
    seq![
        ("new"@, ObjectView::Inbuilt("new"@)),
        ("random"@, ObjectView::Inbuilt("random"@)),
        ("uniform"@, ObjectView::Inbuilt("uniform"@)),
        ("randint"@, ObjectView::Inbuilt("randint"@)),
        ("choice"@, ObjectView::Inbuilt("choice"@)),
        ("shuffle"@, ObjectView::Inbuilt("shuffle"@)),
    ]
}

fn native(name: &str) -> (r: (String, Object))
    ensures
        r.0@ == name@,
        r.1@ == ObjectView::Inbuilt(name@),
{
    (String::from_str(name), Object::Inbuilt(String::from_str(name)))
}

/// The library of random choices.
pub fn add_globals() -> (r: Res)
    ensures
        r@ == (ResView { globals: globals(), raw: None }),
{
    let mut globals: Vec<(String, Object)> = Vec::new();
    globals.push(native("new"));
    globals.push(native("random"));
    globals.push(native("uniform"));
    globals.push(native("randint"));
    globals.push(native("choice"));
    globals.push(native("shuffle"));
    proof {
        assert(bindings_view(globals@) =~= self::globals());
    }
    Res { globals, raw: None }
}

impl SimpleRandom {
    /// Calls `rand::thread_rng`, which hands out the generator of the
    /// current thread. Nothing is claimed of it.
    #[verifier::external_body]
    pub fn new() -> SimpleRandom {
        SimpleRandom { rng: rand::thread_rng() }
    }

    /// Calls `Rng::gen_range` on the inclusive range from `a` to `b`. The
    /// call panics on an empty range, which the contract leaves out; what it
    /// returns lies in the range, and that is all that is claimed.
    #[verifier::external_body]
    pub fn randint(&mut self, a: i64, b: i64) -> (r: i64)
        requires
            a <= b,
        ensures
            a <= r <= b,
    {
        self.rng.gen_range(a..=b)
    }

    /// Calls `SliceRandom::choose`, which returns a reference to one item of
    /// the slice, and `None` for the empty slice. Which item it is, is left
    /// open.
    #[verifier::external_body]
    fn pick<'a, T>(&mut self, seq: &'a [T]) -> (r: Option<&'a T>)
        ensures
            match r {
                Some(item) => exists|i: int| 0 <= i < seq@.len() && *item == seq@[i],
                None => seq@.len() == 0,
            },
    {
        seq.choose(&mut self.rng)
    }

    /// A copy of one item of `seq`.
    pub fn choice<T: Clone>(&mut self, seq: &[T]) -> (r: T)
        requires
            seq@.len() > 0,
        ensures
            exists|i: int| 0 <= i < seq@.len() && cloned(seq@[i], r),
    {
        match self.pick(seq) {
            Some(item) => item.clone(),
            None => vstd::pervasive::unreached(),
        }
    }

    /// Calls `SliceRandom::shuffle`, which swaps items of the slice among
    /// each other. The items after the call are those before it, each as
    /// often as before; their order is left open.
    #[verifier::external_body]
    pub fn shuffle<T>(&mut self, x: &mut Vec<T>)
        ensures
            final(x)@.to_multiset() == old(x)@.to_multiset(),
    {
        x.shuffle(&mut self.rng)
    }
}

} // verus!
