//! The built-in libraries: which names each binds, and the native functions
//! that are computed here.

pub mod array;
pub mod fs;
pub mod math;
pub mod random;
pub mod string;
pub mod util;

use crate::object::{objects_view, Object, ObjectView};
use crate::store::bindings_view;
use crate::token::same_text;
use vstd::prelude::*;

verus! {

/// A built-in library: the names it binds, and a source text in the language
/// itself that is evaluated on top of them, if it has one.
pub struct Res {
    pub globals: Vec<(String, Object)>,
    pub raw: Option<String>,
}

/// The mathematical model of a [`Res`].
pub struct ResView {
    pub globals: Seq<(Seq<char>, ObjectView)>,
    pub raw: Option<Seq<char>>,
}

impl View for Res {
    type V = ResView;

    open spec fn view(&self) -> ResView {
        ResView {
            globals: bindings_view(self.globals@),
            raw: match self.raw {
                Some(s) => Some(s@),
                None => None,
            },
        }
    }
}

/// The model of a library that may be missing.
pub open spec fn opt_res_view(o: Option<Res>) -> Option<ResView> {
    match o {
        Some(r) => Some(r@),
        None => None,
    }
}

/// The built-in library of a name.
pub open spec fn std_lib(name: Seq<char>) -> Option<ResView> {
    if name == "nya:clawtility"@ {
        Some(ResView { globals: util::globals(), raw: None })
    } else if name == "nya:furrball"@ {
        Some(ResView { globals: array::globals(), raw: Some(array::MAP_SOURCE@) })
    } else if name == "nya:whiskers"@ {
        Some(ResView { globals: string::globals(), raw: None })
    } else if name == "nya:scratchpad"@ {
        Some(ResView { globals: fs::globals(), raw: None })
    } else if name == "nya:catculator"@ {
        Some(ResView { globals: math::globals(), raw: None })
    } else {
        None
    }
}

/// What a native function gives on `args`, for the functions that are
/// computed here; `None` for those that the embedding program computes.
pub open spec fn native_result(name: Seq<char>, args: Seq<ObjectView>) -> Option<ObjectView> {
    if name == "push"@ {
        Some(array::push_result(args))
    } else if name == "pop"@ || name == "head"@ {
        Some(array::pop_result(args))
    } else if name == "tail"@ {
        Some(array::tail_result(args))
    } else if name == "includes"@ {
        Some(array::includes_result(args))
    } else if name == "replace"@ {
        Some(string::replace_result(args))
    } else if name == "to_string"@ {
        Some(string::to_string_result(args))
    } else if name == "length"@ {
        Some(util::length_result(args))
    } else {
        None
    }
}

/// Calls a native function that is computed here.
pub fn call_native(name: &str, args: Vec<Object>) -> (r: Result<Object, Vec<Object>>)
    ensures
        match r {
            Ok(v) => native_result(name@, objects_view(args)) == Some(v@),
            Err(back) => native_result(name@, objects_view(args)).is_none() && back == args,
        },
{
    if same_text(name, "push") {
        Ok(array::push(args))
    } else if same_text(name, "pop") {
        Ok(array::pop(args))
    } else if same_text(name, "head") {
        Ok(array::head(args))
    } else if same_text(name, "tail") {
        Ok(array::tail(args))
    } else if same_text(name, "includes") {
        Ok(array::includes(args))
    } else if same_text(name, "replace") {
        Ok(string::replace(args))
    } else if same_text(name, "to_string") {
        Ok(string::to_string(args))
    } else if same_text(name, "length") {
        Ok(util::length(args))
    } else {
        Err(args)
    }
}

/// The built-in library of a name.
pub fn get_std_lib(lib: &str) -> (r: Option<Res>)
    ensures
        opt_res_view(r) == std_lib(lib@),
{
    if same_text(lib, "nya:clawtility") {
        Some(util::add_globals())
    } else if same_text(lib, "nya:furrball") {
        Some(array::add_globals())
    } else if same_text(lib, "nya:whiskers") {
        Some(string::add_globals())
    } else if same_text(lib, "nya:scratchpad") {
        Some(fs::add_globals())
    } else if same_text(lib, "nya:catculator") {
        Some(math::add_globals())
    } else {
        None
    }
}

} // verus!
