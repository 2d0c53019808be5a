//! The library of files: the names it binds. The functions themselves read
//! and write files and are the work of the embedding program.

use crate::object::{Object, ObjectView};
use crate::std_library::{Res, ResView};
use crate::store::bindings_view;
use vstd::prelude::*;
use vstd::string::*;

verus! {

/// The names that the library binds, each to its native function.
pub open spec fn globals() -> Seq<(Seq<char>, ObjectView)> {
    seq![
        ("readFile"@, ObjectView::Inbuilt("read_file"@)),
        ("writeFile"@, ObjectView::Inbuilt("write_file"@)),
        ("exists"@, ObjectView::Inbuilt("file_exists"@)),
    ]
}

/// The library of files.
pub fn add_globals() -> (r: Res)
    ensures
        r@ == (ResView { globals: globals(), raw: None }),
{
    let mut globals: Vec<(String, Object)> = Vec::new();
    globals.push((String::from_str("readFile"), Object::Inbuilt(String::from_str("read_file"))));
    globals.push(
        (String::from_str("writeFile"), Object::Inbuilt(String::from_str("write_file"))),
    );
    globals.push((String::from_str("exists"), Object::Inbuilt(String::from_str("file_exists"))));
    proof {
        assert(bindings_view(globals@) =~= self::globals());
    }
    Res { globals, raw: None }
}

} // verus!
