//! The command dispatch table: which backend command a front-end
//! command name selects.

use vstd::prelude::*;

verus! {

/// The three commands the backend exposes to the front end.
#[derive(Clone, Copy, PartialEq, Eq, Structural, Debug)]
pub enum Command {
    /// Build the greeting for a name.
    Greet,
    /// Write a roadmap document in full to a path.
    SaveRoadmap,
    /// Read a roadmap document in full from a path.
    LoadRoadmap,
}

/// Whether two strings hold the same characters.
fn str_eq(a: &str, b: &str) -> (r: bool)
    ensures
        r == (a@ == b@),
{
    let sa: String = a.to_owned();
    let sb: String = b.to_owned();
    sa == sb
}

/// The dispatch table of the command surface: `"greet"`,
/// `"save_roadmap"` and `"load_roadmap"` each select their command,
/// and any other name selects nothing.
pub fn command_for_name(name: &str) -> (r: Option<Command>)
    ensures
        (r == Some(Command::Greet)) <==> name@ == "greet"@,
        (r == Some(Command::SaveRoadmap)) <==> name@ == "save_roadmap"@,
        (r == Some(Command::LoadRoadmap)) <==> name@ == "load_roadmap"@,
        (r is None) <==> (name@ != "greet"@ && name@ != "save_roadmap"@ && name@
            != "load_roadmap"@),
{
    proof {
        reveal_strlit("greet");
        reveal_strlit("save_roadmap");
        reveal_strlit("load_roadmap");
        // the three names differ: in length, or in their first character
        assert("greet"@.len() == 5);
        assert("save_roadmap"@.len() == 12);
        assert("load_roadmap"@.len() == 12);
        assert("save_roadmap"@[0] == 's');
        assert("load_roadmap"@[0] == 'l');
    }
    if str_eq(name, "greet") {
        Some(Command::Greet)
    } else if str_eq(name, "save_roadmap") {
        Some(Command::SaveRoadmap)
    } else if str_eq(name, "load_roadmap") {
        Some(Command::LoadRoadmap)
    } else {
        None
    }
}

} // verus!
