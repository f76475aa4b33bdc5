//! The `greet` command: builds the fixed greeting text around a name.

use vstd::prelude::*;
use vstd::string::StringExecFns;

verus! {

/// The greeting owed for `name`: `"Hello, "`, the name, then
/// `"! You're running Roadmap Planner!"`.
pub open spec fn greeting_of(name: Seq<char>) -> Seq<char> {
    "Hello, "@ + name + "! You're running Roadmap Planner!"@
}

/// Handles the `greet` command: returns exactly the text that
/// `greeting_of` describes, for any name.
pub fn greet(name: &str) -> (r: String)
    ensures
        r@ == greeting_of(name@),
{
    let mut s = String::from_str("Hello, ");
    s.append(name);
    s.append("! You're running Roadmap Planner!");
    s
}

} // verus!
