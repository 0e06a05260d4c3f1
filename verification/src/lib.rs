pub mod catalog;
pub mod dom;
pub mod json;
pub mod pipeline;
pub mod resolve;
pub mod text;
pub mod transfer;

use vstd::prelude::*;

verus! {

/// Greeting composed for a caller by name.
pub fn greet(name: &str) -> (r: String)
    ensures
        r@ == "Hello, "@ + name@ + "! You've been greeted from Rust!"@,
{
    let mut s = String::from_str("Hello, ");
    s.append(name);
    s.append("! You've been greeted from Rust!");
    s
}

} // verus!
