//! The payload that rides along the trace metadata.

use vstd::prelude::*;
use vstd::string::*;

verus! {

/// The reply to `name`: `Hello `, the name, and an exclamation mark.
pub open spec fn greeting_text(name: Seq<char>) -> Seq<char> {
    seq!['H', 'e', 'l', 'l', 'o', ' '] + name + seq!['!']
}

/// The reply to `name`.
pub fn greeting(name: &str) -> (reply: String)
    ensures
        reply@ == greeting_text(name@),
{
    proof {
        reveal_strlit("Hello ");
        reveal_strlit("!");
    }
    let mut reply = String::from_str("Hello ");
    assert(reply@ =~= seq!['H', 'e', 'l', 'l', 'o', ' ']);
    reply.append(name);
    reply.append("!");
    assert("!"@ =~= seq!['!']);
    reply
}

} // verus!
