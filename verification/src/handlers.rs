//! Handlers that come with the library.

use vstd::prelude::*;

verus! {

/// A handler that greets.
pub fn hello_world() -> (text: String)
    ensures
        text@ == "Hello World"@,
{
    "Hello World".to_owned()
}

} // verus!
