//! The example program's own items: the structs it projects, the function it
//! times and the function whose result it caches.
use vstd::prelude::*;

verus! {

/// A user record whose named fields project onto a string-keyed map.
pub struct User {
    pub username: String,
    pub first_name: String,
    pub last_name: String,
}

/// A user record from which narrower models are derived.
pub struct User2 {
    pub username: String,
    pub first_name: String,
    pub last_name: String,
    pub age: u32,
}

/// Counts once for each value below `u16::MAX`.
pub fn function_to_benchmark() -> (r: u16)
    ensures
        r == u16::MAX,
{
    let mut counter: u16 = 0;
    for _i in 0..u16::MAX
        invariant
            counter == _i,
    {
        counter += 1;
    }
    counter
}

/// The full name: the first name, a space, the last name.
pub fn test_cache(first_name: String, last_name: String) -> (r: String)
    ensures
        r@ == first_name@ + " "@ + last_name@,
{
    let mut out = first_name;
    out.append(" ");
    out.append(last_name.as_str());
    out
}

} // verus!
