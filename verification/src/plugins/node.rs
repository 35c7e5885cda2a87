//! Decisions of the Node.js plugin.

use vstd::prelude::*;
use vstd::string::StringSliceAdditionalSpecFns;
use vstd::utf8::is_char_boundary;
use crate::text::shorten;
use crate::text::shortened;

verus! {

/// A hot function's name as the Node.js hotspot table shows it: names
/// longer than 26 bytes keep 23 bytes and get `...`.
pub fn short_function_name(function: &str) -> (s: String)
    requires
        function.spec_bytes().len() <= usize::MAX,
        function.spec_bytes().len() <= 26 || is_char_boundary(function.spec_bytes(), 23),
    ensures
        s@ == shortened(function.spec_bytes(), function@, 26, 23),
{
    shorten(function, 26, 23)
}

} // verus!
