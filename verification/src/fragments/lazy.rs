//! Header values as written, to be parsed on demand.
use vstd::prelude::*;

verus! {

/// A Content-Type value as written.
pub struct Type<'a>(pub &'a str);

/// A Content-Transfer-Encoding value as written.
pub struct Mechanism<'a>(pub &'a str);

/// A MIME-Version value as written.
pub struct Version<'a>(pub &'a str);

} // verus!
