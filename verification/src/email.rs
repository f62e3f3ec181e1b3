//! Raw emails and their header / body segments.
use vstd::prelude::*;

verus! {

/// The raw bytes of an email.
#[derive(Debug, PartialEq, Eq)]
pub struct Raw<'a>(pub &'a [u8]);

/// An email cut in two: the bytes of its header section and of its body.
#[derive(Debug, PartialEq, Eq)]
pub struct Segment<'a> {
    pub header: &'a [u8],
    pub body: &'a [u8],
}

} // verus!
