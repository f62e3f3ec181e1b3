//! The first header model: addresses as plain text.
use vstd::prelude::*;

verus! {

/// An address specification: the local part and the domain, as text.
#[derive(Debug, PartialEq, Eq)]
pub struct AddrSpec {
    pub local_part: Vec<u8>,
    pub domain: Vec<u8>,
}

impl AddrSpec {
    /// The address written out: `local_part@domain`.
    pub fn fully_qualified(&self) -> (r: Vec<u8>)
        ensures
            r@ == self.local_part@ + seq![0x40u8] + self.domain@,
    {
        let mut r = crate::text::ascii::bytes_to_vec(self.local_part.as_slice());
        r.push(0x40);
        crate::text::ascii::extend_bytes(&mut r, self.domain.as_slice());
        r
    }
}

} // verus!
