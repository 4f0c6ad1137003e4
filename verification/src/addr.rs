//! Fixed-length account and program addresses.

use vstd::prelude::*;

verus! {

/// Number of bytes in an account address.
pub const ADDRESS_LEN: usize = 32;

/// An opaque fixed-length public identifier for an account or program.
/// Immutable value type; equality is by byte content.
#[derive(Debug)]
pub struct Address {
    bytes: Vec<u8>,
}

impl Address {
    /// The byte content, as a mathematical sequence.
    pub closed spec fn view(&self) -> Seq<u8> {
        self.bytes@
    }

    /// A well-formed address holds exactly `ADDRESS_LEN` bytes.
    pub open spec fn wf(&self) -> bool {
        self@.len() == ADDRESS_LEN
    }

    /// Builds an address from its byte content; rejects any length other
    /// than `ADDRESS_LEN`.
    pub fn from_bytes(bytes: Vec<u8>) -> (r: Result<Address, ()>)
        ensures
            bytes@.len() == ADDRESS_LEN ==> (r matches Ok(a) && a@ == bytes@ && a.wf()),
            bytes@.len() != ADDRESS_LEN ==> r is Err,
    {
        if bytes.len() == ADDRESS_LEN {
            Ok(Address { bytes })
        } else {
            Err(())
        }
    }

    /// Builds an address from byte content already known to have the right
    /// length.
    pub fn from_bytes_exact(bytes: Vec<u8>) -> (r: Address)
        requires
            bytes@.len() == ADDRESS_LEN,
        ensures
            r@ == bytes@,
            r.wf(),
    {
        Address { bytes }
    }

    /// The byte content, as a vector reference.
    pub fn as_bytes(&self) -> (r: &Vec<u8>)
        ensures
            r@ == self@,
    {
        &self.bytes
    }

    /// Byte-content equality.
    pub fn eq_addr(&self, other: &Address) -> (r: bool)
        ensures
            r == (self@ == other@),
    {
        let n = self.bytes.len();
        if n != other.bytes.len() {
            assert(self@.len() != other@.len());
            return false;
        }
        let mut i: usize = 0;
        while i < n
            invariant
                n == self@.len(),
                n == other@.len(),
                i <= n,
                forall|j: int| 0 <= j < i ==> self@[j] == other@[j],
            decreases n - i,
        {
            if self.bytes[i] != other.bytes[i] {
                assert(self@[i as int] != other@[i as int]);
                return false;
            }
            i += 1;
        }
        assert(self@ =~= other@);
        true
    }
}

impl Clone for Address {
    /// A clone has the same byte content.
    fn clone(&self) -> (r: Self)
        ensures
            r@ == self@,
    {
        let mut bytes: Vec<u8> = Vec::new();
        let n = self.bytes.len();
        let mut i: usize = 0;
        while i < n
            invariant
                n == self@.len(),
                i <= n,
                bytes@ == self@.take(i as int),
            decreases n - i,
        {
            bytes.push(self.bytes[i]);
            assert(bytes@ =~= self@.take(i + 1));
            i += 1;
        }
        assert(self@.take(n as int) =~= self@);
        Address { bytes }
    }
}

} // verus!
