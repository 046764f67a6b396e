//! The address of a server: the name of the pipe or socket it listens on.

use vstd::prelude::*;
use vstd::slice::slice_to_vec;

use crate::encode::{contains_nul, has_nul};
use crate::error::Error;

verus! {

/// The address of a server. It holds no NUL byte: the engine takes it as a
/// terminated string.
#[derive(Debug, PartialEq, Eq)]
pub struct Address {
    bytes: Vec<u8>,
}

impl View for Address {
    type V = Seq<u8>;

    closed spec fn view(&self) -> Seq<u8> {
        self.bytes@
    }
}

impl Address {
    /// The invariant of an address: no NUL byte.
    pub open spec fn wf(&self) -> bool {
        !has_nul(self@)
    }

    /// The address made of the given bytes, which must hold no NUL.
    pub fn new(addr: &[u8]) -> (address: Address)
        requires
            !has_nul(addr@),
        ensures
            address@ == addr@,
            address.wf(),
    {
        Address { bytes: slice_to_vec(addr) }
    }

    /// The address made of the given bytes, or `InvalidData` where they hold
    /// a NUL.
    pub fn parse(addr: &[u8]) -> (r: Result<Address, Error>)
        ensures
            match r {
                Ok(address) => !has_nul(addr@) && address@ == addr@ && address.wf(),
                Err(e) => has_nul(addr@) && e == Error::InvalidData,
            },
    {
        if contains_nul(addr) {
            Err(Error::InvalidData)
        } else {
            Ok(Address::new(addr))
        }
    }

    /// The bytes of the address, as the engine takes them.
    pub fn into_raw(self) -> (bytes: Vec<u8>)
        ensures
            bytes@ == self@,
    {
        self.bytes
    }

    /// The bytes of the address.
    pub fn as_bytes(&self) -> (bytes: &[u8])
        ensures
            bytes@ == self@,
    {
        self.bytes.as_slice()
    }
}

} // verus!
