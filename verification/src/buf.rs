//! Buffers whose bytes the library itself can reach.

use vstd::prelude::*;

verus! {

/// A buffer whose bytes can be reached.
pub trait Bytes {
    /// The bytes that are there.
    spec fn contents(&self) -> Seq<u8>;

    /// How many bytes can be there.
    spec fn room(&self) -> nat;

    /// Writes a byte, behind the last if need be.
    fn put(&mut self, at: usize, byte: u8)
        requires
            at <= old(self).contents().len(),
            at < old(self).room(),
        ensures
            final(self).room() == old(self).room(),
            final(self).contents() == if at < old(self).contents().len() {
                old(self).contents().update(at as int, byte)
            } else {
                old(self).contents().push(byte)
            },
    ;

    /// Returns the bytes.
    fn as_bytes(&self) -> (bytes: &[u8])
        ensures
            bytes@ == self.contents(),
    ;

    /// Returns the bytes, for changing them in place.
    fn as_bytes_mut(&mut self) -> (bytes: &mut [u8])
        ensures
            bytes@ == old(self).contents(),
            final(self).contents() == final(bytes)@,
            final(bytes)@.len() == bytes@.len() ==> final(self).room() == old(self).room(),
    ;
}

impl Bytes for Vec<u8> {
    open spec fn contents(&self) -> Seq<u8> {
        self@
    }

    open spec fn room(&self) -> nat {
        usize::MAX as nat
    }

    fn put(&mut self, at: usize, byte: u8) {
        if at < self.len() {
            self[at] = byte;
        } else {
            self.push(byte);
        }
    }

    fn as_bytes(&self) -> (bytes: &[u8]) {
        self.as_slice()
    }

    fn as_bytes_mut(&mut self) -> (bytes: &mut [u8]) {
        self.as_mut_slice()
    }
}

impl<const N: usize> Bytes for [u8; N] {
    open spec fn contents(&self) -> Seq<u8> {
        self@
    }

    open spec fn room(&self) -> nat {
        N as nat
    }

    fn put(&mut self, at: usize, byte: u8) {
        self[at] = byte;
    }

    fn as_bytes(&self) -> (bytes: &[u8]) {
        self.as_slice()
    }

    fn as_bytes_mut(&mut self) -> (bytes: &mut [u8]) {
        self
    }
}

impl Bytes for Box<[u8]> {
    open spec fn contents(&self) -> Seq<u8> {
        (**self)@
    }

    open spec fn room(&self) -> nat {
        (**self)@.len()
    }

    fn put(&mut self, at: usize, byte: u8) {
        self[at] = byte;
    }

    fn as_bytes(&self) -> (bytes: &[u8]) {
        &**self
    }

    fn as_bytes_mut(&mut self) -> (bytes: &mut [u8]) {
        &mut **self
    }
}

} // verus!
