//! The inputs that are mutated.
use vstd::prelude::*;

verus! {

/// An input, or a part of one, that holds bytes to mutate.
pub trait HasMutatorBytes: Sized {
    /// What the input holds besides its bytes.
    type Rest;

    /// The bytes to mutate.
    spec fn bytes(&self) -> Seq<u8>;

    /// What mutating the bytes leaves alone.
    spec fn rest(&self) -> Self::Rest;

    /// The bytes to mutate.
    fn mutator_bytes(&self) -> (bytes: &[u8])
        ensures
            bytes@ == self.bytes(),
    ;

    /// The bytes to mutate, for writing.
    fn mutator_bytes_mut(&mut self) -> (bytes: &mut [u8])
        ensures
            bytes@ == old(self).bytes(),
            final(self).bytes() == final(bytes)@,
            final(self).rest() == old(self).rest(),
    ;
}

/// An input whose bytes can be made more or fewer.
pub trait ResizableMutator: HasMutatorBytes {
    /// Cuts the bytes to `new_len`, or fills them up to it with `value`.
    fn resize(&mut self, new_len: usize, value: u8)
        ensures
            final(self).bytes() == resized(old(self).bytes(), new_len as nat, value),
            final(self).rest() == old(self).rest(),
    ;
}

/// `bytes` cut to `len`, or filled up to it with `value`.
pub open spec fn resized(bytes: Seq<u8>, len: nat, value: u8) -> Seq<u8> {
    Seq::new(
        len,
        |i: int|
            if i < bytes.len() {
                bytes[i]
            } else {
                value
            },
    )
}

/// An input that is nothing but bytes.
#[derive(Debug, PartialEq, Eq)]
pub struct BytesInput {
    bytes: Vec<u8>,
}

impl View for BytesInput {
    type V = Seq<u8>;

    closed spec fn view(&self) -> Seq<u8> {
        self.bytes@
    }
}

impl BytesInput {
    /// An input of the given bytes.
    pub fn new(bytes: Vec<u8>) -> (input: Self)
        ensures
            input@ == bytes@,
    {
        BytesInput { bytes }
    }
}

impl Clone for BytesInput {
    fn clone(&self) -> (copy: Self)
        ensures
            copy@ == self@,
    {
        let bytes: Vec<u8> = vstd::slice::slice_to_vec(self.bytes.as_slice());
        BytesInput { bytes }
    }
}

impl HasMutatorBytes for BytesInput {
    type Rest = ();

    open spec fn bytes(&self) -> Seq<u8> {
        self@
    }

    open spec fn rest(&self) -> () {
        ()
    }

    fn mutator_bytes(&self) -> (bytes: &[u8]) {
        self.bytes.as_slice()
    }

    fn mutator_bytes_mut(&mut self) -> (bytes: &mut [u8]) {
        self.bytes.as_mut_slice()
    }
}

impl ResizableMutator for BytesInput {
    fn resize(&mut self, new_len: usize, value: u8) {
        let ghost before = self.bytes@;
        self.bytes.resize(new_len, value);
        proof {
            let after = self.bytes@;
            if new_len > before.len() {
                assert forall|i: int| 0 <= i < before.len() implies after[i] == before[i] by {
                    assert(after.subrange(0, before.len() as int)[i] == before[i]);
                }
            }
            assert(after =~= resized(before, new_len as nat, value));
        }
    }
}

/// Replaces the bytes of `input` with `bytes`.
pub fn set_bytes<I: HasMutatorBytes + ResizableMutator>(input: &mut I, bytes: &[u8])
    ensures
        final(input).bytes() == bytes@,
        final(input).rest() == old(input).rest(),
{
    input.resize(bytes.len(), 0);
    let target: &mut [u8] = input.mutator_bytes_mut();
    let mut i: usize = 0;
    while i < bytes.len()
        invariant
            i <= bytes@.len(),
            target@.len() == bytes@.len(),
            forall|j: int| 0 <= j < i ==> target@[j] == bytes@[j],
        decreases bytes@.len() - i,
    {
        target[i] = bytes[i];
        i += 1;
    }
    assert(target@ =~= bytes@);
}

/// An input of several parts, each with a key. Keys may occur more than once.
#[derive(Debug, PartialEq, Eq)]
pub struct MultipartInput<I, K> {
    parts: Vec<(K, I)>,
}

impl<I, K> View for MultipartInput<I, K> {
    type V = Seq<(K, I)>;

    closed spec fn view(&self) -> Seq<(K, I)> {
        self.parts@
    }
}

impl<I, K> MultipartInput<I, K> {
    /// An input of the given parts, in this order.
    pub fn new(parts: Vec<(K, I)>) -> (input: Self)
        ensures
            input@ == parts@,
    {
        MultipartInput { parts }
    }

    /// The parts, each with its key.
    pub fn parts(&self) -> (parts: &[(K, I)])
        ensures
            parts@ == self@,
    {
        self.parts.as_slice()
    }

    /// The number of parts.
    pub fn len(&self) -> (len: usize)
        ensures
            len == self@.len(),
    {
        self.parts.len()
    }
}

/// Resizing keeps the bytes that there is room for, and fills the rest with the given value.
pub proof fn law_resized(bytes: Seq<u8>, len: nat, value: u8, i: int)
    requires
        0 <= i < len,
    ensures
        resized(bytes, len, value).len() == len,
        i < bytes.len() ==> resized(bytes, len, value)[i] == bytes[i],
        i >= bytes.len() ==> resized(bytes, len, value)[i] == value,
{
}

} // verus!
