//! Digests, keys and signatures, all held as raw bytes.

use vstd::prelude::*;

verus! {

/// A fixed-size content digest of a committable value.
#[derive(Clone, Debug, Hash)]
pub struct Commitment {
    pub digest: Vec<u8>,
}

/// A public key in its encoded form.
#[derive(Clone, Debug, Hash)]
pub struct EncodedPublicKey(pub Vec<u8>);

/// A signature in its encoded form.
#[derive(Clone, Debug, Hash)]
pub struct EncodedSignature(pub Vec<u8>);

impl View for Commitment {
    type V = Seq<u8>;

    open spec fn view(&self) -> Seq<u8> {
        self.digest@
    }
}

impl View for EncodedPublicKey {
    type V = Seq<u8>;

    open spec fn view(&self) -> Seq<u8> {
        self.0@
    }
}

impl View for EncodedSignature {
    type V = Seq<u8>;

    open spec fn view(&self) -> Seq<u8> {
        self.0@
    }
}

/// Byte-wise equality of two byte strings.
pub fn bytes_eq(a: &Vec<u8>, b: &Vec<u8>) -> (r: bool)
    ensures
        r == (a@ == b@),
{
    if a.len() != b.len() {
        return false;
    }
    let mut i: usize = 0;
    while i < a.len()
        invariant
            a.len() == b.len(),
            i <= a.len(),
            forall|j: int| 0 <= j < i ==> a@[j] == b@[j],
        decreases a.len() - i,
    {
        if a[i] != b[i] {
            return false;
        }
        i = i + 1;
    }
    assert(a@ =~= b@);
    true
}

impl Commitment {
    /// Whether two commitments hold the same digest.
    pub fn same_as(&self, other: &Commitment) -> (r: bool)
        ensures
            r == (self@ == other@),
    {
        bytes_eq(&self.digest, &other.digest)
    }

    /// A copy with the same digest.
    pub fn copied(&self) -> (r: Commitment)
        ensures
            r@ == self@,
    {
        Commitment { digest: self.digest.clone() }
    }
}

impl EncodedPublicKey {
    /// Whether two keys hold the same bytes.
    pub fn same_as(&self, other: &EncodedPublicKey) -> (r: bool)
        ensures
            r == (self@ == other@),
    {
        bytes_eq(&self.0, &other.0)
    }

    /// A copy with the same bytes.
    pub fn copied(&self) -> (r: EncodedPublicKey)
        ensures
            r@ == self@,
    {
        EncodedPublicKey(self.0.clone())
    }
}

impl EncodedSignature {
    /// A copy with the same bytes.
    pub fn copied(&self) -> (r: EncodedSignature)
        ensures
            r@ == self@,
    {
        EncodedSignature(self.0.clone())
    }
}

} // verus!
