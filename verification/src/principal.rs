//! Identities: callers, owners, destinations and ledgers.

use vstd::prelude::*;

verus! {

/// The longest identity, in bytes.
pub const MAX_PRINCIPAL_BYTES: usize = 29;

/// The bytes of the identity that a text denotes, for a text that is the
/// well-formed textual form of an identity.
pub uninterp spec fn principal_decoding(text: Seq<char>) -> Option<Seq<u8>>;

/// The textual form of the identity with the given bytes.
pub uninterp spec fn principal_encoding(bytes: Seq<u8>) -> Seq<char>;

/// An opaque identity of at most 29 bytes.
#[derive(Debug, PartialEq, Eq)]
pub struct Principal {
    bytes: Vec<u8>,
}

impl View for Principal {
    type V = Seq<u8>;

    closed spec fn view(&self) -> Seq<u8> {
        self.bytes@
    }
}

/// Calls `candid::Principal::from_text` and keeps the bytes of the identity it
/// returns (`as_slice`, which is never longer than 29 bytes); an error of any
/// kind becomes `None`. The contract names what the text decodes to.
#[verifier::external_body]
fn decode_principal(text: &str) -> (r: Option<Principal>)
    ensures
        r is Some <==> principal_decoding(text@) is Some,
        r is Some ==> principal_decoding(text@) == Some(r->Some_0@),
{
    candid::Principal::from_text(text).ok().map(|p| Principal { bytes: p.as_slice().to_vec() })
}

/// Builds a `candid::Principal` with `from_slice`, which accepts up to 29
/// bytes, and calls its `to_text`. The contract names the text, and says that
/// the text decodes to the same bytes: `from_text` takes the checksum off
/// the front, prints what is left and accepts the text if that print is the
/// text.
#[verifier::external_body]
fn encode_principal(bytes: &Vec<u8>) -> (s: String)
    requires
        bytes@.len() <= MAX_PRINCIPAL_BYTES,
    ensures
        s@ == principal_encoding(bytes@),
        principal_decoding(s@) == Some(bytes@),
{
    candid::Principal::from_slice(bytes.as_slice()).to_text()
}

/// Whether two byte strings are equal.
pub fn bytes_eq(a: &Vec<u8>, b: &Vec<u8>) -> (r: bool)
    ensures
        r == (a@ == b@),
{
    if a.len() != b.len() {
        return false;
    }
    let mut i: usize = 0;
    while i < a.len()
        invariant
            a@.len() == b@.len(),
            i <= a@.len(),
            forall|j: int| 0 <= j < i ==> a@[j] == b@[j],
        decreases a@.len() - i,
    {
        if a[i] != b[i] {
            return false;
        }
        i += 1;
    }
    assert(a@ =~= b@);
    true
}

impl Principal {
    #[verifier::type_invariant]
    spec fn bounded(self) -> bool {
        self.bytes@.len() <= MAX_PRINCIPAL_BYTES
    }

    /// The identity of the management canister: no bytes.
    pub fn management_canister() -> (p: Principal)
        ensures
            p@ == Seq::<u8>::empty(),
    {
        Principal { bytes: Vec::new() }
    }

    /// The anonymous identity: the single byte 4.
    pub fn anonymous() -> (p: Principal)
        ensures
            p@ == seq![4u8],
    {
        Principal { bytes: vec![4u8] }
    }

    /// The identity with the given bytes, if they are at most 29.
    pub fn from_slice(bytes: &[u8]) -> (r: Option<Principal>)
        ensures
            r is Some <==> bytes@.len() <= MAX_PRINCIPAL_BYTES,
            r is Some ==> r->Some_0@ == bytes@,
    {
        if bytes.len() > MAX_PRINCIPAL_BYTES {
            return None;
        }
        let mut v: Vec<u8> = Vec::new();
        let mut i: usize = 0;
        while i < bytes.len()
            invariant
                i <= bytes@.len() <= MAX_PRINCIPAL_BYTES,
                v@ == bytes@.subrange(0, i as int),
            decreases bytes@.len() - i,
        {
            v.push(bytes[i]);
            assert(bytes@.subrange(0, i as int).push(bytes@[i as int]) =~= bytes@.subrange(
                0,
                i + 1,
            ));
            i += 1;
        }
        assert(bytes@.subrange(0, bytes@.len() as int) =~= bytes@);
        Some(Principal { bytes: v })
    }

    /// The identity that a text denotes, if the text is well formed.
    pub fn from_text(text: &str) -> (r: Option<Principal>)
        ensures
            r is Some <==> principal_decoding(text@) is Some,
            r is Some ==> principal_decoding(text@) == Some(r->Some_0@),
    {
        decode_principal(text)
    }

    /// The textual form of the identity; read back, it gives the identity.
    pub fn to_text(&self) -> (s: String)
        ensures
            s@ == principal_encoding(self@),
            principal_decoding(s@) == Some(self@),
    {
        proof {
            use_type_invariant(self);
        }
        encode_principal(&self.bytes)
    }

    /// The bytes of the identity.
    pub fn as_slice(&self) -> (b: &Vec<u8>)
        ensures
            b@ == self@,
            b@.len() <= MAX_PRINCIPAL_BYTES,
    {
        proof {
            use_type_invariant(self);
        }
        &self.bytes
    }

    /// Whether this is the same identity as `other`.
    pub fn same_as(&self, other: &Principal) -> (r: bool)
        ensures
            r == (self@ == other@),
    {
        bytes_eq(&self.bytes, &other.bytes)
    }
}

impl Clone for Principal {
    fn clone(&self) -> (r: Self)
        ensures
            r@ == self@,
    {
        proof {
            use_type_invariant(self);
        }
        let bytes = self.bytes.clone();
        assert(bytes@ =~= self.bytes@);
        Principal { bytes }
    }
}

} // verus!
