//! Opaque payload bytes tagged with the codec that produced them.

use vstd::prelude::*;

verus! {

/// Codec used to encode and decode payload bytes.
#[derive(Clone, Copy, Debug, PartialEq, Eq, Structural)]
pub enum Codec {
    Cbor,
    Json,
    Borsh,
}

/// Mathematical value of a [`Payload`]: its byte contents and codec.
#[verifier::ext_equal]
pub struct PayloadV {
    pub bytes: Seq<u8>,
    pub codec: Codec,
}

/// Opaque bytes with an associated codec.
///
/// The core treats the bytes as uninterpreted; equality compares both the
/// bytes and the codec.
#[derive(Debug, PartialEq, Eq)]
pub struct Payload {
    pub bytes: Vec<u8>,
    pub codec: Codec,
}

impl View for Payload {
    type V = PayloadV;

    open spec fn view(&self) -> PayloadV {
        PayloadV { bytes: self.bytes@, codec: self.codec }
    }
}

impl DeepView for Payload {
    type V = PayloadV;

    open spec fn deep_view(&self) -> PayloadV {
        self.view()
    }
}

impl Clone for Payload {
    fn clone(&self) -> (r: Self)
        ensures
            r@ == self@,
    {
        Payload { bytes: crate::util::copy_vec(&self.bytes), codec: self.codec }
    }
}

impl Payload {
    /// Create a payload from raw bytes and their codec.
    pub fn new(bytes: Vec<u8>, codec: Codec) -> (r: Self)
        ensures
            r@ == (PayloadV { bytes: bytes@, codec }),
    {
        Self { bytes, codec }
    }

    /// Whether two payloads are equal: same bytes and same codec.
    pub fn same_payload(&self, other: &Payload) -> (r: bool)
        ensures
            r == (self@ == other@),
    {
        let codec_eq = match (self.codec, other.codec) {
            (Codec::Cbor, Codec::Cbor) => true,
            (Codec::Json, Codec::Json) => true,
            (Codec::Borsh, Codec::Borsh) => true,
            _ => false,
        };
        if !codec_eq {
            return false;
        }
        if self.bytes.len() != other.bytes.len() {
            proof {
                assert(self@.bytes.len() != other@.bytes.len());
            }
            return false;
        }
        let mut i: usize = 0;
        while i < self.bytes.len()
            invariant
                i <= self.bytes.len(),
                self@.bytes.len() == other@.bytes.len(),
                forall|j: int| 0 <= j < i ==> self@.bytes[j] == other@.bytes[j],
            decreases self.bytes.len() - i,
        {
            if self.bytes[i] != other.bytes[i] {
                return false;
            }
            i = i + 1;
        }
        proof {
            assert(self@.bytes =~= other@.bytes);
            assert(self@ =~= other@);
        }
        true
    }
}

} // verus!
