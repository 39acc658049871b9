//! Proofs and outputs, and the encoding of a proof.

use crate::bytes::{
    append, le_bytes, le_value, lemma_le_bytes_len, lemma_le_bytes_of_value,
    lemma_le_value_bound, lemma_le_value_of_bytes, less_than, radix_pow, take,
};
use crate::error::VrfError;
use crate::group::{group_order, is_element, is_point_encoding, order, order_bytes};
use vstd::prelude::*;

verus! {

/// How many bytes the encoding of a proof has: an element, a challenge, a scalar.
pub const PROOF_LEN: usize = 80;

/// How many bytes an output has.
pub const OUTPUT_LEN: usize = 64;

/// What a proof is: the group element `gamma`, the challenge and the response.
pub struct ProofView {
    /// The secret key's multiple of the element that the message hashes to, encoded.
    pub gamma: Seq<u8>,
    /// The challenge: a number of 16 bytes.
    pub challenge: nat,
    /// The response: a scalar.
    pub response: nat,
}

/// A proof whose parts are in range: an element, a number below `256^16`, a
/// scalar below the group order.
pub open spec fn valid_proof(p: ProofView) -> bool {
    &&& p.gamma.len() == 32
    &&& is_element(p.gamma)
    &&& p.challenge < radix_pow(16)
    &&& p.response < group_order()
}

/// The encoding of a proof: `gamma`, then the challenge in 16 bytes, then the
/// response in 32, both least significant byte first.
pub open spec fn proof_encoding(p: ProofView) -> Seq<u8> {
    p.gamma + le_bytes(p.challenge, 16) + le_bytes(p.response, 32)
}

/// What the three parts of an 80-byte string denote.
pub open spec fn proof_parts(bytes: Seq<u8>) -> ProofView {
    ProofView {
        gamma: bytes.subrange(0, 32),
        challenge: le_value(bytes.subrange(32, 48)),
        response: le_value(bytes.subrange(48, 80)),
    }
}

/// What decoding a proof from `bytes` gives.
pub open spec fn proof_decoding(bytes: Seq<u8>) -> Result<ProofView, VrfError> {
    if bytes.len() != 80 {
        Err(VrfError::MalformedInput)
    } else if !is_element(proof_parts(bytes).gamma) {
        Err(VrfError::MalformedInput)
    } else if proof_parts(bytes).response >= group_order() {
        Err(VrfError::MalformedInput)
    } else {
        Ok(proof_parts(bytes))
    }
}

/// Decoding the encoding of a valid proof gives the proof back.
pub proof fn lemma_proof_round_trip(p: ProofView)
    requires
        valid_proof(p),
    ensures
        proof_decoding(proof_encoding(p)) == Ok::<ProofView, VrfError>(p),
{
    let c = le_bytes(p.challenge, 16);
    let s = le_bytes(p.response, 32);
    let bytes = proof_encoding(p);
    lemma_le_bytes_len(p.challenge, 16);
    lemma_le_bytes_len(p.response, 32);
    lemma_le_value_of_bytes(p.challenge, 16);
    lemma_le_value_bound(order_bytes());
    lemma_le_value_of_bytes(p.response, 32);
    assert(bytes.subrange(0, 32) =~= p.gamma);
    assert(bytes.subrange(32, 48) =~= c);
    assert(bytes.subrange(48, 80) =~= s);
}

/// A proof decodes only from the encoding of a valid proof.
pub proof fn lemma_decoded_proof_is_valid(bytes: Seq<u8>)
    ensures
        proof_decoding(bytes) matches Ok(p) ==> valid_proof(p) && proof_encoding(p) == bytes,
{
    if bytes.len() == 80 {
        let g = bytes.subrange(0, 32);
        let c = bytes.subrange(32, 48);
        let s = bytes.subrange(48, 80);
        lemma_le_value_bound(c);
        lemma_le_bytes_of_value(c);
        lemma_le_bytes_of_value(s);
        assert(bytes =~= g + c + s);
    }
}

/// A proof: a group element, a challenge and a response in range.
#[derive(Clone, Copy, Debug)]
pub struct Proof {
    gamma: [u8; 32],
    challenge: [u8; 16],
    response: [u8; 32],
}

impl View for Proof {
    type V = ProofView;

    /// The three parts.
    closed spec fn view(&self) -> ProofView {
        ProofView {
            gamma: self.gamma@,
            challenge: le_value(self.challenge@),
            response: le_value(self.response@),
        }
    }
}

impl Proof {
    #[verifier::type_invariant]
    spec fn in_range(&self) -> bool {
        is_element(self.gamma@) && le_value(self.response@) < group_order()
    }

    /// Puts a proof together from its parts.
    pub(crate) fn assemble(gamma: [u8; 32], challenge: [u8; 16], response: [u8; 32]) -> (p: Proof)
        requires
            is_element(gamma@),
            le_value(response@) < group_order(),
        ensures
            p@.gamma == gamma@,
            p@.challenge == le_value(challenge@),
            p@.response == le_value(response@),
    {
        Proof { gamma, challenge, response }
    }

    /// Decodes a proof: 80 bytes of which the first 32 encode a group element
    /// and the last 32 denote a scalar below the group order.
    pub fn from_bytes(bytes: &[u8]) -> (decoded: Result<Proof, VrfError>)
        ensures
            match decoded {
                Ok(p) => proof_decoding(bytes@) == Ok::<ProofView, VrfError>(p@),
                Err(e) => proof_decoding(bytes@) == Err::<ProofView, VrfError>(e),
            },
    {
        if bytes.len() != PROOF_LEN {
            return Err(VrfError::MalformedInput);
        }
        let gamma: [u8; 32] = take(bytes, 0);
        let challenge: [u8; 16] = take(bytes, 32);
        let response: [u8; 32] = take(bytes, 48);
        if !is_point_encoding(&gamma) {
            return Err(VrfError::MalformedInput);
        }
        if !less_than(&response, &order()) {
            return Err(VrfError::MalformedInput);
        }
        Ok(Proof { gamma, challenge, response })
    }

    /// The encoding of the proof.
    pub fn to_bytes(&self) -> (out: [u8; 80])
        ensures
            out@ == proof_encoding(self@),
            valid_proof(self@),
    {
        proof {
            use_type_invariant(self);
            lemma_le_bytes_of_value(self.challenge@);
            lemma_le_bytes_of_value(self.response@);
            lemma_le_value_bound(self.challenge@);
        }
        let mut buf: Vec<u8> = Vec::new();
        append(&mut buf, self.gamma.as_slice());
        append(&mut buf, self.challenge.as_slice());
        append(&mut buf, self.response.as_slice());
        assert(buf@ =~= proof_encoding(self@));
        let out: [u8; 80] = take(buf.as_slice(), 0);
        assert(out@ =~= buf@);
        out
    }

    /// The encoding of the group element.
    pub fn gamma(&self) -> (out: [u8; 32])
        ensures
            out@ == self@.gamma,
            is_element(out@),
    {
        proof {
            use_type_invariant(self);
        }
        self.gamma
    }

    /// The challenge, in 16 bytes.
    pub fn challenge(&self) -> (out: [u8; 16])
        ensures
            le_value(out@) == self@.challenge,
    {
        self.challenge
    }

    /// The response, in 32 bytes.
    pub fn response(&self) -> (out: [u8; 32])
        ensures
            le_value(out@) == self@.response,
            self@.response < group_order(),
    {
        proof {
            use_type_invariant(self);
        }
        self.response
    }
}

/// The output of the function for one key and one message: 64 bytes.
#[derive(Clone, Copy, Debug)]
pub struct VRFOutput {
    bytes: [u8; 64],
}

impl View for VRFOutput {
    type V = Seq<u8>;

    /// The bytes.
    closed spec fn view(&self) -> Seq<u8> {
        self.bytes@
    }
}

impl VRFOutput {
    /// The output that holds `bytes`.
    pub(crate) fn from_digest(bytes: [u8; 64]) -> (out: VRFOutput)
        ensures
            out@ == bytes@,
    {
        VRFOutput { bytes }
    }

    /// The bytes of the output.
    pub fn to_bytes(&self) -> (out: [u8; 64])
        ensures
            out@ == self@,
    {
        self.bytes
    }
}

} // verus!
