//! The prover's side of the protocol: deriving the secret from a password,
//! the registration commitments, and the two steps of a login round. The
//! messages go over a transport that the caller provides.
use vstd::prelude::*;
use zeroize::Zeroize;
use crate::chaum_pedersen::{
    commitment, default_group, response, ChaumPedersen, ChaumPedersenExponents,
    ChaumPedersenInterface, GroupView,
    Parameters,
};
use crate::natural::{be_bytes, be_value, lemma_be_value_bound, Natural};
use vstd::arithmetic::power2::pow2;

verus! {

/// The BLAKE3 digest of the UTF-8 encoding of a text.
pub uninterp spec fn blake3_text_digest(text: Seq<char>) -> Seq<u8>;

/// Relies on `blake3::hash` over the UTF-8 bytes of `text`: a 32-byte digest
/// that depends on the text alone.
#[verifier::external_body]
fn password_digest(text: &str) -> (r: Vec<u8>)
    ensures
        r@ == blake3_text_digest(text@),
        r@.len() == 32,
{
    blake3::hash(text.as_bytes()).as_bytes().to_vec()
}

/// Relies on `Zeroize` for `String`: the bytes are overwritten with zeros and
/// the string is left empty.
#[verifier::external_body]
fn wipe(text: &mut String)
    ensures
        final(text)@.len() == 0,
{
    text.zeroize();
}

/// The secret `x` of a password: its BLAKE3 digest read as a big-endian
/// number. The password's bytes are wiped before it is dropped.
pub fn calculate_password_hash(password: String) -> (r: Natural)
    ensures
        r@ == be_value(blake3_text_digest(password@)),
        r@ < pow2(256),
{
    let mut password = password;
    let digest = password_digest(password.as_str());
    wipe(&mut password);
    proof {
        lemma_be_value_bound(digest@);
    }
    Natural::from_bytes_be(&digest)
}

/// The prover's state for one login round: the ephemeral secret `k` and its
/// commitments.
pub struct LoginRound {
    k: Natural,
    commitment: ChaumPedersenExponents,
}

impl LoginRound {
    /// The ephemeral secret.
    pub closed spec fn secret(&self) -> nat {
        self.k@
    }

    /// The round's commitments `(g^k, h^k)`.
    pub closed spec fn commitments(&self) -> (nat, nat) {
        self.commitment@
    }

    /// The big-endian commitments `r1`, `r2` to send with the challenge
    /// request.
    pub fn challenge_request(&self) -> (r: (Vec<u8>, Vec<u8>))
        ensures
            r.0@ == be_bytes(self.commitments().0),
            r.1@ == be_bytes(self.commitments().1),
    {
        (
            self.commitment.get_first_exponent().to_bytes_be(),
            self.commitment.get_second_exponent().to_bytes_be(),
        )
    }
}

/// A prover over a fixed group.
pub struct ChaumPedersenAuthClient {
    cp_zkp_protocol: ChaumPedersen,
}

impl ChaumPedersenAuthClient {
    /// The group the prover works in.
    pub closed spec fn group(&self) -> GroupView {
        self.cp_zkp_protocol@
    }

    /// The prover's group is usable.
    pub closed spec fn wf(&self) -> bool {
        self.cp_zkp_protocol.wf()
    }

    /// A prover over the built-in group.
    pub fn new() -> (r: ChaumPedersenAuthClient)
        ensures
            r.wf(),
            r.group() == default_group(),
    {
        ChaumPedersenAuthClient::with_parameters(Parameters::default_group())
    }

    /// A prover over the given group.
    pub fn with_parameters(parameters: Parameters) -> (r: ChaumPedersenAuthClient)
        requires
            parameters.wf(),
        ensures
            r.wf(),
            r.group() == parameters@,
    {
        ChaumPedersenAuthClient { cp_zkp_protocol: ChaumPedersen::new(parameters) }
    }

    /// The big-endian commitments `y1 = g^x`, `y2 = h^x` to register for the
    /// secret `x`.
    pub fn register_user(&self, x: &Natural) -> (r: (Vec<u8>, Vec<u8>))
        requires
            self.wf(),
        ensures
            r.0@ == be_bytes(commitment(self.group(), x@).0),
            r.1@ == be_bytes(commitment(self.group(), x@).1),
    {
        let exponents = self.cp_zkp_protocol.commit(x);
        (exponents.get_first_exponent().to_bytes_be(), exponents.get_second_exponent().to_bytes_be())
    }

    /// Opens a login round: draws the ephemeral secret `k` and commits to it.
    pub fn start_authentication(&self) -> (r: LoginRound)
        requires
            self.wf(),
        ensures
            r.secret() < pow2(self.group().bit_size),
            r.commitments() == commitment(self.group(), r.secret()),
    {
        let k = self.cp_zkp_protocol.generate_random();
        let commitment = self.cp_zkp_protocol.commit(&k);
        LoginRound { k, commitment }
    }

    /// The big-endian response `(k - c * x) mod q` to the big-endian
    /// challenge `c` of `round`, for the secret `x`.
    pub fn answer_challenge(&self, round: &LoginRound, x: &Natural, c: &[u8]) -> (r: Vec<u8>)
        requires
            self.wf(),
        ensures
            r@ == be_bytes(response(self.group(), x@, round.secret(), be_value(c@))),
    {
        let c = Natural::from_bytes_be(c);
        self.cp_zkp_protocol.solve_challenge(x, &round.k, &c).to_bytes_be()
    }
}

} // verus!
