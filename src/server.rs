//! The authentication service: registration, challenge issuance and answer
//! verification, each one atomic step over the registries.
use vstd::prelude::*;
use uuid::Uuid;
use crate::chaum_pedersen::{
    default_group, ChaumPedersen, ChaumPedersenInterface, GroupView, Parameters,
};
use crate::error::AuthError;
use crate::natural::{be_bytes, be_value, lemma_be_bytes_round_trip, Natural};
use crate::state::{AuthStateView, PedersenChaumAuthServerState};
use vstd::arithmetic::power2::pow2;

verus! {

/// Relies on `Uuid::new_v4` and the hyphenated form that `Uuid`'s `Display`
/// writes: a random identifier of 36 characters, different on every call.
#[verifier::external_body]
fn fresh_id() -> (r: String)
    ensures
        r@.len() == 36,
{
    Uuid::new_v4().to_string()
}

/// The service that the network layer drives. Each operation takes
/// `&mut self`, so a caller that shares the service behind one lock runs
/// every check-and-update as a single step.
pub struct PedersenChaumAuthServer {
    cp_zkp_protocol: ChaumPedersen,
    state: PedersenChaumAuthServerState,
}

impl View for PedersenChaumAuthServer {
    type V = AuthStateView;

    closed spec fn view(&self) -> AuthStateView {
        self.state@
    }
}

impl PedersenChaumAuthServer {
    /// The group the service verifies proofs in.
    pub closed spec fn group(&self) -> GroupView {
        self.cp_zkp_protocol@
    }

    /// The group is usable and the registries are well formed.
    pub closed spec fn wf(&self) -> bool {
        self.cp_zkp_protocol.wf() && self.state@.wf()
    }

    /// A service over the built-in group, with empty registries.
    pub fn new() -> (r: PedersenChaumAuthServer)
        ensures
            r.wf(),
            r@.wf(),
            r@ == AuthStateView::empty(),
            r.group() == default_group(),
    {
        PedersenChaumAuthServer::with_parameters(Parameters::default_group())
    }

    /// A service over the given group, with empty registries.
    pub fn with_parameters(parameters: Parameters) -> (r: PedersenChaumAuthServer)
        requires
            parameters.wf(),
        ensures
            r.wf(),
            r@.wf(),
            r@ == AuthStateView::empty(),
            r.group() == parameters@,
    {
        PedersenChaumAuthServer {
            cp_zkp_protocol: ChaumPedersen::new(parameters),
            state: PedersenChaumAuthServerState::new(),
        }
    }

    /// The engine the service verifies with.
    pub fn protocol(&self) -> (r: &ChaumPedersen)
        ensures
            r@ == self.group(),
    {
        &self.cp_zkp_protocol
    }

    /// The registries.
    pub fn state(&self) -> (r: &PedersenChaumAuthServerState)
        ensures
            r@ == self@,
    {
        &self.state
    }

    /// Registers `user` with the big-endian commitments `y1`, `y2`.
    pub fn register(&mut self, user: String, y1: &[u8], y2: &[u8])
        requires
            old(self).wf(),
        ensures
            final(self).wf(),
            final(self)@.wf(),
            final(self).group() == old(self).group(),
            final(self)@ == old(self)@.register(user@, be_value(y1@), be_value(y2@)),
    {
        let y1 = Natural::from_bytes_be(y1);
        let y2 = Natural::from_bytes_be(y2);
        self.state.register_user(user, y1, y2);
    }

    /// Starts a login round for `user` with the prover's big-endian
    /// commitments `r1`, `r2`: draws a challenge `c` and a fresh challenge
    /// identifier, stores them, and returns the identifier with the bytes of
    /// `c`.
    pub fn create_authentication_challenge(&mut self, user: String, r1: &[u8], r2: &[u8]) -> (r:
        Result<(String, Vec<u8>), AuthError>)
        requires
            old(self).wf(),
        ensures
            final(self).wf(),
            final(self)@.wf(),
            final(self).group() == old(self).group(),
            r is Ok <==> old(self)@.users.contains_key(user@),
            r is Err ==> r->Err_0 == AuthError::UserNotFound,
            r is Err ==> final(self)@ == old(self)@,
            r is Ok ==> ({
                let (id, c) = r->Ok_0;
                &&& c@ == be_bytes(be_value(c@))
                &&& be_value(c@) < pow2(old(self).group().bit_size)
                &&& final(self)@ == old(self)@.issue_challenge(
                    user@,
                    id@,
                    be_value(r1@),
                    be_value(r2@),
                    be_value(c@),
                )
            }),
    {
        let r1 = Natural::from_bytes_be(r1);
        let r2 = Natural::from_bytes_be(r2);
        let c = self.cp_zkp_protocol.generate_random();
        let auth_id = fresh_id();
        let c_bytes = c.to_bytes_be();
        proof {
            lemma_be_bytes_round_trip(c@);
        }
        match self.state.create_authentication_challenge(user, auth_id.clone(), r1, r2, c) {
            Ok(()) => Ok((auth_id, c_bytes)),
            Err(e) => Err(e),
        }
    }

    /// Checks the big-endian response `s` to challenge `auth_id`. On success
    /// the challenge is used up and a new session identifier is returned.
    pub fn verify_authentication(&mut self, auth_id: String, s: &[u8]) -> (r: Result<
        String,
        AuthError,
    >)
        requires
            old(self).wf(),
        ensures
            final(self).wf(),
            final(self)@.wf(),
            final(self).group() == old(self).group(),
            r is Ok <==> old(self)@.answer_error(old(self).group(), auth_id@, be_value(s@)) is None,
            r is Ok ==> final(self)@ == old(self)@.authenticate(auth_id@, r->Ok_0@),
            r is Ok ==> r->Ok_0@.len() == 36,
            r is Err ==> r->Err_0 == old(self)@.answer_error(
                old(self).group(),
                auth_id@,
                be_value(s@),
            )->Some_0,
            r is Err ==> final(self)@ == old(self)@,
    {
        let s = Natural::from_bytes_be(s);
        let session_id = fresh_id();
        match self.state.verify_answer(&self.cp_zkp_protocol, auth_id.as_str(), &s, session_id.clone()) {
            Ok(()) => Ok(session_id),
            Err(e) => Err(e),
        }
    }
}

/// A service over the built-in group, with empty registries.
impl Default for PedersenChaumAuthServer {
    fn default() -> (r: PedersenChaumAuthServer)
        ensures
            r.wf(),
            r@.wf(),
            r@ == AuthStateView::empty(),
            r.group() == default_group(),
    {
        PedersenChaumAuthServer::new()
    }
}

} // verus!
