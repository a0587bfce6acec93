//! The server's registries of users, challenges and sessions, and the
//! transitions of the login protocol over them.
use vstd::prelude::*;
use vstd::hash_map::StringHashMap;
use crate::chaum_pedersen::{
    accepts, commitment, response, ChaumPedersen, ChaumPedersenInterface, GroupView,
};
use crate::group::{
    generators_in_subgroup, lemma_completeness, lemma_soundness, lemma_wrong_secret_refused,
    valid_group,
};
use crate::error::AuthError;
use crate::natural::Natural;
use crate::types::{
    copy_opt_string, opt_view, Challenge, ChallengeView, Session, SessionView, User, UserView,
};

verus! {

/// The three registries, as maps from identifiers to records.
pub struct AuthStateView {
    pub users: Map<Seq<char>, UserView>,
    pub challenges: Map<Seq<char>, ChallengeView>,
    pub sessions: Map<Seq<char>, SessionView>,
}

impl AuthStateView {
    /// Records are filed under their own identifiers, every challenge belongs
    /// to a registered user whose outstanding challenge it is, every
    /// outstanding challenge is live, and every session belongs to a
    /// registered user.
    pub open spec fn wf(self) -> bool {
        &&& forall|a: Seq<char>| #[trigger]
            self.challenges.contains_key(a) ==> {
                let owner = self.challenges[a].user_id;
                &&& self.challenges[a].id == a
                &&& self.users.contains_key(owner)
                &&& self.users[owner].auth_id == Some(a)
            }
        &&& forall|u: Seq<char>| #[trigger]
            self.users.contains_key(u) ==> {
                &&& self.users[u].id == u
                &&& (self.users[u].auth_id matches Some(a) ==> self.challenges.contains_key(a)
                    && self.challenges[a].user_id == u)
            }
        &&& forall|t: Seq<char>| #[trigger]
            self.sessions.contains_key(t) ==> self.sessions[t].id == t && self.users.contains_key(
                self.sessions[t].user_id,
            )
    }

    /// No users, challenges or sessions.
    pub open spec fn empty() -> AuthStateView {
        AuthStateView { users: Map::empty(), challenges: Map::empty(), sessions: Map::empty() }
    }

    /// The identifiers of the live challenges that belong to `name`.
    pub open spec fn challenges_of(self, name: Seq<char>) -> Set<Seq<char>> {
        self.challenges.dom().filter(|a: Seq<char>| self.challenges[a].user_id == name)
    }

    /// Registration: `name` gets the commitments `y1`, `y2`, with no
    /// outstanding challenge and no session; a challenge left over from an
    /// earlier registration under the same name is dropped.
    pub open spec fn register(self, name: Seq<char>, y1: nat, y2: nat) -> AuthStateView {
        let challenges = if self.users.contains_key(name) && self.users[name].auth_id is Some {
            self.challenges.remove(self.users[name].auth_id->Some_0)
        } else {
            self.challenges
        };
        AuthStateView {
            users: self.users.insert(
                name,
                UserView { id: name, y1, y2, auth_id: None, session_id: None },
            ),
            challenges,
            sessions: self.sessions,
        }
    }

    /// Why a challenge cannot be issued to `name`, if it cannot.
    pub open spec fn challenge_error(self, name: Seq<char>) -> Option<AuthError> {
        if !self.users.contains_key(name) {
            Some(AuthError::UserNotFound)
        } else {
            None
        }
    }

    /// Issuing challenge `id` to `name`: it replaces the user's outstanding
    /// challenge, if any. A live challenge of another user that held the same
    /// identifier is replaced too, and that user is left with none
    /// outstanding.
    pub open spec fn issue_challenge(
        self,
        name: Seq<char>,
        id: Seq<char>,
        r1: nat,
        r2: nat,
        c: nat,
    ) -> AuthStateView {
        let user = self.users[name];
        let challenges = match user.auth_id {
            Some(old) => self.challenges.remove(old),
            None => self.challenges,
        };
        let users = if self.challenges.contains_key(id) && self.challenges[id].user_id != name {
            let holder = self.challenges[id].user_id;
            let other = self.users[holder];
            self.users.insert(
                holder,
                UserView {
                    id: other.id,
                    y1: other.y1,
                    y2: other.y2,
                    auth_id: None,
                    session_id: other.session_id,
                },
            )
        } else {
            self.users
        };
        AuthStateView {
            users: users.insert(
                name,
                UserView {
                    id: user.id,
                    y1: user.y1,
                    y2: user.y2,
                    auth_id: Some(id),
                    session_id: user.session_id,
                },
            ),
            challenges: challenges.insert(id, ChallengeView { id, user_id: name, r1, r2, c }),
            sessions: self.sessions,
        }
    }

    /// Why a session cannot be opened for `name`, if it cannot.
    pub open spec fn session_error(self, name: Seq<char>) -> Option<AuthError> {
        if !self.users.contains_key(name) {
            Some(AuthError::UserNotFound)
        } else {
            None
        }
    }

    /// Opening session `sid` for `name`.
    pub open spec fn open_session(self, name: Seq<char>, sid: Seq<char>) -> AuthStateView {
        let user = self.users[name];
        AuthStateView {
            users: self.users.insert(
                name,
                UserView {
                    id: user.id,
                    y1: user.y1,
                    y2: user.y2,
                    auth_id: user.auth_id,
                    session_id: Some(sid),
                },
            ),
            challenges: self.challenges,
            sessions: self.sessions.insert(sid, SessionView { id: sid, user_id: name }),
        }
    }

    /// Why the response `s` to challenge `id` is refused, if it is.
    pub open spec fn answer_error(self, grp: GroupView, id: Seq<char>, s: nat) -> Option<AuthError> {
        if !self.challenges.contains_key(id) {
            Some(AuthError::ChallengeNotFound)
        } else if !self.users.contains_key(self.challenges[id].user_id) {
            Some(AuthError::UserNotFound)
        } else {
            let ch = self.challenges[id];
            let user = self.users[ch.user_id];
            if accepts(grp, user.y1, user.y2, ch.r1, ch.r2, s, ch.c) {
                None
            } else {
                Some(AuthError::VerificationFailed)
            }
        }
    }

    /// A correct answer to challenge `id`: the challenge is used up and
    /// session `sid` is opened for its owner.
    pub open spec fn authenticate(self, id: Seq<char>, sid: Seq<char>) -> AuthStateView {
        let name = self.challenges[id].user_id;
        let user = self.users[name];
        AuthStateView {
            users: self.users.insert(
                name,
                UserView {
                    id: user.id,
                    y1: user.y1,
                    y2: user.y2,
                    auth_id: None,
                    session_id: Some(sid),
                },
            ),
            challenges: self.challenges.remove(id),
            sessions: self.sessions.insert(sid, SessionView { id: sid, user_id: name }),
        }
    }
}

/// Issuing a challenge keeps the registries well formed.
pub proof fn lemma_issue_challenge_wf(
    st: AuthStateView,
    name: Seq<char>,
    id: Seq<char>,
    r1: nat,
    r2: nat,
    c: nat,
)
    requires
        st.wf(),
        st.users.contains_key(name),
    ensures
        st.issue_challenge(name, id, r1, r2, c).wf(),
{
}

/// Challenge supersession: after two challenges are issued to the same
/// user, only the second is live for that user, and an answer to the first
/// is refused because no such challenge exists.
pub proof fn lemma_challenge_supersession(
    st: AuthStateView,
    grp: GroupView,
    name: Seq<char>,
    first: Seq<char>,
    second: Seq<char>,
    r1: nat,
    r2: nat,
    c: nat,
    r1_again: nat,
    r2_again: nat,
    c_again: nat,
    s: nat,
)
    requires
        st.wf(),
        st.users.contains_key(name),
        first != second,
    ensures
        ({
            let after = st.issue_challenge(name, first, r1, r2, c).issue_challenge(
                name,
                second,
                r1_again,
                r2_again,
                c_again,
            );
            &&& after.challenges_of(name) == set![second]
            &&& after.answer_error(grp, first, s) == Some(AuthError::ChallengeNotFound)
        }),
{
    let mid = st.issue_challenge(name, first, r1, r2, c);
    lemma_issue_challenge_wf(st, name, first, r1, r2, c);
    let after = mid.issue_challenge(name, second, r1_again, r2_again, c_again);
    assert(after.challenges_of(name) =~= set![second]);
}

/// Registration comes first: for a name that was never registered, issuing
/// a challenge and opening a session are both refused with `UserNotFound`,
/// and no live challenge belongs to it, so no answer can act for it.
pub proof fn lemma_unregistered_user_refused(
    st: AuthStateView,
    grp: GroupView,
    name: Seq<char>,
    id: Seq<char>,
    s: nat,
)
    requires
        st.wf(),
        !st.users.contains_key(name),
    ensures
        st.challenge_error(name) == Some(AuthError::UserNotFound),
        st.session_error(name) == Some(AuthError::UserNotFound),
        st.challenges_of(name) == Set::<Seq<char>>::empty(),
        st.answer_error(grp, id, s) is None ==> st.challenges[id].user_id != name,
{
    assert(st.challenges_of(name) =~= Set::<Seq<char>>::empty());
}

/// Completeness of a login: in a group whose generators have order `q`, a
/// user who registers `(g^x, h^x)`, commits to `(g^k, h^k)` and answers the
/// challenge `c` with `(k - c * x) mod q` is accepted.
pub proof fn lemma_login_completeness(
    st: AuthStateView,
    grp: GroupView,
    name: Seq<char>,
    id: Seq<char>,
    x: nat,
    k: nat,
    c: nat,
)
    requires
        st.wf(),
        generators_in_subgroup(grp),
    ensures
        st.register(name, commitment(grp, x).0, commitment(grp, x).1).issue_challenge(
            name,
            id,
            commitment(grp, k).0,
            commitment(grp, k).1,
            c,
        ).answer_error(grp, id, response(grp, x, k, c)) is None,
{
    lemma_completeness(grp, x, k, c);
}

/// Soundness of a login: in a valid group, once a user has registered
/// `(g^x, h^x)` and committed to `(g^k, h^k)` for challenge `c`, a response
/// that differs from `(k - c * x) mod q` modulo `q` is refused as a failed
/// verification; so is the honest response for a secret that differs from
/// `x` modulo `q`, when `c` is not 0 modulo `q`.
pub proof fn lemma_login_soundness(
    st: AuthStateView,
    grp: GroupView,
    name: Seq<char>,
    id: Seq<char>,
    x: nat,
    other: nat,
    k: nat,
    c: nat,
    s: nat,
)
    requires
        st.wf(),
        valid_group(grp),
    ensures
        ({
            let after = st.register(name, commitment(grp, x).0, commitment(grp, x).1).issue_challenge(
                name,
                id,
                commitment(grp, k).0,
                commitment(grp, k).1,
                c,
            );
            &&& s % grp.q != response(grp, x, k, c) ==> after.answer_error(grp, id, s) == Some(
                AuthError::VerificationFailed,
            )
            &&& (x % grp.q != other % grp.q && c % grp.q != 0) ==> after.answer_error(
                grp,
                id,
                response(grp, other, k, c),
            ) == Some(AuthError::VerificationFailed)
        }),
{
    if s % grp.q != response(grp, x, k, c) {
        lemma_soundness(grp, x, k, c, s);
    }
    if x % grp.q != other % grp.q && c % grp.q != 0 {
        lemma_wrong_secret_refused(grp, x, other, k, c);
    }
}

/// The server's registries.
pub struct PedersenChaumAuthServerState {
    users: StringHashMap<User>,
    challenges: StringHashMap<Challenge>,
    sessions: StringHashMap<Session>,
}

impl View for PedersenChaumAuthServerState {
    type V = AuthStateView;

    closed spec fn view(&self) -> AuthStateView {
        AuthStateView {
            users: self.users@.map_values(|u: User| u@),
            challenges: self.challenges@.map_values(|c: Challenge| c@),
            sessions: self.sessions@.map_values(|t: Session| t@),
        }
    }
}

impl PedersenChaumAuthServerState {
    /// Empty registries.
    pub fn new() -> (r: PedersenChaumAuthServerState)
        ensures
            r@ == AuthStateView::empty(),
            r@.wf(),
    {
        let r = PedersenChaumAuthServerState {
            users: StringHashMap::new(),
            challenges: StringHashMap::new(),
            sessions: StringHashMap::new(),
        };
        assert(r@.users =~= Map::empty());
        assert(r@.challenges =~= Map::empty());
        assert(r@.sessions =~= Map::empty());
        r
    }

    /// Registers `user_name` with the commitments `y1`, `y2`, replacing any
    /// earlier registration under that name.
    pub fn register_user(&mut self, user_name: String, y1: Natural, y2: Natural)
        requires
            old(self)@.wf(),
        ensures
            final(self)@ == old(self)@.register(user_name@, y1@, y2@),
            final(self)@.wf(),
    {
        let ghost before = self@;
        let outstanding = match self.users.get(user_name.as_str()) {
            Some(user) => copy_opt_string(&user.auth_id),
            None => None,
        };
        match &outstanding {
            Some(a) => {
                self.challenges.remove(a.as_str());
            },
            None => {},
        }
        let user = User { id: user_name.clone(), y1, y2, auth_id: None, session_id: None };
        self.users.insert(user_name, user);
        let ghost after = before.register(user_name@, y1@, y2@);
        assert(self@.users =~= after.users);
        assert(self@.challenges =~= after.challenges);
        assert(self@.sessions =~= after.sessions);
    }

    /// Opens challenge `auth_id` for the registered user `user_name`, with the
    /// prover's commitments `r1`, `r2` and the challenge `c`; the user's
    /// previous challenge, if any, is withdrawn.
    pub fn create_authentication_challenge(
        &mut self,
        user_name: String,
        auth_id: String,
        r1: Natural,
        r2: Natural,
        c: Natural,
    ) -> (r: Result<(), AuthError>)
        requires
            old(self)@.wf(),
        ensures
            final(self)@.wf(),
            r is Ok <==> old(self)@.challenge_error(user_name@) is None,
            r is Ok ==> final(self)@ == old(self)@.issue_challenge(
                user_name@,
                auth_id@,
                r1@,
                r2@,
                c@,
            ),
            r is Err ==> r == Err::<(), AuthError>(
                old(self)@.challenge_error(user_name@)->Some_0,
            ),
            r is Err ==> final(self)@ == old(self)@,
    {
        let ghost before = self@;
        let user = match self.users.get(user_name.as_str()) {
            Some(user) => user.copy_record(),
            None => {
                return Err(AuthError::UserNotFound);
            },
        };
        let holder = match self.challenges.get(auth_id.as_str()) {
            Some(previous) => Some(previous.user_id.clone()),
            None => None,
        };
        match holder {
            Some(holder) => {
                if !(holder == user_name) {
                    let other = match self.users.get(holder.as_str()) {
                        Some(other) => Some(other.copy_record()),
                        None => None,
                    };
                    match other {
                        Some(other) => {
                            let cleared = User {
                                id: other.id,
                                y1: other.y1,
                                y2: other.y2,
                                auth_id: None,
                                session_id: other.session_id,
                            };
                            self.users.insert(holder, cleared);
                        },
                        None => {},
                    }
                }
            },
            None => {},
        }
        match &user.auth_id {
            Some(old_id) => {
                self.challenges.remove(old_id.as_str());
            },
            None => {},
        }
        let challenge = Challenge {
            id: auth_id.clone(),
            c,
            r1,
            r2,
            user_id: user_name.clone(),
        };
        self.challenges.insert(auth_id.clone(), challenge);
        let updated = User {
            id: user.id,
            y1: user.y1,
            y2: user.y2,
            auth_id: Some(auth_id),
            session_id: user.session_id,
        };
        self.users.insert(user_name, updated);
        let ghost after = before.issue_challenge(user_name@, auth_id@, r1@, r2@, c@);
        assert(self@.users =~= after.users);
        assert(self@.challenges =~= after.challenges);
        assert(self@.sessions =~= after.sessions);
        Ok(())
    }

    /// Opens session `session_id` for the registered user `user_name`.
    pub fn create_session(&mut self, user_name: String, session_id: String) -> (r: Result<
        (),
        AuthError,
    >)
        requires
            old(self)@.wf(),
        ensures
            final(self)@.wf(),
            r is Ok <==> old(self)@.session_error(user_name@) is None,
            r is Ok ==> final(self)@ == old(self)@.open_session(user_name@, session_id@),
            r is Err ==> r == Err::<(), AuthError>(old(self)@.session_error(user_name@)->Some_0),
            r is Err ==> final(self)@ == old(self)@,
    {
        let ghost before = self@;
        let user = match self.users.get(user_name.as_str()) {
            Some(user) => user.copy_record(),
            None => {
                return Err(AuthError::UserNotFound);
            },
        };
        let updated = User {
            id: user.id,
            y1: user.y1,
            y2: user.y2,
            auth_id: user.auth_id,
            session_id: Some(session_id.clone()),
        };
        self.users.insert(user_name.clone(), updated);
        self.sessions.insert(session_id.clone(), Session { id: session_id, user_id: user_name });
        let ghost after = before.open_session(user_name@, session_id@);
        assert(self@.users =~= after.users);
        assert(self@.challenges =~= after.challenges);
        assert(self@.sessions =~= after.sessions);
        Ok(())
    }

    /// Checks the response `s` to challenge `auth_id` against the owner's
    /// registered commitments. A correct response uses the challenge up and
    /// opens session `session_id` for the owner; a refused one changes
    /// nothing.
    pub fn verify_answer(
        &mut self,
        engine: &ChaumPedersen,
        auth_id: &str,
        s: &Natural,
        session_id: String,
    ) -> (r: Result<(), AuthError>)
        requires
            old(self)@.wf(),
            engine.wf(),
        ensures
            final(self)@.wf(),
            r is Ok <==> old(self)@.answer_error(engine@, auth_id@, s@) is None,
            r is Ok ==> final(self)@ == old(self)@.authenticate(auth_id@, session_id@),
            r is Err ==> r == Err::<(), AuthError>(
                old(self)@.answer_error(engine@, auth_id@, s@)->Some_0,
            ),
            r is Err ==> final(self)@ == old(self)@,
    {
        let ghost before = self@;
        let challenge = match self.challenges.get(auth_id) {
            Some(challenge) => challenge.copy_record(),
            None => {
                return Err(AuthError::ChallengeNotFound);
            },
        };
        let user = match self.users.get(challenge.user_id.as_str()) {
            Some(user) => user.copy_record(),
            None => {
                return Err(AuthError::UserNotFound);
            },
        };
        match engine.verify(&user.y1, &user.y2, &challenge.r1, &challenge.r2, s, &challenge.c) {
            Ok(()) => {},
            Err(e) => {
                return Err(e);
            },
        }
        self.challenges.remove(auth_id);
        let updated = User {
            id: user.id,
            y1: user.y1,
            y2: user.y2,
            auth_id: None,
            session_id: Some(session_id.clone()),
        };
        self.users.insert(challenge.user_id.clone(), updated);
        let session = Session { id: session_id.clone(), user_id: challenge.user_id };
        self.sessions.insert(session_id, session);
        let ghost after = before.authenticate(auth_id@, session_id@);
        assert(self@.users =~= after.users);
        assert(self@.challenges =~= after.challenges);
        assert(self@.sessions =~= after.sessions);
        Ok(())
    }

    /// The record of user `name`, if registered.
    pub fn user(&self, name: &str) -> (r: Option<&User>)
        ensures
            r is Some <==> self@.users.contains_key(name@),
            r is Some ==> r->Some_0@ == self@.users[name@],
    {
        self.users.get(name)
    }

    /// The live challenge `id`, if any.
    pub fn challenge(&self, id: &str) -> (r: Option<&Challenge>)
        ensures
            r is Some <==> self@.challenges.contains_key(id@),
            r is Some ==> r->Some_0@ == self@.challenges[id@],
    {
        self.challenges.get(id)
    }

    /// Session `id`, if it was granted.
    pub fn session(&self, id: &str) -> (r: Option<&Session>)
        ensures
            r is Some <==> self@.sessions.contains_key(id@),
            r is Some ==> r->Some_0@ == self@.sessions[id@],
    {
        self.sessions.get(id)
    }

    /// The number of registered users.
    pub fn user_count(&self) -> (r: usize)
        ensures
            r == self@.users.len(),
    {
        assert(self@.users.dom() =~= self.users@.dom());
        self.users.len()
    }

    /// The number of live challenges.
    pub fn challenge_count(&self) -> (r: usize)
        ensures
            r == self@.challenges.len(),
    {
        assert(self@.challenges.dom() =~= self.challenges@.dom());
        self.challenges.len()
    }

    /// The number of sessions granted.
    pub fn session_count(&self) -> (r: usize)
        ensures
            r == self@.sessions.len(),
    {
        assert(self@.sessions.dom() =~= self.sessions@.dom());
        self.sessions.len()
    }
}

} // verus!
