//! The records kept by the authentication server.
use vstd::prelude::*;
use crate::natural::Natural;

verus! {

/// The view of an optional string.
pub open spec fn opt_view(o: Option<String>) -> Option<Seq<char>> {
    match o {
        Some(s) => Some(s@),
        None => None,
    }
}

/// A second copy of an optional string.
pub fn copy_opt_string(o: &Option<String>) -> (r: Option<String>)
    ensures
        opt_view(r) == opt_view(*o),
{
    match o {
        Some(s) => Some(s.clone()),
        None => None,
    }
}

/// A registered user: the public commitments `y1 = g^x`, `y2 = h^x` to a
/// secret `x`, the identifier of the one outstanding challenge, and the most
/// recent session granted.
#[derive(Clone, Debug, PartialEq, Eq)]
pub struct User {
    pub id: String,
    pub y1: Natural,
    pub y2: Natural,
    pub auth_id: Option<String>,
    pub session_id: Option<String>,
}

/// The content of a `User`.
pub struct UserView {
    pub id: Seq<char>,
    pub y1: nat,
    pub y2: nat,
    pub auth_id: Option<Seq<char>>,
    pub session_id: Option<Seq<char>>,
}

impl View for User {
    type V = UserView;

    open spec fn view(&self) -> UserView {
        UserView {
            id: self.id@,
            y1: self.y1@,
            y2: self.y2@,
            auth_id: opt_view(self.auth_id),
            session_id: opt_view(self.session_id),
        }
    }
}

/// A login round in progress: the prover's commitments `r1 = g^k`,
/// `r2 = h^k` and the challenge `c` the server chose.
#[derive(Clone, Debug, PartialEq, Eq)]
pub struct Challenge {
    pub id: String,
    pub c: Natural,
    pub r1: Natural,
    pub r2: Natural,
    pub user_id: String,
}

/// The content of a `Challenge`.
pub struct ChallengeView {
    pub id: Seq<char>,
    pub user_id: Seq<char>,
    pub r1: nat,
    pub r2: nat,
    pub c: nat,
}

impl View for Challenge {
    type V = ChallengeView;

    open spec fn view(&self) -> ChallengeView {
        ChallengeView {
            id: self.id@,
            user_id: self.user_id@,
            r1: self.r1@,
            r2: self.r2@,
            c: self.c@,
        }
    }
}

/// A session granted after a successful proof.
#[derive(Clone, Debug, PartialEq, Eq)]
pub struct Session {
    pub id: String,
    pub user_id: String,
}

/// The content of a `Session`.
pub struct SessionView {
    pub id: Seq<char>,
    pub user_id: Seq<char>,
}

impl View for Session {
    type V = SessionView;

    open spec fn view(&self) -> SessionView {
        SessionView { id: self.id@, user_id: self.user_id@ }
    }
}

impl User {
    /// A second copy of this record.
    pub fn copy_record(&self) -> (r: User)
        ensures
            r@ == self@,
    {
        User {
            id: self.id.clone(),
            y1: self.y1.copy_value(),
            y2: self.y2.copy_value(),
            auth_id: copy_opt_string(&self.auth_id),
            session_id: copy_opt_string(&self.session_id),
        }
    }
}

impl Challenge {
    /// A second copy of this record.
    pub fn copy_record(&self) -> (r: Challenge)
        ensures
            r@ == self@,
    {
        Challenge {
            id: self.id.clone(),
            c: self.c.copy_value(),
            r1: self.r1.copy_value(),
            r2: self.r2.copy_value(),
            user_id: self.user_id.clone(),
        }
    }
}

impl Session {
    /// A second copy of this record.
    pub fn copy_record(&self) -> (r: Session)
        ensures
            r@ == self@,
    {
        Session { id: self.id.clone(), user_id: self.user_id.clone() }
    }
}

} // verus!
