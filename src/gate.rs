use vstd::prelude::*;
use crate::subject::{parse_id, parsed_i32};
use crate::types::Friend;

verus! {

/// Why an upgrade request was refused. Each is answered as unauthorized.
#[derive(PartialEq, Eq, Structural, Debug)]
pub enum Rejection {
    MissingToken,
    InvalidToken,
    NotMember,
}

pub open spec fn rejection_reason(r: Rejection) -> Seq<char> {
    match r {
        Rejection::MissingToken => "Missing authentication token"@,
        Rejection::InvalidToken => "Invalid token"@,
        Rejection::NotMember => "Not a member of this group"@,
    }
}

impl Rejection {
    /// The short human-readable reason sent with the refusal.
    pub fn reason(&self) -> (r: &'static str)
        ensures
            r@ == rejection_reason(*self),
    {
        match self {
            Rejection::MissingToken => "Missing authentication token",
            Rejection::InvalidToken => "Invalid token",
            Rejection::NotMember => "Not a member of this group",
        }
    }
}

/// An authenticated user allowed into a group.
#[derive(PartialEq, Eq, Structural, Debug)]
pub struct Admission {
    pub user_id: i32,
    pub group_id: i32,
}

/// The next thing the upgrade gate needs done.
pub enum GateStep {
    /// Ask the auth service for the subject of this bearer token.
    ResolveToken { token: String, group_id: i32 },
    /// Ask the membership oracle whether the user belongs to the group.
    CheckMembership { user_id: i32, group_id: i32 },
    /// Let the connection become a session.
    Admit(Admission),
    /// Refuse the upgrade.
    Reject(Rejection),
}

/// First step of an upgrade request for `group_id`: a request without a
/// token is refused at once.
pub fn gate_begin(token: Option<String>, group_id: i32) -> (step: GateStep)
    ensures
        match token {
            None => step == GateStep::Reject(Rejection::MissingToken),
            Some(t) => step == (GateStep::ResolveToken { token: t, group_id }),
        },
{
    match token {
        None => GateStep::Reject(Rejection::MissingToken),
        Some(token) => GateStep::ResolveToken { token, group_id },
    }
}

/// Second step: `subject` is the subject claim of the token when the auth
/// service accepted it, nothing when it did not (bad signature, expired).
/// A subject that is not a user id refuses the token too.
pub fn gate_on_subject(subject: Option<&str>, group_id: i32) -> (step: GateStep)
    ensures
        match subject {
            None => step == GateStep::Reject(Rejection::InvalidToken),
            Some(s) => match parsed_i32(s@) {
                Some(user_id) => step == (GateStep::CheckMembership { user_id, group_id }),
                None => step == GateStep::Reject(Rejection::InvalidToken),
            },
        },
{
    match subject {
        None => GateStep::Reject(Rejection::InvalidToken),
        Some(s) => match parse_id(s) {
            Some(user_id) => GateStep::CheckMembership { user_id, group_id },
            None => GateStep::Reject(Rejection::InvalidToken),
        },
    }
}

/// Last step: only a member is admitted.
pub fn gate_on_membership(user_id: i32, group_id: i32, is_member: bool) -> (step: GateStep)
    ensures
        is_member ==> step == GateStep::Admit(Admission { user_id, group_id }),
        !is_member ==> step == GateStep::Reject(Rejection::NotMember),
{
    if is_member {
        GateStep::Admit(Admission { user_id, group_id })
    } else {
        GateStep::Reject(Rejection::NotMember)
    }
}

/// Whether `user_id` is among `members`, the group's member list.
pub open spec fn lists_user(members: Seq<Friend>, user_id: i32) -> bool {
    exists|j: int| 0 <= j < members.len() && #[trigger] members[j].id == user_id
}

/// The membership test over a group's member list.
pub fn is_user_in_group(user_id: i32, members: &Vec<Friend>) -> (r: bool)
    ensures
        r == lists_user(members@, user_id),
{
    let mut i: usize = 0;
    while i < members.len()
        invariant
            i <= members.len(),
            forall|j: int| 0 <= j < i ==> #[trigger] members@[j].id != user_id,
        decreases members.len() - i,
    {
        if members[i].id == user_id {
            return true;
        }
        i = i + 1;
    }
    false
}

} // verus!
