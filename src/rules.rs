use vstd::prelude::*;
use crate::types::{Friend, RegisterForm, TempGroupsInfo, Timestamp};

verus! {

/// Whether `password` matches the bcrypt `hash`, as bcrypt decides it.
pub uninterp spec fn bcrypt_accepts(password: Seq<char>, hash: Seq<char>) -> bool;

/// Relies on `bcrypt::verify`: whether `password` hashes to `hash` under the
/// salt and cost that `hash` carries. A malformed hash accepts nothing.
#[verifier::external_body]
fn bcrypt_matches(password: &str, hash: &str) -> (r: bool)
    ensures
        r == bcrypt_accepts(password@, hash@),
{
    bcrypt::verify(password, hash).unwrap_or(false)
}

/// Whether `password` is the one that the stored bcrypt `hash` was made from.
pub fn check_password(password: &str, hash: &str) -> (r: bool)
    ensures
        r == bcrypt_accepts(password@, hash@),
{
    bcrypt_matches(password, hash)
}

/// Whether the account form confirms its password.
pub fn passwords_match(form: &RegisterForm) -> (r: bool)
    ensures
        r == (form.password@ == form.confirm_password@),
{
    form.password == form.confirm_password
}

/// The member list of a new group: the chosen members, then its creator.
pub fn members_with_creator(member_ids: Vec<i32>, creator: i32) -> (r: Vec<i32>)
    ensures
        r@ == member_ids@.push(creator),
{
    let mut r = member_ids;
    r.push(creator);
    r
}

/// Why a friend request is not sent.
#[derive(PartialEq, Eq, Structural, Debug)]
pub enum FriendRequestRefusal {
    /// No user has the requested username.
    UserNotFound,
    /// The request names its own sender.
    SelfRequest,
    /// The two users are friends already.
    AlreadyFriends,
}

pub open spec fn has_friend(friends: Seq<Friend>, id: i32) -> bool {
    exists|j: int| 0 <= j < friends.len() && #[trigger] friends[j].id == id
}

/// Decides a friend request from `sender_id` to the user found under the
/// requested username (`receiver_id`, nothing when no user has it), given
/// the sender's current friends. Returns the receiver to ask.
pub fn check_friend_request(sender_id: i32, receiver_id: Option<i32>, friends: &Vec<Friend>) -> (r: Result<i32, FriendRequestRefusal>)
    ensures
        match receiver_id {
            None => r == Err::<i32, FriendRequestRefusal>(FriendRequestRefusal::UserNotFound),
            Some(id) => if id == sender_id {
                r == Err::<i32, FriendRequestRefusal>(FriendRequestRefusal::SelfRequest)
            } else if has_friend(friends@, id) {
                r == Err::<i32, FriendRequestRefusal>(FriendRequestRefusal::AlreadyFriends)
            } else {
                r == Ok::<i32, FriendRequestRefusal>(id)
            },
        },
{
    match receiver_id {
        None => Err(FriendRequestRefusal::UserNotFound),
        Some(id) => {
            if id == sender_id {
                return Err(FriendRequestRefusal::SelfRequest);
            }
            let mut i: usize = 0;
            while i < friends.len()
                invariant
                    receiver_id == Some(id),
                    id != sender_id,
                    i <= friends.len(),
                    forall|j: int| 0 <= j < i ==> #[trigger] friends@[j].id != id,
                decreases friends.len() - i,
            {
                if friends[i].id == id {
                    assert(friends@[i as int].id == id);
                    return Err(FriendRequestRefusal::AlreadyFriends);
                }
                i = i + 1;
            }
            Ok(id)
        },
    }
}

/// Whether instant `a` comes strictly after instant `b`.
pub open spec fn later_than(a: Timestamp, b: Timestamp) -> bool {
    a.spec_secs() > b.spec_secs() || (a.spec_secs() == b.spec_secs() && a.spec_nanos() > b.spec_nanos())
}

/// Whether a temporary group ending at `end` is still open at `now`.
pub fn is_open_at(end: &Timestamp, now: &Timestamp) -> (r: bool)
    ensures
        r == later_than(*end, *now),
{
    let (es, en) = (end.secs(), end.nanos());
    let (ns, nn) = (now.secs(), now.nanos());
    es > ns || (es == ns && en > nn)
}

/// Splits temporary groups into those still open at `now`, in their order,
/// and the ids of the groups of those that have ended, in their order.
pub fn split_open(chats: Vec<TempGroupsInfo>, now: &Timestamp) -> (r: (Vec<TempGroupsInfo>, Vec<i32>))
    ensures
        r.0@ == chats@.filter(|c: TempGroupsInfo| later_than(c.end_date, *now)),
        r.1@ == chats@.filter(|c: TempGroupsInfo| !later_than(c.end_date, *now)).map_values(
            |c: TempGroupsInfo| c.group_id,
        ),
{
    let ghost all = chats@;
    let mut open: Vec<TempGroupsInfo> = Vec::new();
    let mut ended: Vec<i32> = Vec::new();
    for chat in it: chats.into_iter()
        invariant
            it.seq() == all,
            open@ == all.take(it.index()).filter(|c: TempGroupsInfo| later_than(c.end_date, *now)),
            ended@ == all.take(it.index()).filter(|c: TempGroupsInfo| !later_than(c.end_date, *now))
                .map_values(|c: TempGroupsInfo| c.group_id),
    {
        let ghost k = it.index();
        proof {
            assert(chat == all[k]);
            assert(all.take(k + 1).drop_last() =~= all.take(k));
            assert(all.take(k + 1).last() == chat);
            reveal(Seq::filter);
        }
        if is_open_at(&chat.end_date, now) {
            open.push(chat);
        } else {
            ended.push(chat.group_id);
        }
    }
    proof {
        assert(all.take(all.len() as int) =~= all);
    }
    (open, ended)
}

/// Why access to a temporary group is refused.
#[derive(PartialEq, Eq, Structural, Debug)]
pub enum TempAccessRefusal {
    /// The group's end date has passed.
    Ended,
    /// The group has a password and none was given.
    PasswordRequired,
    /// The given password does not match.
    WrongPassword,
}

/// Access to the temporary group `info` at `now`, once the password has been
/// checked: `verdict` is what the password check answered, nothing when no
/// password was given.
pub fn temp_access_with_verdict(info: &TempGroupsInfo, now: &Timestamp, verdict: Option<bool>) -> (r: Result<(), TempAccessRefusal>)
    ensures
        !later_than(info.end_date, *now) ==> r == Err::<(), TempAccessRefusal>(TempAccessRefusal::Ended),
        later_than(info.end_date, *now) && info.password is None ==> r is Ok,
        later_than(info.end_date, *now) && info.password is Some ==> match verdict {
            None => r == Err::<(), TempAccessRefusal>(TempAccessRefusal::PasswordRequired),
            Some(true) => r is Ok,
            Some(false) => r == Err::<(), TempAccessRefusal>(TempAccessRefusal::WrongPassword),
        },
{
    if !is_open_at(&info.end_date, now) {
        return Err(TempAccessRefusal::Ended);
    }
    match &info.password {
        None => Ok(()),
        Some(_) => match verdict {
            None => Err(TempAccessRefusal::PasswordRequired),
            Some(true) => Ok(()),
            Some(false) => Err(TempAccessRefusal::WrongPassword),
        },
    }
}

/// Access to the temporary group `info` at `now` with the given password: an
/// ended group is refused; a group with a password hash wants a password that
/// bcrypt accepts against it.
pub fn temp_access(info: &TempGroupsInfo, now: &Timestamp, password: Option<&str>) -> (r: Result<(), TempAccessRefusal>)
    ensures
        !later_than(info.end_date, *now) ==> r == Err::<(), TempAccessRefusal>(TempAccessRefusal::Ended),
        later_than(info.end_date, *now) ==> match info.password {
            None => r is Ok,
            Some(hash) => match password {
                None => r == Err::<(), TempAccessRefusal>(TempAccessRefusal::PasswordRequired),
                Some(p) => if bcrypt_accepts(p@, hash@) {
                    r is Ok
                } else {
                    r == Err::<(), TempAccessRefusal>(TempAccessRefusal::WrongPassword)
                },
            },
        },
{
    let verdict = match (&info.password, password) {
        (Some(hash), Some(p)) => Some(bcrypt_matches(p, hash.as_str())),
        _ => None,
    };
    temp_access_with_verdict(info, now, verdict)
}

} // verus!
