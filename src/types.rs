use vstd::prelude::*;

verus! {

/// Relies on chrono's `DateTime::<Utc>::from_timestamp` and `to_rfc3339`: the
/// RFC 3339 text of the UTC instant `secs` seconds and `nanos` nanoseconds
/// after the Unix epoch, or nothing when chrono cannot represent that instant.
/// `from_timestamp` fails only for a nanosecond count that is no valid
/// fraction of that second, or for a day outside chrono's calendar (years
/// -262143 to 262142); seconds within 8 * 10^12 of the epoch (about 253,000
/// years) with a fraction under one second are always represented.
#[verifier::external_body]
fn render_rfc3339(secs: i64, nanos: u32) -> (r: Option<String>)
    ensures
        r matches Some(text) ==> text@ == rfc3339_of(secs, nanos),
        representable(secs, nanos) ==> r is Some,
{
    match chrono::DateTime::<chrono::Utc>::from_timestamp(secs, nanos) {
        Some(t) => Some(t.to_rfc3339()),
        None => None,
    }
}

/// The RFC 3339 text that chrono gives the instant `secs`/`nanos` after the epoch.
pub uninterp spec fn rfc3339_of(secs: i64, nanos: u32) -> Seq<char>;

/// Instants that chrono is sure to represent: within 8 * 10^12 seconds of the
/// epoch, with a fraction under one second.
pub open spec fn representable(secs: i64, nanos: u32) -> bool {
    -8_000_000_000_000 <= secs && secs <= 8_000_000_000_000 && nanos < 1_000_000_000
}

/// A UTC instant as seconds and nanoseconds after the Unix epoch, kept with
/// its RFC 3339 text.
pub struct Timestamp {
    secs: i64,
    nanos: u32,
    text: String,
}

impl Timestamp {
    #[verifier::type_invariant]
    spec fn text_matches(self) -> bool {
        self.text@ == rfc3339_of(self.secs, self.nanos)
    }

    pub closed spec fn spec_secs(self) -> i64 {
        self.secs
    }

    pub closed spec fn spec_nanos(self) -> u32 {
        self.nanos
    }

    /// The instant `secs`/`nanos` after the epoch; nothing when it lies
    /// outside the range of calendar dates that chrono represents.
    pub fn from_unix(secs: i64, nanos: u32) -> (r: Option<Timestamp>)
        ensures
            r matches Some(t) ==> t.spec_secs() == secs && t.spec_nanos() == nanos,
            representable(secs, nanos) ==> r is Some,
    {
        match render_rfc3339(secs, nanos) {
            Some(text) => Some(Timestamp { secs, nanos, text }),
            None => None,
        }
    }

    pub fn secs(&self) -> (r: i64)
        ensures
            r == self.spec_secs(),
    {
        self.secs
    }

    pub fn nanos(&self) -> (r: u32)
        ensures
            r == self.spec_nanos(),
    {
        self.nanos
    }

    /// The RFC 3339 text of the instant.
    pub fn rfc3339(&self) -> (r: &str)
        ensures
            r@ == rfc3339_of(self.spec_secs(), self.spec_nanos()),
    {
        proof {
            use_type_invariant(self);
        }
        self.text.as_str()
    }
}

/// A chat message as the message store keeps it, joined with its sender's
/// display name and avatar.
pub struct Message {
    pub id: i32,
    pub content: String,
    pub user_id: i32,
    pub username: String,
    pub timestamp: Timestamp,
    pub profile_picture: Option<String>,
    pub group_id: i32,
}

/// A user as listed among friends or group members.
pub struct Friend {
    pub id: i32,
    pub username: String,
    pub profile_picture: Option<String>,
}

/// A pending friend request, with the username of the user it concerns.
pub struct FriendRequest {
    pub sender_id: i32,
    pub receiver_id: i32,
    pub username: String,
}

/// A request to befriend the user with this username.
pub struct FriendRequestForm {
    pub receiver_username: String,
    pub token: String,
}

/// A request about the friendship with one user.
pub struct FriendForm {
    pub user_id: i32,
    pub token: String,
}

/// A chat group as listed for its members.
pub struct Group {
    pub id: i32,
    pub name: String,
    pub profile_picture: Option<String>,
}

/// A request to create a group with these members.
pub struct CreateGroupForm {
    pub token: String,
    pub group_name: String,
    pub member_ids: Vec<i32>,
}

/// A request to add members to a group.
pub struct AddUsersForm {
    pub token: String,
    pub group_id: i32,
    pub new_member_ids: Vec<i32>,
}

/// A request to remove one member from a group.
pub struct RemoveUserForm {
    pub token: String,
    pub group_id: i32,
    pub remove_id: i32,
}

/// A request to change a group's picture.
pub struct EditPictureForm {
    pub token: String,
    pub group_id: i32,
    pub picture_url: String,
}

/// A request to create a temporary group, open until `end_date`.
pub struct CreateTempGroupForm {
    pub group_name: String,
    pub end_date: String,
    pub password: Option<String>,
    pub token: String,
}

/// A temporary group: its access key, its group, when it ends and its
/// password hash, if it has one.
pub struct TempGroupsInfo {
    pub temp_chat_key: String,
    pub group_id: i32,
    pub end_date: Timestamp,
    pub password: Option<String>,
    pub name: String,
}

/// A request to open an account.
pub struct RegisterForm {
    pub username: String,
    pub email: String,
    pub password: String,
    pub confirm_password: String,
    pub profile_picture: Option<String>,
}

/// A request to log in.
pub struct LoginForm {
    pub username: String,
    pub password: String,
}

} // verus!
