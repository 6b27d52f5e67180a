//! Real-time group chat hub: the registry of live connections per group, the
//! dispatcher that stores and fans out messages, the upgrade gate, the
//! session lifecycle, and the wire format of outbound frames.

mod channel;
mod dispatch;
mod frame;
mod gate;
mod laws;
mod registry;
mod rules;
mod session;
mod subject;
mod types;

pub use dispatch::{handle_stored, AppendRequest, DispatchOutcome, StoreError};
pub use frame::{append_decimal, encode_frame};
pub use gate::{
    gate_begin, gate_on_membership, gate_on_subject, is_user_in_group, Admission, GateStep,
    Rejection,
};
pub use laws::{
    lemma_fan_out_reaches_exactly_the_group, lemma_no_dangling_groups,
    lemma_no_delivery_after_deregister, lemma_sends_keep_their_order,
    lemma_stored_message_reaches_every_member, RegistryOp,
};
pub use registry::{ConnectionRegistry, Delivery};
pub use rules::{
    check_friend_request, check_password, is_open_at, members_with_creator, passwords_match, split_open,
    temp_access, temp_access_with_verdict, FriendRequestRefusal, TempAccessRefusal,
};
pub use session::{ExitAction, Inbound, LoopSide, Phase, ReadStep, Session};
pub use subject::parse_id;
pub use types::{
    AddUsersForm, CreateGroupForm, CreateTempGroupForm, EditPictureForm, Friend, FriendForm,
    FriendRequest, FriendRequestForm, Group, LoginForm, Message, RegisterForm, RemoveUserForm,
    TempGroupsInfo, Timestamp,
};
