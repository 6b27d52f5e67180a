use gchat::{
    check_friend_request, is_open_at, members_with_creator, passwords_match, split_open,
    temp_access, temp_access_with_verdict, Friend, FriendRequestRefusal, RegisterForm,
    TempAccessRefusal, TempGroupsInfo, Timestamp,
};

fn at(secs: i64, nanos: u32) -> Timestamp {
    Timestamp::from_unix(secs, nanos).unwrap()
}

fn temp(group_id: i32, end: i64, password: Option<String>) -> TempGroupsInfo {
    TempGroupsInfo {
        temp_chat_key: format!("key-{}", group_id),
        group_id,
        end_date: at(end, 0),
        password,
        name: format!("room {}", group_id),
    }
}

fn friend(id: i32) -> Friend {
    Friend { id, username: format!("user{}", id), profile_picture: None }
}

#[test]
fn registration_needs_matching_passwords() {
    let mut form = RegisterForm {
        username: "alice".to_string(),
        email: "a@example.com".to_string(),
        password: "one".to_string(),
        confirm_password: "one".to_string(),
        profile_picture: None,
    };
    assert!(passwords_match(&form));
    form.confirm_password = "two".to_string();
    assert!(!passwords_match(&form));
}

#[test]
fn creator_joins_the_new_group_last() {
    assert_eq!(members_with_creator(vec![4, 5], 9), vec![4, 5, 9]);
    assert_eq!(members_with_creator(Vec::new(), 9), vec![9]);
}

#[test]
fn friend_request_checks() {
    let friends = vec![friend(2), friend(3)];
    assert_eq!(check_friend_request(1, None, &friends), Err(FriendRequestRefusal::UserNotFound));
    assert_eq!(check_friend_request(1, Some(1), &friends), Err(FriendRequestRefusal::SelfRequest));
    assert_eq!(check_friend_request(1, Some(3), &friends), Err(FriendRequestRefusal::AlreadyFriends));
    assert_eq!(check_friend_request(1, Some(4), &friends), Ok(4));
}

#[test]
fn temp_groups_end_strictly_at_their_end_date() {
    assert!(is_open_at(&at(100, 0), &at(99, 999_999_999)));
    assert!(is_open_at(&at(100, 5), &at(100, 4)));
    assert!(!is_open_at(&at(100, 0), &at(100, 0)));
    assert!(!is_open_at(&at(100, 0), &at(101, 0)));
}

#[test]
fn ended_temp_groups_are_split_off() {
    let chats = vec![temp(1, 50, None), temp(2, 500, None), temp(3, 100, None), temp(4, 1000, None)];
    let (open, ended) = split_open(chats, &at(100, 0));
    let open_ids: Vec<i32> = open.iter().map(|c| c.group_id).collect();
    assert_eq!(open_ids, vec![2, 4]);
    assert_eq!(ended, vec![1, 3]);
    let (open, ended) = split_open(Vec::new(), &at(100, 0));
    assert!(open.is_empty());
    assert!(ended.is_empty());
}

#[test]
fn temp_access_decisions() {
    let hash = bcrypt::hash("letmein", 4).unwrap();
    let now = at(1_000, 0);
    let locked = temp(1, 2_000, Some(hash));
    assert_eq!(temp_access(&locked, &now, Some("letmein")), Ok(()));
    assert_eq!(temp_access(&locked, &now, Some("wrong")), Err(TempAccessRefusal::WrongPassword));
    assert_eq!(temp_access(&locked, &now, None), Err(TempAccessRefusal::PasswordRequired));
    assert_eq!(temp_access(&locked, &at(2_000, 0), Some("letmein")), Err(TempAccessRefusal::Ended));
    let public = temp(2, 2_000, None);
    assert_eq!(temp_access(&public, &now, None), Ok(()));
    assert_eq!(temp_access(&public, &now, Some("anything")), Ok(()));
    let broken = temp(3, 2_000, Some("not a hash".to_string()));
    assert_eq!(temp_access(&broken, &now, Some("letmein")), Err(TempAccessRefusal::WrongPassword));
}

#[test]
fn temp_access_from_a_verdict() {
    let now = at(1_000, 0);
    let locked = temp(1, 2_000, Some("h".to_string()));
    assert_eq!(temp_access_with_verdict(&locked, &now, Some(true)), Ok(()));
    assert_eq!(temp_access_with_verdict(&locked, &now, Some(false)), Err(TempAccessRefusal::WrongPassword));
    assert_eq!(temp_access_with_verdict(&locked, &now, None), Err(TempAccessRefusal::PasswordRequired));
    assert_eq!(temp_access_with_verdict(&temp(2, 10, None), &now, None), Err(TempAccessRefusal::Ended));
}
