use lc_login::dirs::{decimal, file_name, join_path, parent, strip_root};
use lc_login::error::StoreError;
use lc_login::groups::GroupHandle;
use lc_login::idlist::{
    parse_decimal, parse_id_list, render_id_list, with_id_added, with_id_removed,
};
use lc_login::users::{
    groups_file_with, groups_file_without, groups_from_file, id_from_link, name_from_link,
    UserHandle,
};

#[test]
fn handles_by_uid() {
    assert_eq!(UserHandle::from_uid(1000).user_dir(), "/etc/users/1000");
    assert_eq!(UserHandle::from_uid(0).user_dir(), "/etc/users/0");
    assert_eq!(UserHandle::from_uid_in(5, "/mnt").user_dir(), "/mnt/etc/users/5");
    assert_eq!(UserHandle::from_uid_in(5, "/mnt/").user_dir(), "/mnt/etc/users/5");
    assert_eq!(GroupHandle::from_uid(10).user_dir(), "/etc/groups/10");
    assert_eq!(UserHandle::group_link_target(100), "/etc/groups/100");
}

#[test]
fn name_binding() {
    let h = UserHandle::from_uid(1000);
    let entry = UserHandle::name_entry("alice");
    assert_eq!(entry, "/etc/users/alice");
    assert_eq!(h.name_link_path("alice"), entry);
    let by_name = UserHandle::from_name_entry(entry.clone(), Some(h.user_dir().to_string()));
    assert_eq!(by_name.user_dir(), h.user_dir());
    assert_eq!(id_from_link(by_name.user_dir()), Ok(1000));
    let unlinked = UserHandle::from_name_entry(entry, None);
    assert_eq!(unlinked.user_dir(), "/etc/users/alice");
    assert_eq!(UserHandle::name_entry_in("bob", "/r"), "/r/etc/users/bob");
    assert_eq!(h.entry("password"), "/etc/users/1000/password");
    let g = GroupHandle::from_uid(10);
    assert_eq!(g.name_link_path("wheel"), "/etc/groups/wheel");
    assert_eq!(GroupHandle::name_entry("wheel"), "/etc/groups/wheel");
    assert_eq!(g.entry("gid"), "/etc/groups/10/gid");
}

#[test]
fn link_targets() {
    assert_eq!(id_from_link("/etc/groups/100"), Ok(100));
    assert_eq!(id_from_link("/etc/users/1000/"), Ok(1000));
    assert_eq!(id_from_link("/etc/users/x"), Err(StoreError::InvalidData));
    assert_eq!(id_from_link("/etc/users/+5"), Err(StoreError::InvalidData));
    assert_eq!(id_from_link("/etc/users/4294967296"), Err(StoreError::InvalidData));
    assert_eq!(id_from_link("/etc/users/4294967295"), Ok(4294967295));
    assert_eq!(id_from_link("/"), Err(StoreError::InvalidData));
    assert_eq!(name_from_link("/etc/users/alice"), Ok("alice".to_string()));
    assert_eq!(name_from_link("/etc/users/.."), Err(StoreError::InvalidData));
}

#[test]
fn path_pieces() {
    assert_eq!(join_path("/a", "b"), "/a/b");
    assert_eq!(join_path("/a/", "b"), "/a/b");
    assert_eq!(join_path("", "b"), "b");
    assert_eq!(join_path("/a", "/b"), "/b");
    assert_eq!(strip_root("//etc/users"), "etc/users");
    assert_eq!(file_name("a/b//"), Some("b".to_string()));
    assert_eq!(file_name("a/."), None);
    assert_eq!(file_name(""), None);
    assert_eq!(parent("/etc/users/1000"), "/etc/users");
    assert_eq!(parent("/etc/users/1000/"), "/etc/users");
    assert_eq!(parent("/x"), "/");
    assert_eq!(parent("x"), "");
    assert_eq!(decimal(0), "0");
    assert_eq!(decimal(4294967295), "4294967295");
}

#[test]
fn group_list_text() {
    assert_eq!(parse_id_list(""), Ok(vec![]));
    assert_eq!(parse_id_list("3,10"), Ok(vec![3, 10]));
    assert_eq!(parse_id_list("007"), Ok(vec![7]));
    assert_eq!(parse_id_list("1,,2"), Err(StoreError::InvalidData));
    assert_eq!(parse_id_list("1,"), Err(StoreError::InvalidData));
    assert_eq!(parse_id_list(",1"), Err(StoreError::InvalidData));
    assert_eq!(parse_id_list("1, 2"), Err(StoreError::InvalidData));
    assert_eq!(parse_id_list("4294967296"), Err(StoreError::InvalidData));
    assert_eq!(parse_decimal("12"), Some(12));
    assert_eq!(parse_decimal("1,2"), None);
    assert_eq!(parse_decimal(""), None);
    assert_eq!(render_id_list(&vec![]), "");
    assert_eq!(render_id_list(&vec![3, 10, 4294967295]), "3,10,4294967295");
}

#[test]
fn adding_groups_keeps_canonical_form() {
    let a = groups_file_with(None, 10).unwrap();
    assert_eq!(a, "10");
    let b = groups_file_with(Some(&a), 3).unwrap();
    assert_eq!(b, "3,10");
    let c = groups_file_with(Some(&b), 10).unwrap();
    assert_eq!(c, "3,10");
    assert_eq!(groups_from_file(Some(&c)), Ok(vec![3, 10]));
    assert_eq!(groups_from_file(None), Ok(vec![]));
    assert_eq!(with_id_added(&vec![5, 1, 5, 3], 1), vec![1, 3, 5]);
}

#[test]
fn removing_groups() {
    assert_eq!(groups_file_without(Some("3,10"), 3), Ok("10".to_string()));
    assert_eq!(groups_file_without(Some("3,10"), 7), Ok("3,10".to_string()));
    let empty = groups_file_without(Some("10"), 10).unwrap();
    assert_eq!(empty, "");
    assert_eq!(groups_from_file(Some(&empty)), Ok(vec![]));
    assert_eq!(groups_file_without(Some("x"), 1), Err(StoreError::InvalidData));
    assert_eq!(groups_file_with(Some("1;2"), 1), Err(StoreError::InvalidData));
    assert_eq!(with_id_removed(&vec![4, 2, 4, 1], 4), vec![2, 1]);
}

#[test]
fn configured_roots() {
    let h = UserHandle::from_uid_under("/srv/users", 1000);
    assert_eq!(h.user_dir(), "/srv/users/1000");
    assert_eq!(UserHandle::name_entry_under("/srv/users", "alice"), "/srv/users/alice");
    assert_eq!(h.name_link_path("alice"), "/srv/users/alice");
    assert_eq!(UserHandle::group_link_target_under("/srv/groups", 7), "/srv/groups/7");
    assert_eq!(GroupHandle::from_uid_under("/srv/groups", 7).user_dir(), "/srv/groups/7");
    assert_eq!(GroupHandle::name_entry_under("/srv/groups", "wheel"), "/srv/groups/wheel");
    assert_eq!(lc_login::dirs::chrooted("/mnt", "/srv/users"), "/mnt/srv/users");
}
