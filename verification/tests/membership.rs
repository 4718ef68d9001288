//! Changes in membership.

use experimental_crdt::gc::coordinator::new_member_exists;

fn s(x: &str) -> String {
    x.to_string()
}

#[test]
fn no_new_members_same_lists() {
    let old = vec![s("1"), s("2"), s("3")];
    let new = vec![s("1"), s("2"), s("3")];

    assert!(!new_member_exists(&old, &new));
}

#[test]
fn no_new_members_subset() {
    let old = vec![s("1"), s("2"), s("3")];
    let new = vec![s("1"), s("2")];

    assert!(!new_member_exists(&old, &new));
}

#[test]
fn detects_single_new_member() {
    let old = vec![s("1"), s("2"), s("3")];
    let new = vec![s("1"), s("2"), s("3"), s("4")];

    assert!(new_member_exists(&old, &new));
}

#[test]
fn detects_multiple_new_members() {
    let old = vec![s("1"), s("2")];
    let new = vec![s("1"), s("2"), s("3"), s("4")];

    assert!(new_member_exists(&old, &new));
}

#[test]
fn empty_old_with_new_members() {
    let old: Vec<String> = vec![];
    let new = vec![s("1")];

    assert!(new_member_exists(&old, &new));
}

#[test]
fn both_empty() {
    let old: Vec<String> = vec![];
    let new: Vec<String> = vec![];

    assert!(!new_member_exists(&old, &new));
}

#[test]
fn order_does_not_matter() {
    let old = vec![s("1"), s("2"), s("3")];
    let new = vec![s("3"), s("2"), s("1")];

    assert!(!new_member_exists(&old, &new));
}

#[test]
fn detects_new_member_with_reordering() {
    let old = vec![s("1"), s("2"), s("3")];
    let new = vec![s("3"), s("4"), s("2"), s("1")];

    assert!(new_member_exists(&old, &new));
}

#[test]
fn handles_duplicates_in_new() {
    let old = vec![s("1"), s("2"), s("3")];
    let new = vec![s("1"), s("2"), s("2"), s("3")];

    assert!(!new_member_exists(&old, &new));
}
