use mboitata::AllowList;

#[test]
fn empty_list_allows_everything() {
    let list = AllowList::new(vec![]);
    assert!(list.in_scope("example.com"));
    assert!(list.in_scope(""));
    assert!(list.in_scope("anything.at.all"));
}

#[test]
fn member_substring_is_in_scope() {
    let list = AllowList::new(vec!["example.com".to_string()]);
    assert!(list.in_scope("example.com"));
    assert!(list.in_scope("sub.example.com"));
    assert!(list.in_scope("example.com.evil.net"));
    assert!(!list.in_scope("example.org"));
    assert!(!list.in_scope("exam.ple.com"));
}

#[test]
fn any_member_suffices() {
    let list = AllowList::new(vec!["alpha".to_string(), "beta".to_string()]);
    assert!(list.in_scope("www.beta.net"));
    assert!(list.in_scope("alpha.org"));
    assert!(!list.in_scope("gamma.io"));
}

#[test]
fn nonempty_list_excludes_nonmembers() {
    let list = AllowList::new(vec!["example.com".to_string()]);
    assert!(!list.in_scope(""));
    assert!(!list.in_scope("evil"));
}
