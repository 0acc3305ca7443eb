use tcc::{DisclosureToggleSet, ToggleAction, ToggleError};

fn labels() -> Vec<String> {
    vec!["name".to_string(), "age".to_string(), "email".to_string(), "city".to_string()]
}

#[test]
fn toggling_twice_restores_membership() {
    let mut t = DisclosureToggleSet::new(labels());
    assert!(!t.is_selected(2));
    t.toggle(2);
    assert!(t.is_selected(2));
    t.toggle(2);
    assert!(!t.is_selected(2));
    assert_eq!(t.handle_input("3"), ToggleAction::Toggled(2));
    assert_eq!(t.handle_input("3"), ToggleAction::Toggled(2));
    assert!(!t.is_selected(2));
    assert!(t.selected_indices().is_empty());
}

#[test]
fn commit_keeps_candidate_order() {
    let mut t = DisclosureToggleSet::new(labels());
    assert_eq!(t.handle_input("3"), ToggleAction::Toggled(2));
    assert_eq!(t.handle_input("1"), ToggleAction::Toggled(0));
    assert_eq!(t.handle_input(" ok "), ToggleAction::Commit);
    assert_eq!(t.committed(), vec!["name".to_string(), "email".to_string()]);
    assert_eq!(t.selected_indices(), vec![0, 2]);

    let mut u = DisclosureToggleSet::new(labels());
    u.handle_input("1");
    u.handle_input("3");
    assert_eq!(u.committed(), t.committed());
}

#[test]
fn invalid_toggle_inputs() {
    let mut t = DisclosureToggleSet::new(labels());
    assert_eq!(t.handle_input("0"), ToggleAction::Rejected(ToggleError::InvalidNumber));
    assert_eq!(t.handle_input("5"), ToggleAction::Rejected(ToggleError::InvalidNumber));
    assert_eq!(t.handle_input("two"), ToggleAction::Rejected(ToggleError::NotANumber));
    assert_eq!(t.handle_input(""), ToggleAction::Rejected(ToggleError::NotANumber));
    assert_eq!(t.handle_input("OK"), ToggleAction::Rejected(ToggleError::NotANumber));
    assert!(t.committed().is_empty());
    assert_eq!(t.len(), 4);
}

#[test]
fn commit_with_nothing_selected_is_empty() {
    let mut t = DisclosureToggleSet::new(Vec::new());
    assert_eq!(t.handle_input("ok"), ToggleAction::Commit);
    assert!(t.committed().is_empty());
    assert_eq!(t.handle_input("1"), ToggleAction::Rejected(ToggleError::InvalidNumber));
}

#[test]
fn plus_sign_before_number_is_accepted() {
    let mut t = DisclosureToggleSet::new(labels());
    assert_eq!(t.handle_input("+3"), ToggleAction::Toggled(2));
    assert!(t.is_selected(2));
    assert_eq!(t.handle_input("+5"), ToggleAction::Rejected(ToggleError::InvalidNumber));
    assert_eq!(t.handle_input("+"), ToggleAction::Rejected(ToggleError::NotANumber));
    assert_eq!(t.handle_input("++1"), ToggleAction::Rejected(ToggleError::NotANumber));
    assert_eq!(t.handle_input("-1"), ToggleAction::Rejected(ToggleError::NotANumber));
}
