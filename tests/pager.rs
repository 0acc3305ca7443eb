use tcc::{PageAction, PageError, PaginatedSelector};

#[test]
fn twenty_three_items_make_three_pages() {
    let p = PaginatedSelector::new(23, 10, false);
    assert_eq!(p.total_pages(), 3);
    assert_eq!(PaginatedSelector::new(20, 10, false).total_pages(), 2);
    assert_eq!(PaginatedSelector::new(0, 10, false).total_pages(), 0);
    assert_eq!(PaginatedSelector::new(1, 10, false).total_pages(), 1);
}

#[test]
fn next_on_last_page_is_refused_and_page_kept() {
    let mut p = PaginatedSelector::new(23, 10, false);
    assert_eq!(p.handle_input(""), PageAction::NextPage);
    assert_eq!(p.handle_input("   "), PageAction::NextPage);
    assert_eq!(p.current_page(), 2);
    assert_eq!(p.page_bounds(), (20, 23));
    assert_eq!(p.handle_input(""), PageAction::Rejected(PageError::LastPage));
    assert_eq!(p.current_page(), 2);
}

#[test]
fn previous_on_first_page_is_refused() {
    let mut p = PaginatedSelector::new(23, 10, true);
    assert_eq!(p.handle_input("p"), PageAction::Rejected(PageError::FirstPage));
    assert_eq!(p.current_page(), 0);
    p.handle_input("");
    assert_eq!(p.handle_input(" p\n"), PageAction::PreviousPage);
    assert_eq!(p.current_page(), 0);
}

#[test]
fn selection_bounds_on_second_page() {
    let mut p = PaginatedSelector::new(30, 10, true);
    assert_eq!(p.handle_input(""), PageAction::NextPage);
    assert_eq!(p.first_row(), 11);
    assert_eq!(p.page_bounds(), (10, 20));
    assert_eq!(p.handle_input("11"), PageAction::Selected(11));
    assert_eq!(p.handle_input("20"), PageAction::Selected(20));
    let range = PageAction::Rejected(PageError::OutOfRange { first: 11, last: 20 });
    assert_eq!(p.handle_input("10"), range);
    assert_eq!(p.handle_input("21"), range);
    assert_eq!(p.handle_input("abc"), range);
    assert_eq!(p.handle_input("99999999999999999999999"), range);
    assert_eq!(p.current_page(), 1);
}

#[test]
fn quit_only_while_browsing() {
    let mut browse = PaginatedSelector::new(5, 2, false);
    assert_eq!(browse.handle_input("q"), PageAction::Quit);
    assert_eq!(browse.handle_input("3"), PageAction::Rejected(PageError::UnknownCommand));
    let mut select = PaginatedSelector::new(5, 2, true);
    assert_eq!(select.handle_input("q"), PageAction::Rejected(PageError::QuitNotAllowed));
    assert!(select.is_selectable());
}

#[test]
fn last_partial_page_bounds() {
    let mut p = PaginatedSelector::new(5, 2, true);
    p.handle_input("");
    p.handle_input("");
    assert_eq!(p.page_bounds(), (4, 5));
    assert_eq!(p.handle_input("5"), PageAction::Selected(5));
    assert_eq!(p.handle_input("6"), PageAction::Rejected(PageError::OutOfRange { first: 5, last: 5 }));
}

#[test]
fn empty_list_has_no_rows() {
    let mut p = PaginatedSelector::new(0, 3, true);
    assert_eq!(p.page_bounds(), (0, 0));
    assert_eq!(p.handle_input(""), PageAction::Rejected(PageError::LastPage));
    assert_eq!(p.handle_input("1"), PageAction::Rejected(PageError::OutOfRange { first: 1, last: 0 }));
}

#[test]
fn plus_sign_is_not_a_row_number() {
    let mut p = PaginatedSelector::new(5, 5, true);
    assert_eq!(p.handle_input("+3"), PageAction::Rejected(PageError::OutOfRange { first: 1, last: 5 }));
}
