use tcc::{
    parse_did_owner, ConfirmStep, CreateVCMenu, Input, ListCreatedItems, MainMenuCommand,
    NumberInputError, PairConfirmStep, ScreenEvent,
};

#[test]
fn main_menu_options_and_choice() {
    let m = MainMenuCommand::new();
    let labels: Vec<&str> = m.options().iter().map(|o| o.0.as_str()).collect();
    assert_eq!(
        labels,
        vec!["List Created Items", "Create a new DID", "Create a new VC", "Create a new VP", "Verify a VC", "Exit"]
    );
    assert_eq!(m.handle_user_input(1), ScreenEvent::SelectListItems);
    assert_eq!(m.handle_user_input(6), ScreenEvent::Cancel);
    assert_eq!(m.select("4\n"), Ok(ScreenEvent::SelectCreateVP));
    assert_eq!(m.select("5"), Ok(ScreenEvent::SelectVerifyVC));
    assert_eq!(m.select("7"), Err(NumberInputError::OutOfRange { min: 1, max: 6 }));
    assert_eq!(m.select("0"), Err(NumberInputError::OutOfRange { min: 1, max: 6 }));
    assert_eq!(m.select(""), Err(NumberInputError::Blank));
    assert_eq!(m.select("x1"), Err(NumberInputError::NotANumber));
    assert_eq!(m.select("+3"), Err(NumberInputError::NotANumber));
}

#[test]
fn submenu_options() {
    let l = ListCreatedItems::new();
    assert_eq!(l.options().len(), 3);
    assert_eq!(l.select("1"), Ok(ScreenEvent::SelectListDIDs));
    assert_eq!(l.select("2"), Ok(ScreenEvent::SelectListVCs));
    assert_eq!(l.select("3"), Ok(ScreenEvent::Cancel));
    let c = CreateVCMenu::new();
    assert_eq!(c.options()[1].0, "Create Verifiable Credential with Selective Disclosure");
    assert_eq!(c.select("1"), Ok(ScreenEvent::CreateNormalVC));
    assert_eq!(c.select("2"), Ok(ScreenEvent::CreateSDVC));
    assert_eq!(c.select("3"), Ok(ScreenEvent::Cancel));
}

#[test]
fn number_input_checks() {
    assert_eq!(Input::parse_number_input(" 42 ", 0, 60), Ok(42));
    assert_eq!(Input::parse_number_input("60", 0, 60), Ok(60));
    assert_eq!(Input::parse_number_input("61", 0, 60), Err(NumberInputError::OutOfRange { min: 0, max: 60 }));
    assert_eq!(Input::parse_number_input("\t", 0, 60), Err(NumberInputError::Blank));
    assert_eq!(Input::parse_number_input("-1", 0, 60), Err(NumberInputError::NotANumber));
    assert_eq!(
        Input::parse_number_input("18446744073709551616", 0, usize::MAX),
        Err(NumberInputError::OutOfRange { min: 0, max: usize::MAX })
    );
    assert_eq!(Input::parse_number_input("18446744073709551615", 0, usize::MAX), Ok(usize::MAX));
}

#[test]
fn confirm_steps() {
    assert_eq!(ConfirmStep::from_line("\n"), ConfirmStep::Confirmed);
    assert_eq!(ConfirmStep::from_line(" back "), ConfirmStep::Reselect);
    assert_eq!(ConfirmStep::from_line("BACK"), ConfirmStep::Redisplay);
    assert_eq!(PairConfirmStep::from_line(""), PairConfirmStep::Confirmed);
    assert_eq!(PairConfirmStep::from_line("Back\n"), PairConfirmStep::Cancelled);
    assert_eq!(PairConfirmStep::from_line("ISSUER"), PairConfirmStep::ReselectIssuer);
    assert_eq!(PairConfirmStep::from_line(" holder"), PairConfirmStep::ReselectHolder);
    assert_eq!(PairConfirmStep::from_line("other"), PairConfirmStep::Redisplay);
    assert_eq!(PairConfirmStep::from_token("holder"), PairConfirmStep::ReselectHolder);
}

#[test]
fn did_owner_names() {
    assert_eq!(parse_did_owner("  Alice \n"), Some("Alice".to_string()));
    assert_eq!(parse_did_owner(" \t "), None);
}
