use tcc::{App, ExitAppCommand, Flow, InvalidTransition, KeyPress, ScreenEvent, ScreenFSM, ScreenState};

const ALL_STATES: [ScreenState; 11] = [
    ScreenState::MainMenu,
    ScreenState::ListItemsMenu,
    ScreenState::CreateDIDWorkflow,
    ScreenState::ListDIDsWorkflow,
    ScreenState::ListVCsWorkflow,
    ScreenState::CreateVCMenu,
    ScreenState::CreateNormalVCWorkflow,
    ScreenState::CreateSDVCWorkflow,
    ScreenState::VerifyVCWorkflow,
    ScreenState::CreateVPWorkflow,
    ScreenState::ExitAppWorkflow,
];

const ALL_EVENTS: [ScreenEvent; 12] = [
    ScreenEvent::SelectCreateDID,
    ScreenEvent::SelectListDIDs,
    ScreenEvent::SelectListVCs,
    ScreenEvent::SelectCreateVC,
    ScreenEvent::CreateNormalVC,
    ScreenEvent::CreateSDVC,
    ScreenEvent::SelectVerifyVC,
    ScreenEvent::SelectCreateVP,
    ScreenEvent::SelectListItems,
    ScreenEvent::Cancel,
    ScreenEvent::Success,
    ScreenEvent::Exit,
];

fn machine_at(path: &[ScreenEvent]) -> ScreenFSM {
    let mut m = ScreenFSM::new();
    for e in path {
        m.consume(*e).unwrap();
    }
    m
}

#[test]
fn new_machine_starts_at_main_menu() {
    assert_eq!(ScreenFSM::new().current_state(), ScreenState::MainMenu);
    assert_eq!(App::new().state(), ScreenState::MainMenu);
}

#[test]
fn consume_is_deterministic_for_every_pair() {
    for s in ALL_STATES {
        for e in ALL_EVENTS {
            let a = ScreenFSM::transition(&s, &e);
            let b = ScreenFSM::transition(&s, &e);
            assert_eq!(a, b);
        }
    }
    let mut m1 = machine_at(&[ScreenEvent::SelectCreateVC]);
    let mut m2 = machine_at(&[ScreenEvent::SelectCreateVC]);
    assert_eq!(m1.consume(ScreenEvent::CreateSDVC), m2.consume(ScreenEvent::CreateSDVC));
}

#[test]
fn main_menu_cancel_goes_to_exit_screen() {
    let mut m = ScreenFSM::new();
    assert_eq!(m.consume(ScreenEvent::Cancel), Ok(ScreenState::ExitAppWorkflow));
    assert_eq!(m.current_state(), ScreenState::ExitAppWorkflow);
}

#[test]
fn success_and_cancel_return_to_main_menu_from_other_screens() {
    for s in ALL_STATES {
        if s == ScreenState::MainMenu {
            continue;
        }
        assert_eq!(ScreenFSM::transition(&s, &ScreenEvent::Success), Some(ScreenState::MainMenu));
        assert_eq!(ScreenFSM::transition(&s, &ScreenEvent::Cancel), Some(ScreenState::MainMenu));
    }
}

#[test]
fn main_menu_routes_each_selection() {
    let cases = [
        (ScreenEvent::SelectListItems, ScreenState::ListItemsMenu),
        (ScreenEvent::SelectCreateDID, ScreenState::CreateDIDWorkflow),
        (ScreenEvent::SelectCreateVC, ScreenState::CreateVCMenu),
        (ScreenEvent::SelectVerifyVC, ScreenState::VerifyVCWorkflow),
        (ScreenEvent::SelectCreateVP, ScreenState::CreateVPWorkflow),
    ];
    for (e, s) in cases {
        assert_eq!(ScreenFSM::transition(&ScreenState::MainMenu, &e), Some(s));
    }
}

#[test]
fn submenus_route_to_their_workflows() {
    let items = ScreenState::ListItemsMenu;
    let vc_menu = ScreenState::CreateVCMenu;
    assert_eq!(ScreenFSM::transition(&items, &ScreenEvent::SelectListDIDs), Some(ScreenState::ListDIDsWorkflow));
    assert_eq!(ScreenFSM::transition(&items, &ScreenEvent::SelectListVCs), Some(ScreenState::ListVCsWorkflow));
    assert_eq!(ScreenFSM::transition(&vc_menu, &ScreenEvent::CreateNormalVC), Some(ScreenState::CreateNormalVCWorkflow));
    assert_eq!(ScreenFSM::transition(&vc_menu, &ScreenEvent::CreateSDVC), Some(ScreenState::CreateSDVCWorkflow));
}

#[test]
fn unmapped_pair_is_reported_and_state_kept() {
    let mut m = ScreenFSM::new();
    let r = m.consume(ScreenEvent::SelectListDIDs);
    assert_eq!(
        r,
        Err(InvalidTransition { state: ScreenState::MainMenu, event: ScreenEvent::SelectListDIDs })
    );
    assert_eq!(m.current_state(), ScreenState::MainMenu);
    assert_eq!(ScreenFSM::transition(&ScreenState::ListDIDsWorkflow, &ScreenEvent::Exit), None);
    assert_eq!(ScreenFSM::transition(&ScreenState::MainMenu, &ScreenEvent::Exit), None);
}

#[test]
fn exit_screen_halts_only_on_exit() {
    let mut app = App::new();
    assert_eq!(app.handle_event(ScreenEvent::Cancel), Ok(Flow::Continue(ScreenState::ExitAppWorkflow)));
    assert_eq!(app.handle_event(ScreenEvent::Exit), Ok(Flow::Halt));
    assert_eq!(app.state(), ScreenState::ExitAppWorkflow);
}

#[test]
fn escape_on_exit_screen_keeps_session_going() {
    let mut app = App::new();
    app.handle_event(ScreenEvent::Cancel).unwrap();
    let key_event = ExitAppCommand::event_for_key(Some(KeyPress::Escape));
    assert_eq!(key_event, ScreenEvent::Cancel);
    assert_eq!(app.handle_event(key_event), Ok(Flow::Continue(ScreenState::MainMenu)));
    assert_eq!(app.state(), ScreenState::MainMenu);
}

#[test]
fn exit_event_elsewhere_is_an_invalid_transition() {
    let mut app = App::new();
    assert_eq!(
        app.handle_event(ScreenEvent::Exit),
        Err(InvalidTransition { state: ScreenState::MainMenu, event: ScreenEvent::Exit })
    );
    assert_eq!(app.state(), ScreenState::MainMenu);
}

#[test]
fn list_items_then_cancel_returns_to_main_menu_once() {
    let mut app = App::new();
    let mut visited = vec![app.state()];
    for e in [ScreenEvent::SelectListItems, ScreenEvent::Cancel] {
        match app.handle_event(e) {
            Ok(Flow::Continue(s)) => visited.push(s),
            other => panic!("unexpected {:?}", other),
        }
    }
    assert_eq!(visited, vec![ScreenState::MainMenu, ScreenState::ListItemsMenu, ScreenState::MainMenu]);
    assert_eq!(visited[1..].iter().filter(|s| **s == ScreenState::MainMenu).count(), 1);
    assert!(!visited.contains(&ScreenState::ExitAppWorkflow));
}

#[test]
fn command_matches_current_screen() {
    let mut app = App::new();
    assert!(matches!(app.command(), tcc::ScreenCommand::MainMenu(_)));
    app.handle_event(ScreenEvent::SelectCreateVC).unwrap();
    assert!(matches!(app.command(), tcc::ScreenCommand::CreateVCMenu(_)));
    app.handle_event(ScreenEvent::CreateSDVC).unwrap();
    assert!(matches!(app.command(), tcc::ScreenCommand::CreateSDVC));
    app.handle_event(ScreenEvent::Success).unwrap();
    app.handle_event(ScreenEvent::Cancel).unwrap();
    assert!(matches!(app.command(), tcc::ScreenCommand::ExitApp(_)));
}

#[test]
fn exit_key_other_or_none_confirms() {
    assert_eq!(ExitAppCommand::event_for_key(Some(KeyPress::Other)), ScreenEvent::Exit);
    assert_eq!(ExitAppCommand::event_for_key(None), ScreenEvent::Exit);
}
