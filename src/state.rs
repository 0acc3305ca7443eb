//! Screens, events, and the deterministic machine that moves between them.

use vstd::prelude::*;

verus! {

/// The screen that is active in the session.
#[derive(Clone, Copy, Debug, PartialEq, Eq, Structural)]
pub enum ScreenState {
    MainMenu,
    ListItemsMenu,
    CreateDIDWorkflow,
    ListDIDsWorkflow,
    ListVCsWorkflow,
    CreateVCMenu,
    CreateNormalVCWorkflow,
    CreateSDVCWorkflow,
    VerifyVCWorkflow,
    CreateVPWorkflow,
    ExitAppWorkflow,
}

/// What happened on a screen; events carry no payload.
#[derive(Clone, Copy, Debug, PartialEq, Eq, Structural)]
pub enum ScreenEvent {
    SelectCreateDID,
    SelectListDIDs,
    SelectListVCs,
    SelectCreateVC,
    CreateNormalVC,
    CreateSDVC,
    SelectVerifyVC,
    SelectCreateVP,
    SelectListItems,
    Cancel,
    Success,
    Exit,
}

/// A (state, event) pair that no rule of the table covers.
#[derive(Clone, Copy, Debug, PartialEq, Eq, Structural)]
pub struct InvalidTransition {
    pub state: ScreenState,
    pub event: ScreenEvent,
}

/// The transition table. Rules are tried top to bottom: the rules of a
/// particular screen come first, the generic `Cancel` / `Success` fallback last.
pub open spec fn next_state(s: ScreenState, e: ScreenEvent) -> Option<ScreenState> {
    match (s, e) {
        (ScreenState::MainMenu, ScreenEvent::SelectListItems) => Some(ScreenState::ListItemsMenu),
        (ScreenState::MainMenu, ScreenEvent::SelectCreateDID) => Some(ScreenState::CreateDIDWorkflow),
        (ScreenState::MainMenu, ScreenEvent::SelectCreateVC) => Some(ScreenState::CreateVCMenu),
        (ScreenState::MainMenu, ScreenEvent::SelectVerifyVC) => Some(ScreenState::VerifyVCWorkflow),
        (ScreenState::MainMenu, ScreenEvent::SelectCreateVP) => Some(ScreenState::CreateVPWorkflow),
        (ScreenState::MainMenu, ScreenEvent::Cancel) => Some(ScreenState::ExitAppWorkflow),
        (ScreenState::ListItemsMenu, ScreenEvent::SelectListDIDs) => Some(ScreenState::ListDIDsWorkflow),
        (ScreenState::ListItemsMenu, ScreenEvent::SelectListVCs) => Some(ScreenState::ListVCsWorkflow),
        (ScreenState::CreateVCMenu, ScreenEvent::CreateNormalVC) => Some(
            ScreenState::CreateNormalVCWorkflow,
        ),
        (ScreenState::CreateVCMenu, ScreenEvent::CreateSDVC) => Some(ScreenState::CreateSDVCWorkflow),
        (_, ScreenEvent::Cancel) => Some(ScreenState::MainMenu),
        (_, ScreenEvent::Success) => Some(ScreenState::MainMenu),
        _ => None,
    }
}

/// What `consume` returns from state `s` on event `e`.
pub open spec fn consume_result(s: ScreenState, e: ScreenEvent) -> Result<ScreenState, InvalidTransition> {
    match next_state(s, e) {
        Some(n) => Ok(n),
        None => Err(InvalidTransition { state: s, event: e }),
    }
}

/// The screen state machine; it owns the current state.
pub struct ScreenFSM {
    state: ScreenState,
}

impl View for ScreenFSM {
    type V = ScreenState;

    closed spec fn view(&self) -> ScreenState {
        self.state
    }
}

impl ScreenFSM {
    /// A machine in the initial state, the main menu.
    pub fn new() -> (m: ScreenFSM)
        ensures
            m@ == ScreenState::MainMenu,
    {
        ScreenFSM { state: ScreenState::MainMenu }
    }

    /// The state that the table gives for `event` in `state`, if any.
    pub fn transition(state: &ScreenState, event: &ScreenEvent) -> (r: Option<ScreenState>)
        ensures
            r == next_state(*state, *event),
    {
        match (*state, *event) {
            (ScreenState::MainMenu, ScreenEvent::SelectListItems) => Some(ScreenState::ListItemsMenu),
            (ScreenState::MainMenu, ScreenEvent::SelectCreateDID) => Some(
                ScreenState::CreateDIDWorkflow,
            ),
            (ScreenState::MainMenu, ScreenEvent::SelectCreateVC) => Some(ScreenState::CreateVCMenu),
            (ScreenState::MainMenu, ScreenEvent::SelectVerifyVC) => Some(
                ScreenState::VerifyVCWorkflow,
            ),
            (ScreenState::MainMenu, ScreenEvent::SelectCreateVP) => Some(
                ScreenState::CreateVPWorkflow,
            ),
            (ScreenState::MainMenu, ScreenEvent::Cancel) => Some(ScreenState::ExitAppWorkflow),
            (ScreenState::ListItemsMenu, ScreenEvent::SelectListDIDs) => Some(
                ScreenState::ListDIDsWorkflow,
            ),
            (ScreenState::ListItemsMenu, ScreenEvent::SelectListVCs) => Some(
                ScreenState::ListVCsWorkflow,
            ),
            (ScreenState::CreateVCMenu, ScreenEvent::CreateNormalVC) => Some(
                ScreenState::CreateNormalVCWorkflow,
            ),
            (ScreenState::CreateVCMenu, ScreenEvent::CreateSDVC) => Some(
                ScreenState::CreateSDVCWorkflow,
            ),
            (_, ScreenEvent::Cancel) => Some(ScreenState::MainMenu),
            (_, ScreenEvent::Success) => Some(ScreenState::MainMenu),
            _ => None,
        }
    }

    /// The current state.
    pub fn current_state(&self) -> (s: ScreenState)
        ensures
            s == self@,
    {
        self.state
    }

    /// Feeds `event` to the machine. On a pair that the table does not cover
    /// the state is left as it was and the pair is reported.
    pub fn consume(&mut self, event: ScreenEvent) -> (r: Result<ScreenState, InvalidTransition>)
        ensures
            r == consume_result(old(self)@, event),
            r is Ok ==> final(self)@ == r->Ok_0,
            r is Err ==> final(self)@ == old(self)@,
    {
        match Self::transition(&self.state, &event) {
            Some(n) => {
                self.state = n;
                Ok(n)
            },
            None => Err(InvalidTransition { state: self.state, event }),
        }
    }
}

/// Consuming is deterministic: two results that `consume`'s contract allows
/// for the same state and event are the same result.
pub proof fn lemma_consume_deterministic(
    s: ScreenState,
    e: ScreenEvent,
    r1: Result<ScreenState, InvalidTransition>,
    r2: Result<ScreenState, InvalidTransition>,
)
    requires
        r1 == consume_result(s, e),
        r2 == consume_result(s, e),
    ensures
        r1 == r2,
{
}

/// From the main menu, `Cancel` asks to leave the application; it does not
/// fall through to the generic rule that would return to the main menu.
pub proof fn lemma_main_menu_cancel_exits()
    ensures
        next_state(ScreenState::MainMenu, ScreenEvent::Cancel) == Some(ScreenState::ExitAppWorkflow),
        consume_result(ScreenState::MainMenu, ScreenEvent::Cancel) == Ok::<
            ScreenState,
            InvalidTransition,
        >(ScreenState::ExitAppWorkflow),
{
}

/// From every screen other than the main menu, both `Success` and `Cancel`
/// lead back to the main menu.
pub proof fn lemma_fallback_returns_to_main_menu(s: ScreenState)
    requires
        s != ScreenState::MainMenu,
    ensures
        next_state(s, ScreenEvent::Success) == Some(ScreenState::MainMenu),
        next_state(s, ScreenEvent::Cancel) == Some(ScreenState::MainMenu),
{
}

} // verus!
