//! The dispatcher's step: what follows the event that a screen returned.

use vstd::prelude::*;
use crate::command::ScreenCommand;
use crate::menu::{create_vc_options, list_items_options, main_menu_options};
use crate::state::{consume_result, InvalidTransition, ScreenEvent, ScreenFSM, ScreenState};

verus! {

/// Whether the session goes on after a screen returned its event.
#[derive(Clone, Copy, Debug, PartialEq, Eq, Structural)]
pub enum Flow {
    /// The session is over.
    Halt,
    /// The session goes on at the given screen.
    Continue(ScreenState),
}

/// The session stops only when the exit screen confirms the exit.
pub open spec fn halts(s: ScreenState, e: ScreenEvent) -> bool {
    s == ScreenState::ExitAppWorkflow && e == ScreenEvent::Exit
}

/// The outcome of event `e` returned by the screen of state `s`.
pub open spec fn step_result(s: ScreenState, e: ScreenEvent) -> Result<Flow, InvalidTransition> {
    if halts(s, e) {
        Ok(Flow::Halt)
    } else {
        match consume_result(s, e) {
            Ok(n) => Ok(Flow::Continue(n)),
            Err(x) => Err(x),
        }
    }
}

/// The session: the screen state machine that the dispatcher drives.
pub struct App {
    fsm: ScreenFSM,
}

impl View for App {
    type V = ScreenState;

    closed spec fn view(&self) -> ScreenState {
        self.fsm@
    }
}

impl App {
    /// A session at the main menu.
    pub fn new() -> (a: App)
        ensures
            a@ == ScreenState::MainMenu,
    {
        App { fsm: ScreenFSM::new() }
    }

    /// The current screen.
    pub fn state(&self) -> (s: ScreenState)
        ensures
            s == self@,
    {
        self.fsm.current_state()
    }

    /// A fresh command for the current screen.
    pub fn command(&self) -> (c: ScreenCommand)
        ensures
            c.screen() == self@,
            c matches ScreenCommand::MainMenu(m) ==> m@ == main_menu_options(),
            c matches ScreenCommand::ListItemsMenu(m) ==> m@ == list_items_options(),
            c matches ScreenCommand::CreateVCMenu(m) ==> m@ == create_vc_options(),
    {
        ScreenCommand::for_state(self.fsm.current_state())
    }

    /// Takes the event that the current screen returned. The session halts,
    /// without a transition, exactly when the exit screen returned `Exit`;
    /// otherwise the machine consumes the event, and a pair with no rule is
    /// reported as an error (the session cannot go on).
    pub fn handle_event(&mut self, event: ScreenEvent) -> (r: Result<Flow, InvalidTransition>)
        ensures
            r == step_result(old(self)@, event),
            (r == Ok::<Flow, InvalidTransition>(Flow::Halt)) <==> halts(old(self)@, event),
            r matches Ok(Flow::Continue(n)) ==> final(self)@ == n,
            !(r matches Ok(Flow::Continue(_))) ==> final(self)@ == old(self)@,
    {
        let s = self.fsm.current_state();
        if s == ScreenState::ExitAppWorkflow && event == ScreenEvent::Exit {
            return Ok(Flow::Halt);
        }
        match self.fsm.consume(event) {
            Ok(n) => Ok(Flow::Continue(n)),
            Err(x) => Err(x),
        }
    }
}

/// Only the confirmed exit halts the session: any other event on the exit
/// screen (such as `Cancel`, from ESC) keeps it going, back at the main menu.
pub proof fn lemma_halt_only_on_confirmed_exit(s: ScreenState, e: ScreenEvent)
    ensures
        (step_result(s, e) == Ok::<Flow, InvalidTransition>(Flow::Halt)) <==> (s
            == ScreenState::ExitAppWorkflow && e == ScreenEvent::Exit),
        step_result(ScreenState::ExitAppWorkflow, ScreenEvent::Cancel) == Ok::<
            Flow,
            InvalidTransition,
        >(Flow::Continue(ScreenState::MainMenu)),
{
}

} // verus!
