//! The screen commands: one per screen, and the decisions their loops make.

use vstd::prelude::*;
use crate::menu::{
    create_vc_options, list_items_options, main_menu_options, CreateVCMenu, ListCreatedItems,
    MainMenuCommand,
};
use crate::state::{ScreenEvent, ScreenState};
use crate::text::{same_text, trim, trimmed};

verus! {

/// A unit of work bound to one screen.
pub trait Command {
    /// Runs the screen and reports what happened.
    fn execute(&mut self) -> ScreenEvent;

    /// Draws the screen's title.
    fn print_tile(&self);
}

/// The key pressed on the exit confirmation.
#[derive(Clone, Copy, Debug, PartialEq, Eq, Structural)]
pub enum KeyPress {
    Escape,
    Other,
}

/// The exit confirmation screen.
pub struct ExitAppCommand;

impl ExitAppCommand {
    /// ESC cancels the exit; any other key, or the end of input, confirms it.
    pub fn event_for_key(key: Option<KeyPress>) -> (r: ScreenEvent)
        ensures
            r == (if key == Some(KeyPress::Escape) {
                ScreenEvent::Cancel
            } else {
                ScreenEvent::Exit
            }),
    {
        match key {
            Some(KeyPress::Escape) => ScreenEvent::Cancel,
            _ => ScreenEvent::Exit,
        }
    }
}

/// The command bound to each screen. Menus carry their options; the
/// workflows work on the application's stores and are run by the caller.
pub enum ScreenCommand {
    MainMenu(MainMenuCommand),
    ListItemsMenu(ListCreatedItems),
    CreateDID,
    ListDIDs,
    ListVCs,
    CreateVCMenu(CreateVCMenu),
    CreateNormalVC,
    CreateSDVC,
    VerifyVC,
    CreateVP,
    ExitApp(ExitAppCommand),
}

impl ScreenCommand {
    /// The screen that the command is bound to.
    pub open spec fn screen(&self) -> ScreenState {
        match self {
            ScreenCommand::MainMenu(_) => ScreenState::MainMenu,
            ScreenCommand::ListItemsMenu(_) => ScreenState::ListItemsMenu,
            ScreenCommand::CreateDID => ScreenState::CreateDIDWorkflow,
            ScreenCommand::ListDIDs => ScreenState::ListDIDsWorkflow,
            ScreenCommand::ListVCs => ScreenState::ListVCsWorkflow,
            ScreenCommand::CreateVCMenu(_) => ScreenState::CreateVCMenu,
            ScreenCommand::CreateNormalVC => ScreenState::CreateNormalVCWorkflow,
            ScreenCommand::CreateSDVC => ScreenState::CreateSDVCWorkflow,
            ScreenCommand::VerifyVC => ScreenState::VerifyVCWorkflow,
            ScreenCommand::CreateVP => ScreenState::CreateVPWorkflow,
            ScreenCommand::ExitApp(_) => ScreenState::ExitAppWorkflow,
        }
    }

    /// A fresh command for `state`; every screen has exactly one.
    pub fn for_state(state: ScreenState) -> (c: ScreenCommand)
        ensures
            c.screen() == state,
            c matches ScreenCommand::MainMenu(m) ==> m@ == main_menu_options(),
            c matches ScreenCommand::ListItemsMenu(m) ==> m@ == list_items_options(),
            c matches ScreenCommand::CreateVCMenu(m) ==> m@ == create_vc_options(),
    {
        match state {
            ScreenState::MainMenu => ScreenCommand::MainMenu(MainMenuCommand::new()),
            ScreenState::ListItemsMenu => ScreenCommand::ListItemsMenu(ListCreatedItems::new()),
            ScreenState::CreateDIDWorkflow => ScreenCommand::CreateDID,
            ScreenState::ListDIDsWorkflow => ScreenCommand::ListDIDs,
            ScreenState::ListVCsWorkflow => ScreenCommand::ListVCs,
            ScreenState::CreateVCMenu => ScreenCommand::CreateVCMenu(CreateVCMenu::new()),
            ScreenState::CreateNormalVCWorkflow => ScreenCommand::CreateNormalVC,
            ScreenState::CreateSDVCWorkflow => ScreenCommand::CreateSDVC,
            ScreenState::VerifyVCWorkflow => ScreenCommand::VerifyVC,
            ScreenState::CreateVPWorkflow => ScreenCommand::CreateVP,
            ScreenState::ExitAppWorkflow => ScreenCommand::ExitApp(ExitAppCommand),
        }
    }
}

/// The answer to "continue with this choice?".
#[derive(Clone, Copy, Debug, PartialEq, Eq, Structural)]
pub enum ConfirmStep {
    /// Blank input: keep the choice.
    Confirmed,
    /// `back`: choose again.
    Reselect,
    /// Anything else: ask again.
    Redisplay,
}

pub open spec fn confirm_step(t: Seq<char>) -> ConfirmStep {
    if t.len() == 0 {
        ConfirmStep::Confirmed
    } else if t == "back"@ {
        ConfirmStep::Reselect
    } else {
        ConfirmStep::Redisplay
    }
}

impl ConfirmStep {
    /// The step for one line of input.
    pub fn from_line(line: &str) -> (r: ConfirmStep)
        ensures
            r == confirm_step(trimmed(line@)),
    {
        let t = trim(line);
        if t.unicode_len() == 0 {
            ConfirmStep::Confirmed
        } else if same_text(t, "back") {
            ConfirmStep::Reselect
        } else {
            ConfirmStep::Redisplay
        }
    }
}

/// What `str::to_lowercase` returns for the characters `s`.
pub uninterp spec fn lowercase_of(s: Seq<char>) -> Seq<char>;

/// Relies on `str::to_lowercase`: Unicode lower case, which depends on the
/// characters alone.
#[verifier::external_body]
fn lowercase(s: &str) -> (r: String)
    ensures
        r@ == lowercase_of(s@),
{
    s.to_lowercase()
}

/// The answer to "continue with this issuer and holder?".
#[derive(Clone, Copy, Debug, PartialEq, Eq, Structural)]
pub enum PairConfirmStep {
    /// Blank input: keep both.
    Confirmed,
    /// `back`: give up and return to the main menu.
    Cancelled,
    /// `issuer`: choose the issuer again.
    ReselectIssuer,
    /// `holder`: choose the holder again.
    ReselectHolder,
    /// Anything else: ask again.
    Redisplay,
}

pub open spec fn pair_confirm_step(t: Seq<char>) -> PairConfirmStep {
    if t.len() == 0 {
        PairConfirmStep::Confirmed
    } else if t == "back"@ {
        PairConfirmStep::Cancelled
    } else if t == "issuer"@ {
        PairConfirmStep::ReselectIssuer
    } else if t == "holder"@ {
        PairConfirmStep::ReselectHolder
    } else {
        PairConfirmStep::Redisplay
    }
}

impl PairConfirmStep {
    /// The step for a token that is already trimmed and in lower case.
    pub fn from_token(t: &str) -> (r: PairConfirmStep)
        ensures
            r == pair_confirm_step(t@),
    {
        if t.unicode_len() == 0 {
            PairConfirmStep::Confirmed
        } else if same_text(t, "back") {
            PairConfirmStep::Cancelled
        } else if same_text(t, "issuer") {
            PairConfirmStep::ReselectIssuer
        } else if same_text(t, "holder") {
            PairConfirmStep::ReselectHolder
        } else {
            PairConfirmStep::Redisplay
        }
    }

    /// The step for one line of input, compared trimmed and in lower case.
    pub fn from_line(line: &str) -> (r: PairConfirmStep)
        ensures
            r == pair_confirm_step(lowercase_of(trimmed(line@))),
    {
        let t = lowercase(trim(line));
        Self::from_token(t.as_str())
    }
}

/// The name to link with a new DID: the trimmed line, unless it is blank.
pub open spec fn did_owner(t: Seq<char>) -> Option<Seq<char>> {
    if t.len() == 0 {
        None
    } else {
        Some(t)
    }
}

/// The owner name given on one line, or `None` for a blank line.
pub fn parse_did_owner(line: &str) -> (r: Option<String>)
    ensures
        r is Some <==> did_owner(trimmed(line@)) is Some,
        r is Some ==> Some(r->Some_0@) == did_owner(trimmed(line@)),
{
    let t = trim(line);
    if t.unicode_len() == 0 {
        None
    } else {
        Some(String::from_str(t))
    }
}

} // verus!
