//! The menu screens: numbered options, each leading to an event.

use vstd::prelude::*;
use crate::input::{number_input_result, Input, NumberInputError};
use crate::state::ScreenEvent;
use crate::text::trimmed;

verus! {

/// The labels and events of a list of options.
pub open spec fn options_view(o: Seq<(String, ScreenEvent)>) -> Seq<(Seq<char>, ScreenEvent)> {
    o.map_values(|p: (String, ScreenEvent)| (p.0@, p.1))
}

/// The result of choosing, with the trimmed line `t`, among `options`.
pub open spec fn menu_choice(options: Seq<(Seq<char>, ScreenEvent)>, t: Seq<char>) -> Result<
    ScreenEvent,
    NumberInputError,
> {
    match number_input_result(t, 1, options.len() as usize) {
        Ok(n) => Ok(options[n - 1].1),
        Err(e) => Err(e),
    }
}

pub open spec fn main_menu_options() -> Seq<(Seq<char>, ScreenEvent)> {
    seq![
        ("List Created Items"@, ScreenEvent::SelectListItems),
        ("Create a new DID"@, ScreenEvent::SelectCreateDID),
        ("Create a new VC"@, ScreenEvent::SelectCreateVC),
        ("Create a new VP"@, ScreenEvent::SelectCreateVP),
        ("Verify a VC"@, ScreenEvent::SelectVerifyVC),
        ("Exit"@, ScreenEvent::Cancel),
    ]
}

pub open spec fn list_items_options() -> Seq<(Seq<char>, ScreenEvent)> {
    seq![
        ("List DIDs"@, ScreenEvent::SelectListDIDs),
        ("List VCs"@, ScreenEvent::SelectListVCs),
        ("Back"@, ScreenEvent::Cancel),
    ]
}

pub open spec fn create_vc_options() -> Seq<(Seq<char>, ScreenEvent)> {
    seq![
        ("Create Verifiable Credential"@, ScreenEvent::CreateNormalVC),
        ("Create Verifiable Credential with Selective Disclosure"@, ScreenEvent::CreateSDVC),
        ("Back"@, ScreenEvent::Cancel),
    ]
}

fn option(label: &str, event: ScreenEvent) -> (r: (String, ScreenEvent))
    ensures
        r.0@ == label@,
        r.1 == event,
{
    (String::from_str(label), event)
}

fn choose_option(options: &Vec<(String, ScreenEvent)>, line: &str) -> (r: Result<
    ScreenEvent,
    NumberInputError,
>)
    ensures
        r == menu_choice(options_view(options@), trimmed(line@)),
{
    let n = Input::parse_number_input(line, 1, options.len());
    match n {
        Ok(k) => Ok(options[k - 1].1),
        Err(e) => Err(e),
    }
}

/// The main menu.
pub struct MainMenuCommand {
    options: Vec<(String, ScreenEvent)>,
}

impl View for MainMenuCommand {
    type V = Seq<(Seq<char>, ScreenEvent)>;

    closed spec fn view(&self) -> Seq<(Seq<char>, ScreenEvent)> {
        options_view(self.options@)
    }
}

impl MainMenuCommand {
    pub fn new() -> (m: MainMenuCommand)
        ensures
            m@ == main_menu_options(),
    {
        let mut options: Vec<(String, ScreenEvent)> = Vec::new();
        options.push(option("List Created Items", ScreenEvent::SelectListItems));
        options.push(option("Create a new DID", ScreenEvent::SelectCreateDID));
        options.push(option("Create a new VC", ScreenEvent::SelectCreateVC));
        options.push(option("Create a new VP", ScreenEvent::SelectCreateVP));
        options.push(option("Verify a VC", ScreenEvent::SelectVerifyVC));
        options.push(option("Exit", ScreenEvent::Cancel));
        let m = MainMenuCommand { options };
        assert(m@ =~= main_menu_options());
        m
    }

    /// The options, as (label, event) pairs numbered from 1.
    pub fn options(&self) -> (r: &Vec<(String, ScreenEvent)>)
        ensures
            options_view(r@) == self@,
    {
        &self.options
    }

    /// The event of the option numbered `input` (from 1).
    pub fn handle_user_input(&self, input: usize) -> (r: ScreenEvent)
        requires
            1 <= input <= self@.len(),
        ensures
            r == self@[input - 1].1,
    {
        self.options[input - 1].1
    }

    /// The event chosen by one line of input.
    pub fn select(&self, line: &str) -> (r: Result<ScreenEvent, NumberInputError>)
        ensures
            r == menu_choice(self@, trimmed(line@)),
    {
        choose_option(&self.options, line)
    }
}

/// The menu of created items to list.
pub struct ListCreatedItems {
    options: Vec<(String, ScreenEvent)>,
}

impl View for ListCreatedItems {
    type V = Seq<(Seq<char>, ScreenEvent)>;

    closed spec fn view(&self) -> Seq<(Seq<char>, ScreenEvent)> {
        options_view(self.options@)
    }
}

impl ListCreatedItems {
    pub fn new() -> (m: ListCreatedItems)
        ensures
            m@ == list_items_options(),
    {
        let mut options: Vec<(String, ScreenEvent)> = Vec::new();
        options.push(option("List DIDs", ScreenEvent::SelectListDIDs));
        options.push(option("List VCs", ScreenEvent::SelectListVCs));
        options.push(option("Back", ScreenEvent::Cancel));
        let m = ListCreatedItems { options };
        assert(m@ =~= list_items_options());
        m
    }

    /// The options, as (label, event) pairs numbered from 1.
    pub fn options(&self) -> (r: &Vec<(String, ScreenEvent)>)
        ensures
            options_view(r@) == self@,
    {
        &self.options
    }

    /// The event chosen by one line of input.
    pub fn select(&self, line: &str) -> (r: Result<ScreenEvent, NumberInputError>)
        ensures
            r == menu_choice(self@, trimmed(line@)),
    {
        choose_option(&self.options, line)
    }
}

/// The menu of kinds of credential to create.
pub struct CreateVCMenu {
    options: Vec<(String, ScreenEvent)>,
}

impl View for CreateVCMenu {
    type V = Seq<(Seq<char>, ScreenEvent)>;

    closed spec fn view(&self) -> Seq<(Seq<char>, ScreenEvent)> {
        options_view(self.options@)
    }
}

impl CreateVCMenu {
    pub fn new() -> (m: CreateVCMenu)
        ensures
            m@ == create_vc_options(),
    {
        let mut options: Vec<(String, ScreenEvent)> = Vec::new();
        options.push(option("Create Verifiable Credential", ScreenEvent::CreateNormalVC));
        options.push(
            option("Create Verifiable Credential with Selective Disclosure", ScreenEvent::CreateSDVC),
        );
        options.push(option("Back", ScreenEvent::Cancel));
        let m = CreateVCMenu { options };
        assert(m@ =~= create_vc_options());
        m
    }

    /// The options, as (label, event) pairs numbered from 1.
    pub fn options(&self) -> (r: &Vec<(String, ScreenEvent)>)
        ensures
            options_view(r@) == self@,
    {
        &self.options
    }

    /// The event chosen by one line of input.
    pub fn select(&self, line: &str) -> (r: Result<ScreenEvent, NumberInputError>)
        ensures
            r == menu_choice(self@, trimmed(line@)),
    {
        choose_option(&self.options, line)
    }
}

} // verus!
