//! Interactive session engine for a terminal identity wallet: the screen
//! state machine, the dispatcher's step, the paginated selector, the
//! disclosure picker, and the pure helpers that the screens rely on.

pub mod command;
pub mod config;
pub mod disclosure;
pub mod encoding;
pub mod input;
pub mod json;
pub mod menu;
pub mod models;
pub mod output;
pub mod pager;
pub mod session;
pub mod state;
pub mod text;
pub mod utils;

pub use command::{
    parse_did_owner, Command, ConfirmStep, ExitAppCommand, KeyPress, PairConfirmStep, ScreenCommand,
};
pub use config::{Config, MissingVariable, VariablesConfig, TABLE_PAGE_SIZE};
pub use disclosure::{DisclosureToggleSet, ToggleAction, ToggleError};
pub use encoding::{
    decode_base64, disclosure_key_of, extract_disclosure_keys, find_member_text, get_entities_from_jwt,
    EncodingError,
};
pub use input::{Input, NumberInputError};
pub use json::{generate_json_paths, have_same_structure, insert_holder_did, JsonValue, SubjectError};
pub use menu::{CreateVCMenu, ListCreatedItems, MainMenuCommand};
pub use models::{jwt_preview, Did, ModelError, Timestamp, Vc, PREVIEW_EDGE};
pub use output::Output;
pub use pager::{PageAction, PageError, PaginatedSelector};
pub use session::{App, Flow};
pub use state::{InvalidTransition, ScreenEvent, ScreenFSM, ScreenState};
pub use utils::{add_base64_padding, lines_ignoring_comments, remove_file_extension, sd_file_path};
