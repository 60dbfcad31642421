//! State machine of a timed free-writing tool.
//!
//! A user picks a session length, writes until the time is up, and is shown
//! the number of words and the typing speed. This crate holds the session
//! model ([`App`]), the routing of key events ([`event::handle_event`]) and
//! the session timer ([`App::update`]), together with the naming and the
//! listing of the stored sessions ([`records`]) and the arithmetic of the
//! screens ([`layout`], [`screen`]).
//!
//! The crate reads no keyboard, no file and no clock. Every step takes the
//! reading of the monotonic clock, in nanoseconds, as an argument and answers
//! with an [`Action`]: what the caller has to read or write before the next
//! step, and which operation of the model takes the outcome. A stored session
//! is named from the reading of the wall clock that the caller hands to
//! [`records::record_name_at`].
//!
//! Contracts are stated over the views of the types, [`app_logic::AppView`]
//! above all: each operation of [`App`] has a function of the same name on
//! the view that says what it does.

pub mod app_logic;
pub mod config;
pub mod event;
pub mod layout;
pub mod records;
pub mod screen;
pub mod text;

pub use app_logic::{Action, App, AppState, MenuItem, PanelFocus};
