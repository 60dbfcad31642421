//! Fixed settings of the tool.

use vstd::prelude::*;

verus! {

/// Length, in minutes, of a session whose custom length cannot be used.
pub const DEFAULT_SESSION_DURATION_MINS: u64 = 5;

/// Directory that holds the stored sessions.
pub const OUTPUT_DIR: &'static str = "freewrite_sessions";

/// Greatest number of stored sessions listed in the main menu.
pub const MAX_RECENT_FILES: usize = 10;

/// Entry shown in place of an empty list of stored sessions.
pub const NO_RECENT_SESSION: &'static str = "There's no recent session";

} // verus!
