//! The input router: what a key press does to the session model in each
//! state of the tool.

use crate::app_logic::{Action, ActionView, App, AppState, AppStateView, AppView, PanelFocus};
use crate::config::{DEFAULT_SESSION_DURATION_MINS, NO_RECENT_SESSION};
use crate::text::{
    char_is_ascii_digit, char_is_control, is_ascii_digit, is_control, parse_decimal,
    parsed_decimal,
};
use vstd::prelude::*;
use vstd::string::StringExecFns;

verus! {

/// The key of a key event, as far as the tool tells keys apart.
#[derive(Debug, Clone, Copy, PartialEq, Eq, Structural)]
pub enum KeyCode {
    /// A key that writes a character.
    Char(char),
    Enter,
    Esc,
    Backspace,
    /// Any other key.
    Other,
}

/// Whether a key went down, is held or went up.
#[derive(Debug, Clone, Copy, PartialEq, Eq, Structural)]
pub enum KeyEventKind {
    Press,
    Repeat,
    Release,
}

/// The modifier keys held during a key event, as far as the tool reads them.
#[derive(Debug, Clone, Copy, PartialEq, Eq, Structural)]
pub struct KeyModifiers {
    pub control: bool,
}

/// The cursor one place further down a list of `len` entries, back at the
/// head after the last.
pub open spec fn cursor_down(index: nat, len: nat) -> nat {
    (((index + 1) as int) % (len as int)) as nat
}

/// The cursor one place further up a list of `len` entries, at the last
/// entry after the head.
pub open spec fn cursor_up(index: nat, len: nat) -> nat {
    (((index + len - 1) as int) % (len as int)) as nat
}

/// Minutes that the typed session length `buffer` stands for: the number it
/// writes, or the default length where it writes none, writes zero, or
/// writes more minutes than a session can hold in seconds.
pub open spec fn custom_minutes(buffer: Seq<char>) -> nat {
    match parsed_decimal(buffer) {
        Some(minutes) => if 0 < minutes && minutes * 60 <= u64::MAX {
            minutes as nat
        } else {
            DEFAULT_SESSION_DURATION_MINS as nat
        },
        None => DEFAULT_SESSION_DURATION_MINS as nat,
    }
}

impl AppView {
    /// Whether the list of stored sessions names any, not just their
    /// absence.
    pub open spec fn has_records(self) -> bool {
        self.recent_files.len() > 0 && self.recent_files[0] != NO_RECENT_SESSION@
    }

    /// The stored session under the cursor.
    pub open spec fn selected_record(self) -> Seq<char> {
        self.recent_files[self.selected_recent_index as int]
    }

    /// The main menu with the cursor of the list of stored sessions at
    /// `index`; where the list names sessions, the one under the cursor is
    /// to be read.
    pub open spec fn browse_to(self, index: nat) -> (AppView, ActionView) {
        if self.has_records() {
            let moved = AppView { selected_recent_index: index, ..self };
            (moved, ActionView::LoadFile { filename: moved.selected_record() })
        } else {
            (self, ActionView::Idle)
        }
    }

    /// A key press in the main menu.
    pub open spec fn main_menu_key(self, key: KeyCode, now: nat) -> (AppView, ActionView) {
        match key {
            KeyCode::Char(c) => {
                if c == 'q' || c == 'Q' {
                    (AppView { current_state: AppStateView::Quitting, ..self }, ActionView::Idle)
                } else if c == 'h' {
                    (
                        AppView {
                            panel_focus: PanelFocus::Sessions,
                            displayed_file_content: None,
                            ..self
                        },
                        ActionView::Idle,
                    )
                } else if c == 'l' {
                    if self.has_records() {
                        (
                            AppView { panel_focus: PanelFocus::Recent, ..self },
                            ActionView::LoadFile { filename: self.selected_record() },
                        )
                    } else {
                        (
                            AppView {
                                panel_focus: PanelFocus::Recent,
                                displayed_file_content: None,
                                ..self
                            },
                            ActionView::Idle,
                        )
                    }
                } else if c == 'j' {
                    match self.panel_focus {
                        PanelFocus::Sessions => (
                            AppView {
                                selected_menu_index: cursor_down(
                                    self.selected_menu_index,
                                    self.menu_items.len(),
                                ),
                                ..self
                            },
                            ActionView::Idle,
                        ),
                        PanelFocus::Recent => self.browse_to(
                            cursor_down(self.selected_recent_index, self.recent_files.len()),
                        ),
                    }
                } else if c == 'k' {
                    match self.panel_focus {
                        PanelFocus::Sessions => (
                            AppView {
                                selected_menu_index: cursor_up(
                                    self.selected_menu_index,
                                    self.menu_items.len(),
                                ),
                                ..self
                            },
                            ActionView::Idle,
                        ),
                        PanelFocus::Recent => self.browse_to(
                            cursor_up(self.selected_recent_index, self.recent_files.len()),
                        ),
                    }
                } else {
                    (self, ActionView::Idle)
                }
            },
            KeyCode::Enter => match self.panel_focus {
                PanelFocus::Sessions => {
                    let minutes = self.menu_items[self.selected_menu_index as int].minutes();
                    if minutes == 0 {
                        (
                            AppView {
                                custom_duration_input_text: Seq::empty(),
                                current_state: AppStateView::CustomDurationInput,
                                ..self
                            },
                            ActionView::Idle,
                        )
                    } else {
                        (self.start_session(minutes * 60, now), ActionView::Idle)
                    }
                },
                PanelFocus::Recent => (self, ActionView::Idle),
            },
            _ => (self, ActionView::Idle),
        }
    }

    /// A key press while a session is running.
    pub open spec fn freewrite_key(self, key: KeyCode, modifiers: KeyModifiers) -> (
        AppView,
        ActionView,
    ) {
        match key {
            KeyCode::Char(c) => {
                if c == 'c' && modifiers.control {
                    (AppView { current_state: AppStateView::Quitting, ..self }, ActionView::Idle)
                } else if !is_control(c) {
                    (AppView { text: self.text.push(c), ..self }, ActionView::Idle)
                } else {
                    (self, ActionView::Idle)
                }
            },
            KeyCode::Esc => (self, ActionView::EndSessionAndReset),
            KeyCode::Backspace => {
                if self.text.len() > 0 {
                    (AppView { text: self.text.drop_last(), ..self }, ActionView::Idle)
                } else {
                    (self, ActionView::Idle)
                }
            },
            KeyCode::Enter => (AppView { text: self.text.push('\n'), ..self }, ActionView::Idle),
            KeyCode::Other => (self, ActionView::Idle),
        }
    }

    /// A key press while the summary of a session is shown.
    pub open spec fn session_end_key(self, key: KeyCode) -> (AppView, ActionView) {
        match key {
            KeyCode::Enter => (self, ActionView::ResetToMainMenu),
            KeyCode::Char(c) => {
                if c == 'q' || c == 'Q' {
                    (AppView { current_state: AppStateView::Quitting, ..self }, ActionView::Idle)
                } else {
                    (self, ActionView::Idle)
                }
            },
            _ => (self, ActionView::Idle),
        }
    }

    /// A key press while a session length is typed.
    pub open spec fn custom_duration_key(self, key: KeyCode, now: nat) -> (AppView, ActionView) {
        match key {
            KeyCode::Enter => (
                AppView {
                    custom_duration_input_text: Seq::empty(),
                    ..self.start_session(
                        custom_minutes(self.custom_duration_input_text) * 60,
                        now,
                    )
                },
                ActionView::Idle,
            ),
            KeyCode::Esc => (
                AppView {
                    current_state: AppStateView::MainMenu,
                    custom_duration_input_text: Seq::empty(),
                    ..self
                },
                ActionView::Idle,
            ),
            KeyCode::Backspace => {
                if self.custom_duration_input_text.len() > 0 {
                    (
                        AppView {
                            custom_duration_input_text: self.custom_duration_input_text.drop_last(),
                            ..self
                        },
                        ActionView::Idle,
                    )
                } else {
                    (self, ActionView::Idle)
                }
            },
            KeyCode::Char(c) => {
                if is_ascii_digit(c) {
                    (
                        AppView {
                            custom_duration_input_text: self.custom_duration_input_text.push(c),
                            ..self
                        },
                        ActionView::Idle,
                    )
                } else {
                    (self, ActionView::Idle)
                }
            },
            KeyCode::Other => (self, ActionView::Idle),
        }
    }

    /// A key event at the clock reading `now`: only a key that goes down
    /// acts, and how it acts depends on the state of the tool.
    pub open spec fn handle_event(
        self,
        kind: KeyEventKind,
        key: KeyCode,
        modifiers: KeyModifiers,
        now: nat,
    ) -> (AppView, ActionView) {
        if kind is Press {
            match self.current_state {
                AppStateView::MainMenu => self.main_menu_key(key, now),
                AppStateView::Freewrite => self.freewrite_key(key, modifiers),
                AppStateView::SessionEnd { .. } => self.session_end_key(key),
                AppStateView::CustomDurationInput => self.custom_duration_key(key, now),
                AppStateView::Quitting => (self, ActionView::Idle),
            }
        } else {
            (self, ActionView::Idle)
        }
    }
}

/// Reads the typed session length `buffer`.
pub fn parse_custom_minutes(buffer: &str) -> (minutes: u64)
    ensures
        minutes == custom_minutes(buffer@),
        0 < minutes,
        minutes * 60 <= u64::MAX,
{
    match parse_decimal(buffer) {
        Some(minutes) => {
            if 0 < minutes && minutes <= u64::MAX / 60 {
                minutes
            } else {
                DEFAULT_SESSION_DURATION_MINS
            }
        },
        None => DEFAULT_SESSION_DURATION_MINS,
    }
}

impl App {
    /// Whether the list of stored sessions names any.
    pub fn has_records(&self) -> (r: bool)
        ensures
            r == self@.has_records(),
    {
        if self.recent_files.len() == 0 {
            false
        } else {
            let placeholder = String::from_str(NO_RECENT_SESSION);
            !(self.recent_files[0] == placeholder)
        }
    }

    /// Moves the cursor of the list of stored sessions to `index` and asks
    /// for the session there, where the list names sessions.
    fn browse_to(&mut self, index: usize) -> (action: Action)
        requires
            old(self).wf(),
            old(self)@.recent_files.len() > 0 ==> index < old(self)@.recent_files.len(),
        ensures
            (final(self)@, action@) == old(self)@.browse_to(index as nat),
            final(self).wf(),
    {
        if self.has_records() {
            self.selected_recent_index = index;
            Action::LoadFile { filename: self.recent_files[index].clone() }
        } else {
            Action::Idle
        }
    }
}

/// Routes a key press in the main menu.
pub fn handle_main_menu_event(app: &mut App, key_code: KeyCode, now: u64) -> (action: Action)
    requires
        old(app).wf(),
    ensures
        (final(app)@, action@) == old(app)@.main_menu_key(key_code, now as nat),
        final(app).wf(),
{
    match key_code {
        KeyCode::Char(c) => {
            if c == 'q' || c == 'Q' {
                app.current_state = AppState::Quitting;
                Action::Idle
            } else if c == 'h' {
                app.panel_focus = PanelFocus::Sessions;
                app.displayed_file_content = None;
                Action::Idle
            } else if c == 'l' {
                app.panel_focus = PanelFocus::Recent;
                if app.has_records() {
                    Action::LoadFile {
                        filename: app.recent_files[app.selected_recent_index].clone(),
                    }
                } else {
                    app.displayed_file_content = None;
                    Action::Idle
                }
            } else if c == 'j' {
                match app.panel_focus {
                    PanelFocus::Sessions => {
                        let len: usize = app.menu_items.len();
                        app.selected_menu_index = step_down(app.selected_menu_index, len);
                        Action::Idle
                    },
                    PanelFocus::Recent => {
                        let len: usize = app.recent_files.len();
                        let index: usize = if len == 0 {
                            0
                        } else {
                            step_down(app.selected_recent_index, len)
                        };
                        app.browse_to(index)
                    },
                }
            } else if c == 'k' {
                match app.panel_focus {
                    PanelFocus::Sessions => {
                        let len: usize = app.menu_items.len();
                        app.selected_menu_index = step_up(app.selected_menu_index, len);
                        Action::Idle
                    },
                    PanelFocus::Recent => {
                        let len: usize = app.recent_files.len();
                        let index: usize = if len == 0 {
                            0
                        } else {
                            step_up(app.selected_recent_index, len)
                        };
                        app.browse_to(index)
                    },
                }
            } else {
                Action::Idle
            }
        },
        KeyCode::Enter => match app.panel_focus {
            PanelFocus::Sessions => {
                let duration: u64 = app.menu_items[app.selected_menu_index].to_duration();
                if duration == 0 {
                    app.custom_duration_input_text = String::new();
                    app.current_state = AppState::CustomDurationInput;
                } else {
                    app.start_session(duration * 60, now);
                }
                Action::Idle
            },
            PanelFocus::Recent => Action::Idle,
        },
        _ => Action::Idle,
    }
}

/// The place below `index` in a list of `len` entries.
fn step_down(index: usize, len: usize) -> (down: usize)
    requires
        index < len,
    ensures
        down == cursor_down(index as nat, len as nat),
        down < len,
{
    (index + 1) % len
}

/// The place above `index` in a list of `len` entries.
fn step_up(index: usize, len: usize) -> (up: usize)
    requires
        index < len,
    ensures
        up == cursor_up(index as nat, len as nat),
        up < len,
{
    if index == 0 {
        assert(((len - 1) as int) % (len as int) == len - 1) by {
            vstd::arithmetic::div_mod::lemma_small_mod((len - 1) as nat, len as nat);
        }
        len - 1
    } else {
        assert(((index + len - 1) as int) % (len as int) == index - 1) by {
            vstd::arithmetic::div_mod::lemma_mod_add_multiples_vanish(
                (index - 1) as int,
                len as int,
            );
            vstd::arithmetic::div_mod::lemma_small_mod((index - 1) as nat, len as nat);
        }
        index - 1
    }
}

/// Routes a key press while a session is running.
pub fn handle_freewrite_event(app: &mut App, key_code: KeyCode, key_modifiers: KeyModifiers) -> (action:
    Action)
    requires
        old(app).wf(),
    ensures
        (final(app)@, action@) == old(app)@.freewrite_key(key_code, key_modifiers),
        final(app).wf(),
{
    match key_code {
        KeyCode::Char(c) => {
            if c == 'c' && key_modifiers.control {
                app.current_state = AppState::Quitting;
            } else if !char_is_control(c) {
                app.text.push(c);
            }
            Action::Idle
        },
        KeyCode::Esc => Action::EndSessionAndReset,
        KeyCode::Backspace => {
            let _ = app.text.pop();
            Action::Idle
        },
        KeyCode::Enter => {
            app.text.push('\n');
            Action::Idle
        },
        KeyCode::Other => Action::Idle,
    }
}

/// Routes a key press while the summary of a session is shown.
pub fn handle_session_end_event(app: &mut App, key_code: KeyCode) -> (action: Action)
    requires
        old(app).wf(),
    ensures
        (final(app)@, action@) == old(app)@.session_end_key(key_code),
        final(app).wf(),
{
    match key_code {
        KeyCode::Enter => Action::ResetToMainMenu,
        KeyCode::Char(c) => {
            if c == 'q' || c == 'Q' {
                app.current_state = AppState::Quitting;
            }
            Action::Idle
        },
        _ => Action::Idle,
    }
}

/// Routes a key press while a session length is typed.
pub fn handle_custom_duration_input_event(app: &mut App, key_code: KeyCode, now: u64) -> (action:
    Action)
    requires
        old(app).wf(),
    ensures
        (final(app)@, action@) == old(app)@.custom_duration_key(key_code, now as nat),
        final(app).wf(),
{
    match key_code {
        KeyCode::Enter => {
            let custom_duration: u64 = parse_custom_minutes(app.custom_duration_input_text.as_str());
            app.start_session(custom_duration * 60, now);
            app.custom_duration_input_text = String::new();
        },
        KeyCode::Esc => {
            app.current_state = AppState::MainMenu;
            app.custom_duration_input_text = String::new();
        },
        KeyCode::Backspace => {
            let _ = app.custom_duration_input_text.pop();
        },
        KeyCode::Char(c) => {
            if char_is_ascii_digit(c) {
                app.custom_duration_input_text.push(c);
            }
        },
        KeyCode::Other => {},
    }
    Action::Idle
}

/// Routes a key event at the clock reading `now`, in nanoseconds of the
/// monotonic clock. Returns what the caller has to do before the next
/// step.
pub fn handle_event(
    app: &mut App,
    key_event_kind: KeyEventKind,
    key_code: KeyCode,
    key_modifiers: KeyModifiers,
    now: u64,
) -> (action: Action)
    requires
        old(app).wf(),
    ensures
        (final(app)@, action@) == old(app)@.handle_event(
            key_event_kind,
            key_code,
            key_modifiers,
            now as nat,
        ),
        final(app).wf(),
{
    match key_event_kind {
        KeyEventKind::Press => match app.current_state {
            AppState::MainMenu => handle_main_menu_event(app, key_code, now),
            AppState::Freewrite => handle_freewrite_event(app, key_code, key_modifiers),
            AppState::SessionEnd { .. } => handle_session_end_event(app, key_code),
            AppState::CustomDurationInput => handle_custom_duration_input_event(
                app,
                key_code,
                now,
            ),
            AppState::Quitting => Action::Idle,
        },
        _ => Action::Idle,
    }
}

/// No modifier key is held.
pub open spec fn no_modifiers() -> KeyModifiers {
    KeyModifiers { control: false }
}

/// The key that writes the character `c`.
pub open spec fn char_key(c: char) -> KeyCode {
    KeyCode::Char(c)
}

/// The keys that write the characters `chars`.
pub open spec fn char_keys(chars: Seq<char>) -> Seq<KeyCode> {
    chars.map_values(|c: char| char_key(c))
}

/// The model once the keys `keys` have gone down one after the other, with
/// no modifier held, at the clock reading `now`.
pub open spec fn press_all(s: AppView, keys: Seq<KeyCode>, now: nat) -> AppView
    decreases keys.len(),
{
    if keys.len() == 0 {
        s
    } else {
        press_all(s, keys.drop_last(), now).handle_event(
            KeyEventKind::Press,
            keys.last(),
            no_modifiers(),
            now,
        ).0
    }
}

/// Whether `chars` holds no control character.
pub open spec fn no_control(chars: Seq<char>) -> bool {
    forall|i: int| 0 <= i < chars.len() ==> !is_control(#[trigger] chars[i])
}

/// Typing during a session appends: characters that are no control
/// characters end up behind the text, in the order typed, and nothing else
/// changes. The words of the text are then those of the old text followed by
/// the characters typed.
pub proof fn lemma_typing_appends(s: AppView, chars: Seq<char>, now: nat)
    requires
        s.current_state is Freewrite,
        no_control(chars),
    ensures
        press_all(s, char_keys(chars), now) == (AppView { text: s.text + chars, ..s }),
        crate::text::word_count(press_all(s, char_keys(chars), now).text)
            == crate::text::word_count(s.text + chars),
    decreases chars.len(),
{
    let keys = char_keys(chars);
    if chars.len() == 0 {
        assert(s.text + chars =~= s.text);
    } else {
        let head = chars.drop_last();
        assert(keys.len() == chars.len());
        assert(keys.drop_last() =~= char_keys(head));
        assert(keys.last() == KeyCode::Char(chars.last()));
        assert(forall|i: int| 0 <= i < head.len() ==> head[i] == chars[i]);
        lemma_typing_appends(s, head, now);
        assert((s.text + head).push(chars.last()) =~= s.text + chars);
    }
}

/// While a session length is typed, the digits among the characters typed
/// end up behind the digits typed before, in the order typed; every other
/// character is dropped, and nothing else changes.
pub proof fn lemma_custom_duration_keeps_digits(s: AppView, chars: Seq<char>, now: nat)
    requires
        s.current_state is CustomDurationInput,
    ensures
        press_all(s, char_keys(chars), now) == (AppView {
            custom_duration_input_text: s.custom_duration_input_text + chars.filter(
                |c: char| is_ascii_digit(c),
            ),
            ..s
        }),
    decreases chars.len(),
{
    reveal(Seq::filter);
    let keys = char_keys(chars);
    let digit = |c: char| is_ascii_digit(c);
    if chars.len() == 0 {
        assert(s.custom_duration_input_text + chars.filter(digit) =~= s.custom_duration_input_text);
    } else {
        let head = chars.drop_last();
        assert(keys.len() == chars.len());
        assert(keys.drop_last() =~= char_keys(head));
        assert(keys.last() == KeyCode::Char(chars.last()));
        lemma_custom_duration_keeps_digits(s, head, now);
        let before = s.custom_duration_input_text + head.filter(digit);
        if is_ascii_digit(chars.last()) {
            assert(before.push(chars.last()) =~= s.custom_duration_input_text + chars.filter(
                digit,
            ));
        }
    }
}

/// A cursor stays inside its list and wraps at both ends: one place down
/// from the last entry is the head, one place up from the head is the last
/// entry.
pub proof fn lemma_cursor_wraps(index: nat, len: nat)
    requires
        index < len,
    ensures
        cursor_down(index, len) < len,
        cursor_up(index, len) < len,
        index + 1 < len ==> cursor_down(index, len) == index + 1,
        index + 1 == len ==> cursor_down(index, len) == 0,
        index > 0 ==> cursor_up(index, len) == index - 1,
        index == 0 ==> cursor_up(index, len) == len - 1,
{
    if index + 1 < len {
        vstd::arithmetic::div_mod::lemma_small_mod(index + 1, len);
    } else {
        vstd::arithmetic::div_mod::lemma_mod_self_0(len as int);
    }
    if index > 0 {
        vstd::arithmetic::div_mod::lemma_mod_add_multiples_vanish((index - 1) as int, len as int);
        vstd::arithmetic::div_mod::lemma_small_mod((index - 1) as nat, len);
    } else {
        vstd::arithmetic::div_mod::lemma_small_mod((len - 1) as nat, len);
    }
}

/// Every key event leaves a well-formed model well formed: the cursors stay
/// inside their lists and the typed session length holds digits only.
pub proof fn lemma_handle_event_keeps_wf(
    s: AppView,
    kind: KeyEventKind,
    key: KeyCode,
    modifiers: KeyModifiers,
    now: nat,
)
    requires
        s.wf(),
    ensures
        s.handle_event(kind, key, modifiers, now).0.wf(),
{
    lemma_cursor_wraps(s.selected_menu_index, s.menu_items.len());
    if s.recent_files.len() > 0 {
        lemma_cursor_wraps(s.selected_recent_index, s.recent_files.len());
    }
}

/// The text changes only while a session is running: in every other state
/// a key event leaves it as it is, or empties it to begin a session.
pub proof fn lemma_text_changes_only_in_freewrite(
    s: AppView,
    kind: KeyEventKind,
    key: KeyCode,
    modifiers: KeyModifiers,
    now: nat,
)
    requires
        !(s.current_state is Freewrite),
    ensures
        ({
            let after = s.handle_event(kind, key, modifiers, now).0;
            after.text == s.text || (after.text.len() == 0 && after.current_state is Freewrite)
        }),
{
}

/// While a session is running, a key changes the text by one character at
/// its end, or not at all, and leaves the length and the start of the
/// session as they are.
pub proof fn lemma_freewrite_key_discipline(
    s: AppView,
    kind: KeyEventKind,
    key: KeyCode,
    modifiers: KeyModifiers,
    now: nat,
)
    requires
        s.current_state is Freewrite,
    ensures
        ({
            let after = s.handle_event(kind, key, modifiers, now).0;
            &&& after.session_duration == s.session_duration
            &&& after.start_time == s.start_time
            &&& (after.text == s.text || (s.text.len() > 0 && after.text == s.text.drop_last())
                || (exists|c: char| after.text == s.text.push(c)))
        }),
{
    let after = s.handle_event(kind, key, modifiers, now).0;
    if after.text != s.text && !(s.text.len() > 0 && after.text == s.text.drop_last()) {
        match key {
            KeyCode::Char(c) => {
                assert(after.text == s.text.push(c));
            },
            _ => {
                assert(after.text == s.text.push('\n'));
            },
        }
    }
}

} // verus!
