//! The session model: what the tool holds while it runs, and the operations
//! that start and end a writing session.

use crate::config::DEFAULT_SESSION_DURATION_MINS;
use crate::records::{load_recent_files, names_of, recent_names};
use crate::text::{all_digits, count_words, is_all_digits, word_count};
use vstd::prelude::*;
use vstd::string::StringExecFns;

verus! {

/// Nanoseconds in a second.
pub const NANOS_PER_SEC: u64 = 1_000_000_000;

/// What the tool is doing.
#[derive(Debug, Clone, PartialEq, Eq)]
pub enum AppState {
    /// Choosing a session length, or looking through stored sessions.
    MainMenu,
    /// A writing session is running.
    Freewrite,
    /// A session has ended; its summary is shown.
    SessionEnd {
        /// Name under which the text was stored.
        final_filename: String,
        /// Words in the text.
        word_count: usize,
        /// Typing speed in hundredths of a word per minute.
        wpm_hundredths: u128,
    },
    /// The tool is about to exit.
    Quitting,
    /// A session length is being typed.
    CustomDurationInput,
}

/// An [`AppState`] as a mathematical value.
pub ghost enum AppStateView {
    MainMenu,
    Freewrite,
    SessionEnd { final_filename: Seq<char>, word_count: nat, wpm_hundredths: nat },
    Quitting,
    CustomDurationInput,
}

impl View for AppState {
    type V = AppStateView;

    open spec fn view(&self) -> AppStateView {
        match *self {
            AppState::MainMenu => AppStateView::MainMenu,
            AppState::Freewrite => AppStateView::Freewrite,
            AppState::SessionEnd { final_filename, word_count, wpm_hundredths } => {
                AppStateView::SessionEnd {
                    final_filename: final_filename@,
                    word_count: word_count as nat,
                    wpm_hundredths: wpm_hundredths as nat,
                }
            },
            AppState::Quitting => AppStateView::Quitting,
            AppState::CustomDurationInput => AppStateView::CustomDurationInput,
        }
    }
}

/// A choice of the session menu.
#[derive(Debug, Clone, Copy, PartialEq, Eq, Structural)]
pub enum MenuItem {
    Minute5,
    Minute10,
    Minute20,
    Custom,
}

impl MenuItem {
    /// The line that the menu shows for this choice.
    pub open spec fn label(self) -> Seq<char> {
        match self {
            MenuItem::Minute5 => "5 minute session (Default)"@,
            MenuItem::Minute10 => "10 minute session"@,
            MenuItem::Minute20 => "20 minute session"@,
            MenuItem::Custom => "Custom duration"@,
        }
    }

    /// Minutes that a session of this choice lasts; zero for the choice
    /// whose length is typed.
    pub open spec fn minutes(self) -> nat {
        match self {
            MenuItem::Minute5 => 5,
            MenuItem::Minute10 => 10,
            MenuItem::Minute20 => 20,
            MenuItem::Custom => 0,
        }
    }

    /// The line that the menu shows for this choice.
    pub fn to_string(&self) -> (label: String)
        ensures
            label@ == self.label(),
    {
        match self {
            MenuItem::Minute5 => String::from_str("5 minute session (Default)"),
            MenuItem::Minute10 => String::from_str("10 minute session"),
            MenuItem::Minute20 => String::from_str("20 minute session"),
            MenuItem::Custom => String::from_str("Custom duration"),
        }
    }

    /// Minutes that a session of this choice lasts; zero for the choice
    /// whose length is typed.
    pub fn to_duration(&self) -> (minutes: u64)
        ensures
            minutes == self.minutes(),
    {
        match self {
            MenuItem::Minute5 => 5,
            MenuItem::Minute10 => 10,
            MenuItem::Minute20 => 20,
            MenuItem::Custom => 0,
        }
    }
}

/// The list of the main menu that the movement keys act on.
#[derive(Debug, Clone, Copy, PartialEq, Eq, Structural)]
pub enum PanelFocus {
    Sessions,
    Recent,
}

/// What a step asks of its caller, who alone reads and writes files.
#[derive(Debug, Clone, PartialEq, Eq)]
pub enum Action {
    /// Nothing.
    Idle,
    /// Read the stored session `filename` and hand the outcome to
    /// [`App::load_file_content_from_name`].
    LoadFile { filename: String },
    /// Store the text under a new name and call [`App::end_session`].
    EndSession,
    /// Store the text under a new name, call [`App::end_session`] and then
    /// [`App::reset_to_main_menu`].
    EndSessionAndReset,
    /// Call [`App::reset_to_main_menu`].
    ResetToMainMenu,
}

/// An [`Action`] as a mathematical value.
pub ghost enum ActionView {
    Idle,
    LoadFile { filename: Seq<char> },
    EndSession,
    EndSessionAndReset,
    ResetToMainMenu,
}

impl View for Action {
    type V = ActionView;

    open spec fn view(&self) -> ActionView {
        match *self {
            Action::Idle => ActionView::Idle,
            Action::LoadFile { filename } => ActionView::LoadFile { filename: filename@ },
            Action::EndSession => ActionView::EndSession,
            Action::EndSessionAndReset => ActionView::EndSessionAndReset,
            Action::ResetToMainMenu => ActionView::ResetToMainMenu,
        }
    }
}

/// Time that has passed on the monotonic clock between two readings; none
/// where the second is the earlier one.
pub open spec fn elapsed_nanos(start: nat, now: nat) -> nat {
    if now >= start {
        (now - start) as nat
    } else {
        0
    }
}

/// Whole seconds that have passed between two readings of the clock.
pub open spec fn elapsed_secs(start: nat, now: nat) -> nat {
    elapsed_nanos(start, now) / (NANOS_PER_SEC as nat)
}

/// Hundredths of a word per minute that one word in one nanosecond makes:
/// a minute has sixty thousand million nanoseconds.
pub const HUNDREDTHS_PER_WORD_NANO: u64 = 6_000_000_000_000;

/// Typing speed in hundredths of a word per minute, to the nearest
/// hundredth: `words` in `nanos` nanoseconds are
/// `HUNDREDTHS_PER_WORD_NANO * words / nanos` hundredths. Zero where no time
/// has passed. What it is on given numbers follows from
/// [`lemma_wpm_hundredths_nearest`].
pub open spec fn wpm_hundredths(words: nat, nanos: nat) -> nat {
    if nanos == 0 {
        0
    } else {
        ((2 * HUNDREDTHS_PER_WORD_NANO * words + nanos) / ((2 * nanos) as int)) as nat
    }
}

/// The speed is the exact quotient, rounded: it lies within half a
/// hundredth of `HUNDREDTHS_PER_WORD_NANO * words / nanos`.
pub proof fn lemma_wpm_hundredths_nearest(words: nat, nanos: nat)
    requires
        nanos > 0,
    ensures
        2 * nanos * wpm_hundredths(words, nanos) <= 2 * HUNDREDTHS_PER_WORD_NANO * words + nanos,
        2 * HUNDREDTHS_PER_WORD_NANO * words + nanos < 2 * nanos * (wpm_hundredths(words, nanos)
            + 1),
{
    let n: int = 2 * HUNDREDTHS_PER_WORD_NANO * words + nanos;
    let d: int = (2 * nanos) as int;
    vstd::arithmetic::div_mod::lemma_fundamental_div_mod(n, d);
    vstd::arithmetic::div_mod::lemma_mod_bound(n, d);
    assert(d * (n / d) + d == d * (n / d + 1)) by (nonlinear_arith);
}

/// Words written in some time give a speed above zero, unless they are
/// fewer than one in two hundred minutes.
pub proof fn lemma_wpm_positive(words: nat, nanos: nat)
    requires
        0 < nanos <= 2 * HUNDREDTHS_PER_WORD_NANO * words,
    ensures
        wpm_hundredths(words, nanos) >= 1,
{
    lemma_wpm_hundredths_nearest(words, nanos);
    let h = wpm_hundredths(words, nanos);
    if h == 0 {
        assert(2 * nanos * (h + 1) == 2 * nanos) by (nonlinear_arith)
            requires
                h == 0,
        ;
    }
}

/// Whether `speed` is the rounded quotient of `words` words and `nanos`
/// nanoseconds, in hundredths of a word per minute: zero where no time has
/// passed, and otherwise within half a hundredth of the exact quotient.
pub open spec fn is_rounded_speed(speed: nat, words: nat, nanos: nat) -> bool {
    if nanos == 0 {
        speed == 0
    } else {
        2 * nanos * speed <= 2 * HUNDREDTHS_PER_WORD_NANO * words + nanos < 2 * nanos * (speed + 1)
    }
}

/// Computes the typing speed of `words` words in `nanos` nanoseconds.
pub fn words_per_minute_hundredths(words: usize, nanos: u64) -> (speed: u128)
    ensures
        speed == wpm_hundredths(words as nat, nanos as nat),
        is_rounded_speed(speed as nat, words as nat, nanos as nat),
{
    proof {
        if nanos > 0 {
            lemma_wpm_hundredths_nearest(words as nat, nanos as nat);
        }
    }
    if nanos == 0 {
        0
    } else {
        let twice: u128 = 2 * (HUNDREDTHS_PER_WORD_NANO as u128);
        assert(twice == 12_000_000_000_000);
        (twice * (words as u128) + nanos as u128) / (2 * (nanos as u128))
    }
}

/// The session model.
#[derive(Debug, Clone, PartialEq, Eq)]
pub struct App {
    /// The text written in the current session.
    pub text: String,
    /// Reading of the monotonic clock, in nanoseconds, at which the current
    /// session began.
    pub start_time: u64,
    /// Length of the current session in seconds.
    pub session_duration: u64,
    /// What the tool is doing.
    pub current_state: AppState,
    /// The choices of the session menu.
    pub menu_items: Vec<MenuItem>,
    /// Place of the cursor in the session menu.
    pub selected_menu_index: usize,
    /// The stored sessions, the newest first.
    pub recent_files: Vec<String>,
    /// Place of the cursor in the list of stored sessions.
    pub selected_recent_index: usize,
    /// The list that the movement keys act on.
    pub panel_focus: PanelFocus,
    /// Content of the stored session under the cursor, where one is shown.
    pub displayed_file_content: Option<String>,
    /// The digits typed so far for a session length.
    pub custom_duration_input_text: String,
}

/// An [`App`] as a mathematical value.
pub ghost struct AppView {
    pub text: Seq<char>,
    pub start_time: nat,
    pub session_duration: nat,
    pub current_state: AppStateView,
    pub menu_items: Seq<MenuItem>,
    pub selected_menu_index: nat,
    pub recent_files: Seq<Seq<char>>,
    pub selected_recent_index: nat,
    pub panel_focus: PanelFocus,
    pub displayed_file_content: Option<Seq<char>>,
    pub custom_duration_input_text: Seq<char>,
}

impl View for App {
    type V = AppView;

    open spec fn view(&self) -> AppView {
        AppView {
            text: self.text@,
            start_time: self.start_time as nat,
            session_duration: self.session_duration as nat,
            current_state: self.current_state@,
            menu_items: self.menu_items@,
            selected_menu_index: self.selected_menu_index as nat,
            recent_files: names_of(self.recent_files@),
            selected_recent_index: self.selected_recent_index as nat,
            panel_focus: self.panel_focus,
            displayed_file_content: match self.displayed_file_content {
                Some(content) => Some(content@),
                None => None,
            },
            custom_duration_input_text: self.custom_duration_input_text@,
        }
    }
}

/// The choices that a new model offers.
pub open spec fn default_menu() -> Seq<MenuItem> {
    seq![MenuItem::Minute5, MenuItem::Minute10, MenuItem::Minute20, MenuItem::Custom]
}

/// What is shown in place of a stored session that could not be read.
pub open spec fn read_error_text(filename: Seq<char>, error: Seq<char>) -> Seq<char> {
    "Error reading file "@ + filename + ": "@ + error
}

impl AppView {
    /// The cursors point into their lists, and the typed session length
    /// holds digits only.
    pub open spec fn wf(self) -> bool {
        &&& self.selected_menu_index < self.menu_items.len()
        &&& self.recent_files.len() > 0 ==> self.selected_recent_index < self.recent_files.len()
        &&& all_digits(self.custom_duration_input_text)
    }

    /// The model at startup, at the clock reading `now`, with the files
    /// `names` in the output directory.
    pub open spec fn fresh(now: nat, names: Seq<Seq<char>>) -> AppView {
        AppView {
            text: Seq::empty(),
            start_time: now,
            session_duration: (DEFAULT_SESSION_DURATION_MINS * 60) as nat,
            current_state: AppStateView::MainMenu,
            menu_items: default_menu(),
            selected_menu_index: 0,
            recent_files: recent_names(names),
            selected_recent_index: 0,
            panel_focus: PanelFocus::Sessions,
            displayed_file_content: None,
            custom_duration_input_text: Seq::empty(),
        }
    }

    /// The model once a session of `duration_secs` seconds has begun at
    /// `now`.
    pub open spec fn start_session(self, duration_secs: nat, now: nat) -> AppView {
        AppView {
            text: Seq::empty(),
            start_time: now,
            session_duration: duration_secs,
            current_state: AppStateView::Freewrite,
            ..self
        }
    }

    /// Nanoseconds since the session began, at the clock reading `now`.
    pub open spec fn session_nanos(self, now: nat) -> nat {
        elapsed_nanos(self.start_time, now)
    }

    /// Whole seconds since the session began, at the clock reading `now`.
    pub open spec fn session_secs(self, now: nat) -> nat {
        elapsed_secs(self.start_time, now)
    }

    /// The model once the session has ended at `now`, its text stored as
    /// `final_filename`, with the files `names` in the output directory. The
    /// cursor of the list of stored sessions stays where the new list still
    /// has an entry for it, and goes to the head otherwise.
    pub open spec fn end_session(
        self,
        final_filename: Seq<char>,
        now: nat,
        names: Seq<Seq<char>>,
    ) -> AppView {
        AppView {
            current_state: AppStateView::SessionEnd {
                final_filename,
                word_count: word_count(self.text),
                wpm_hundredths: wpm_hundredths(word_count(self.text), self.session_nanos(now)),
            },
            recent_files: recent_names(names),
            selected_recent_index: if self.selected_recent_index < recent_names(names).len() {
                self.selected_recent_index
            } else {
                0
            },
            ..self
        }
    }

    /// The model back in the main menu, with the files `names` in the
    /// output directory.
    pub open spec fn reset_to_main_menu(self, names: Seq<Seq<char>>) -> AppView {
        AppView {
            current_state: AppStateView::MainMenu,
            text: Seq::empty(),
            recent_files: recent_names(names),
            displayed_file_content: None,
            panel_focus: PanelFocus::Sessions,
            selected_menu_index: 0,
            selected_recent_index: 0,
            ..self
        }
    }

    /// The model once the stored session `filename` has been read, with the
    /// content, or else the description of the failure, in `outcome`.
    pub open spec fn load_file_content_from_name(
        self,
        filename: Seq<char>,
        outcome: Result<Seq<char>, Seq<char>>,
    ) -> AppView {
        AppView {
            displayed_file_content: Some(
                match outcome {
                    Ok(content) => content,
                    Err(error) => read_error_text(filename, error),
                },
            ),
            ..self
        }
    }

    /// Whether a session is running whose time is up at `now`.
    pub open spec fn session_expired(self, now: nat) -> bool {
        &&& self.current_state is Freewrite
        &&& elapsed_nanos(self.start_time, now) >= self.session_duration * NANOS_PER_SEC
    }

    /// What the timer asks for at `now`.
    pub open spec fn update(self, now: nat) -> ActionView {
        if self.session_expired(now) {
            ActionView::EndSession
        } else {
            ActionView::Idle
        }
    }

    /// Seconds left of the session at `now`; none once its time is up.
    pub open spec fn time_left_secs(self, now: nat) -> nat {
        if self.session_duration >= self.session_secs(now) {
            (self.session_duration - self.session_secs(now)) as nat
        } else {
            0
        }
    }
}

/// Views of the results of reading a file.
pub open spec fn outcome_view(outcome: Result<String, String>) -> Result<Seq<char>, Seq<char>> {
    match outcome {
        Ok(content) => Ok(content@),
        Err(error) => Err(error@),
    }
}

impl App {
    /// The model is well formed: see [`AppView::wf`].
    pub open spec fn wf(&self) -> bool {
        self@.wf()
    }

    /// Tells whether the model is well formed.
    pub fn is_well_formed(&self) -> (ok: bool)
        ensures
            ok == self.wf(),
    {
        self.selected_menu_index < self.menu_items.len() && (self.recent_files.len() == 0
            || self.selected_recent_index < self.recent_files.len()) && is_all_digits(
            self.custom_duration_input_text.as_str(),
        )
    }

    /// Makes the model at startup. `now` is the reading of the monotonic
    /// clock in nanoseconds, `names` the names of the files in the output
    /// directory.
    pub fn new(now: u64, names: Vec<String>) -> (app: App)
        ensures
            app@ == AppView::fresh(now as nat, names_of(names@)),
            app.wf(),
    {
        let mut menu_items: Vec<MenuItem> = Vec::new();
        menu_items.push(MenuItem::Minute5);
        menu_items.push(MenuItem::Minute10);
        menu_items.push(MenuItem::Minute20);
        menu_items.push(MenuItem::Custom);
        assert(menu_items@ =~= default_menu());
        let recent_files = load_recent_files(names);
        proof {
            crate::records::lemma_recent_names(names_of(names@));
        }
        App {
            text: String::new(),
            start_time: now,
            session_duration: DEFAULT_SESSION_DURATION_MINS * 60,
            current_state: AppState::MainMenu,
            menu_items,
            selected_menu_index: 0,
            recent_files,
            selected_recent_index: 0,
            panel_focus: PanelFocus::Sessions,
            displayed_file_content: None,
            custom_duration_input_text: String::new(),
        }
    }

    /// Counts the words of the text.
    pub fn get_word_count(&self) -> (n: usize)
        ensures
            n == word_count(self@.text),
    {
        count_words(self.text.as_str())
    }

    /// Nanoseconds since the session began, at the clock reading `now`.
    pub fn elapsed_nanos(&self, now: u64) -> (nanos: u64)
        ensures
            nanos == self@.session_nanos(now as nat),
    {
        if now >= self.start_time {
            now - self.start_time
        } else {
            0
        }
    }

    /// Whole seconds since the session began, at the clock reading `now`.
    pub fn elapsed_secs(&self, now: u64) -> (secs: u64)
        ensures
            secs == self@.session_secs(now as nat),
    {
        if now >= self.start_time {
            (now - self.start_time) / NANOS_PER_SEC
        } else {
            0
        }
    }

    /// Seconds left of the session at the clock reading `now`.
    pub fn time_left_secs(&self, now: u64) -> (secs: u64)
        ensures
            secs == self@.time_left_secs(now as nat),
    {
        let gone: u64 = self.elapsed_secs(now);
        if self.session_duration >= gone {
            self.session_duration - gone
        } else {
            0
        }
    }

    /// The timer: asks for the end of the session once its time is up, and
    /// for nothing otherwise. `now` is the reading of the monotonic clock in
    /// nanoseconds.
    pub fn update(&self, now: u64) -> (action: Action)
        ensures
            action@ == self@.update(now as nat),
    {
        match self.current_state {
            AppState::Freewrite => {
                let gone: u64 = if now >= self.start_time {
                    now - self.start_time
                } else {
                    0
                };
                if gone as u128 >= self.session_duration as u128 * (NANOS_PER_SEC as u128) {
                    Action::EndSession
                } else {
                    Action::Idle
                }
            },
            _ => Action::Idle,
        }
    }

    /// Begins a session of `duration_secs` seconds at the clock reading
    /// `now`, with an empty text.
    pub fn start_session(&mut self, duration_secs: u64, now: u64)
        requires
            duration_secs > 0,
        ensures
            final(self)@ == old(self)@.start_session(duration_secs as nat, now as nat),
            old(self).wf() ==> final(self).wf(),
    {
        self.text = String::new();
        self.start_time = now;
        self.session_duration = duration_secs;
        self.current_state = AppState::Freewrite;
    }

    /// Ends the session at the clock reading `now`. The caller has stored
    /// the text as `final_filename` and then listed the files `names` of the
    /// output directory.
    pub fn end_session(&mut self, final_filename: String, now: u64, names: Vec<String>)
        ensures
            final(self)@ == old(self)@.end_session(
                final_filename@,
                now as nat,
                names_of(names@),
            ),
            final(self)@.current_state is SessionEnd,
            is_rounded_speed(
                final(self)@.current_state->wpm_hundredths,
                word_count(old(self)@.text),
                old(self)@.session_nanos(now as nat),
            ),
            old(self).wf() ==> final(self).wf(),
    {
        proof {
            crate::records::lemma_recent_names(names_of(names@));
        }
        let word_count: usize = self.get_word_count();
        let nanos: u64 = self.elapsed_nanos(now);
        let wpm_hundredths: u128 = words_per_minute_hundredths(word_count, nanos);
        self.current_state = AppState::SessionEnd { final_filename, word_count, wpm_hundredths };
        self.recent_files = load_recent_files(names);
        if self.selected_recent_index >= self.recent_files.len() {
            self.selected_recent_index = 0;
        }
    }

    /// Takes in the outcome of reading the stored session `filename`: its
    /// content, or the description of the failure.
    pub fn load_file_content_from_name(
        &mut self,
        filename: String,
        outcome: Result<String, String>,
    )
        ensures
            final(self)@ == old(self)@.load_file_content_from_name(
                filename@,
                outcome_view(outcome),
            ),
            old(self).wf() ==> final(self).wf(),
    {
        match outcome {
            Ok(content) => {
                self.displayed_file_content = Some(content);
            },
            Err(error) => {
                let mut message = String::from_str("Error reading file ");
                message.append(filename.as_str());
                message.append(": ");
                message.append(error.as_str());
                self.displayed_file_content = Some(message);
            },
        }
    }

    /// Goes back to the main menu, with the files `names` in the output
    /// directory.
    pub fn reset_to_main_menu(&mut self, names: Vec<String>)
        ensures
            final(self)@ == old(self)@.reset_to_main_menu(names_of(names@)),
            old(self).wf() ==> final(self).wf(),
    {
        proof {
            crate::records::lemma_recent_names(names_of(names@));
        }
        self.current_state = AppState::MainMenu;
        self.text = String::new();
        self.recent_files = load_recent_files(names);
        self.displayed_file_content = None;
        self.panel_focus = PanelFocus::Sessions;
        self.selected_menu_index = 0;
        self.selected_recent_index = 0;
    }
}

/// The timer fires once for a session. A session of `duration_secs`
/// seconds that began at `start` is left alone at every earlier reading `at`
/// of the clock; from the reading at which exactly its length has passed,
/// the timer asks for its end; and once it has been ended, the timer asks
/// for nothing at any reading `later`.
pub proof fn lemma_timer_fires_once(
    s: AppView,
    duration_secs: nat,
    start: nat,
    at: nat,
    final_filename: Seq<char>,
    ended_at: nat,
    names: Seq<Seq<char>>,
    later: nat,
)
    requires
        duration_secs > 0,
    ensures
        ({
            let running = s.start_session(duration_secs, start);
            let due = (start + duration_secs * NANOS_PER_SEC) as nat;
            &&& at < due ==> running.update(at) == ActionView::Idle
            &&& at >= due ==> running.update(at) == ActionView::EndSession
            &&& running.update(due) == ActionView::EndSession
            &&& running.end_session(final_filename, ended_at, names).update(later)
                == ActionView::Idle
        }),
{
    let due = (start + duration_secs * NANOS_PER_SEC) as nat;
    assert(elapsed_nanos(start, due) == duration_secs * NANOS_PER_SEC);
}

/// A session that ends at the reading of the clock at which it began, or at
/// an earlier one, is given the speed zero; one that ends later is given the
/// rounded quotient of its words and its time.
pub proof fn lemma_wpm_zero_without_time(
    s: AppView,
    final_filename: Seq<char>,
    now: nat,
    names: Seq<Seq<char>>,
)
    ensures
        s.end_session(final_filename, now, names).current_state == (AppStateView::SessionEnd {
            final_filename,
            word_count: word_count(s.text),
            wpm_hundredths: if now <= s.start_time {
                0
            } else {
                wpm_hundredths(word_count(s.text), (now - s.start_time) as nat)
            },
        }),
{
}

/// The operations of the model keep it well formed, and a new model is well
/// formed.
pub proof fn lemma_operations_keep_wf(
    s: AppView,
    duration_secs: nat,
    now: nat,
    filename: Seq<char>,
    outcome: Result<Seq<char>, Seq<char>>,
    names: Seq<Seq<char>>,
)
    requires
        s.wf(),
    ensures
        AppView::fresh(now, names).wf(),
        s.start_session(duration_secs, now).wf(),
        s.end_session(filename, now, names).wf(),
        s.reset_to_main_menu(names).wf(),
        s.load_file_content_from_name(filename, outcome).wf(),
{
    crate::records::lemma_recent_names(names);
}

/// Leaving a session early skips its summary: to end the session and then
/// go back to the main menu gives the model that going back alone gives.
pub proof fn lemma_early_exit_skips_summary(
    s: AppView,
    final_filename: Seq<char>,
    now: nat,
    stored: Seq<Seq<char>>,
    listed: Seq<Seq<char>>,
)
    ensures
        s.end_session(final_filename, now, stored).reset_to_main_menu(listed)
            == s.reset_to_main_menu(listed),
{
}

} // verus!
