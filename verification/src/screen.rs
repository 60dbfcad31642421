//! The lines of text that the screens show from numbers of the session
//! model.

use crate::config::DEFAULT_SESSION_DURATION_MINS;
use crate::text::{decimal, push_decimal, push_zero_padded, zero_padded};
use vstd::prelude::*;
use vstd::string::StringExecFns;

verus! {

/// The line above the writing area: the time left as minutes and seconds,
/// each in at least two places, and the number of words.
pub open spec fn status_line_of(time_left_secs: nat, words: nat) -> Seq<char> {
    "Press Escape to go back. Time left: "@ + zero_padded(time_left_secs / 60, 2) + seq![':']
        + zero_padded(time_left_secs % 60, 2) + " | Word Count: "@ + decimal(words)
}

/// Writes the line above the writing area.
pub fn status_line(time_left_secs: u64, word_count: usize) -> (line: String)
    ensures
        line@ == status_line_of(time_left_secs as nat, word_count as nat),
{
    let mut line = String::from_str("Press Escape to go back. Time left: ");
    push_zero_padded(&mut line, (time_left_secs / 60) as u128, 2);
    line.push(':');
    push_zero_padded(&mut line, (time_left_secs % 60) as u128, 2);
    line.append(" | Word Count: ");
    push_decimal(&mut line, word_count as u128);
    line
}

/// The line of the summary that tells the number of words.
pub open spec fn word_count_line_of(words: nat) -> Seq<char> {
    "Word Count: "@ + decimal(words)
}

/// Writes the line of the summary that tells the number of words.
pub fn word_count_line(word_count: usize) -> (line: String)
    ensures
        line@ == word_count_line_of(word_count as nat),
{
    let mut line = String::from_str("Word Count: ");
    push_decimal(&mut line, word_count as u128);
    line
}

/// The line of the summary that tells the typing speed: words per minute
/// with two places behind the point.
pub open spec fn speed_line_of(wpm_hundredths: nat) -> Seq<char> {
    "Typing Speed: "@ + decimal(wpm_hundredths / 100) + seq!['.'] + zero_padded(
        wpm_hundredths % 100,
        2,
    ) + " word/minutes"@
}

/// Writes the line of the summary that tells the typing speed.
pub fn speed_line(wpm_hundredths: u128) -> (line: String)
    ensures
        line@ == speed_line_of(wpm_hundredths as nat),
{
    let mut line = String::from_str("Typing Speed: ");
    push_decimal(&mut line, wpm_hundredths / 100);
    line.push('.');
    push_zero_padded(&mut line, wpm_hundredths % 100, 2);
    line.append(" word/minutes");
    line
}

/// The prompt above the field in which a session length is typed.
pub open spec fn duration_prompt_of() -> Seq<char> {
    "Enter duration (default "@ + decimal(DEFAULT_SESSION_DURATION_MINS as nat) + "):"@
}

/// Writes the prompt above the field in which a session length is typed.
pub fn duration_prompt() -> (line: String)
    ensures
        line@ == duration_prompt_of(),
{
    let mut line = String::from_str("Enter duration (default ");
    push_decimal(&mut line, DEFAULT_SESSION_DURATION_MINS as u128);
    line.append("):");
    line
}

} // verus!
