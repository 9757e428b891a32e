//! Output selection for the command-line front end: the rendering format, the
//! color preference, and the small records that commands render.

use crate::text::{eq_ignore_ascii_case, push_str, str_eq_ignore_ascii_case, trim, trim_string};
use vstd::prelude::*;

verus! {

/// Error details inside a JSON command response.
#[derive(Debug, Clone)]
pub struct CliErrorInfo {
    pub code: String,
    pub message: String,
    pub hint: Option<String>,
}

impl CliErrorInfo {
    /// An error record with the given code, message and optional hint.
    pub fn new(code: &str, message: &str, hint: Option<&str>) -> (info: CliErrorInfo)
        ensures
            info.code@ == code@,
            info.message@ == message@,
            match hint {
                Some(h) => info.hint matches Some(t) && t@ == h@,
                None => info.hint is None,
            },
    {
        let hint_text = match hint {
            Some(h) => Some(h.to_string()),
            None => None,
        };
        CliErrorInfo { code: code.to_string(), message: message.to_string(), hint: hint_text }
    }
}

/// How a command renders its result.
#[derive(Debug, Clone, Copy, PartialEq, Eq, Structural)]
pub enum OutputFormat {
    /// Human-readable output.
    Human,
    /// Machine-readable JSON.
    Json,
    /// Minimal output.
    Quiet,
}

/// Whether ANSI colors are used.
#[derive(Debug, Clone, Copy, PartialEq, Eq, Structural)]
pub enum ColorChoice {
    /// Colors when standard output is a terminal and `NO_COLOR` is unset.
    Auto,
    /// Always colors.
    Always,
    /// Never colors.
    Never,
}

impl Default for ColorChoice {
    fn default() -> (choice: ColorChoice)
        ensures
            choice == ColorChoice::Auto,
    {
        ColorChoice::Auto
    }
}

/// Whether colors are enabled for `choice`, given whether `NO_COLOR` is set
/// and whether standard output is a terminal.
pub open spec fn colors_enabled_spec(choice: ColorChoice, no_color_set: bool, is_terminal: bool) -> bool {
    match choice {
        ColorChoice::Never => false,
        ColorChoice::Always => true,
        ColorChoice::Auto => !no_color_set && is_terminal,
    }
}

/// Whether colors are enabled for `choice` in the given environment.
pub fn colors_enabled(choice: ColorChoice, no_color_set: bool, is_terminal: bool) -> (enabled: bool)
    ensures
        enabled == colors_enabled_spec(choice, no_color_set, is_terminal),
{
    match choice {
        ColorChoice::Never => false,
        ColorChoice::Always => true,
        ColorChoice::Auto => !no_color_set && is_terminal,
    }
}

/// A key and its value, as rendered in config and status listings.
#[derive(Debug, Clone)]
pub struct KeyValue {
    pub key: String,
    pub value: String,
}

impl KeyValue {
    /// The display form `key: value`.
    pub fn to_string(&self) -> (text: String)
        ensures
            text@ == self.key@ + ": "@ + self.value@,
    {
        let mut text = self.key.clone();
        push_str(&mut text, ": ");
        push_str(&mut text, self.value.as_str());
        text
    }
}

/// Whether a typed confirmation answer accepts: `y` or `yes`, ignoring
/// surrounding whitespace and letter case.
pub open spec fn confirms_spec(answer: Seq<char>) -> bool {
    eq_ignore_ascii_case(trim(answer), "y"@) || eq_ignore_ascii_case(trim(answer), "yes"@)
}

/// Whether the answer typed at a yes/no prompt confirms the action.
pub fn is_confirmation(answer: &str) -> (yes: bool)
    ensures
        yes == confirms_spec(answer@),
{
    let trimmed = trim_string(answer);
    str_eq_ignore_ascii_case(trimmed.as_str(), "y") || str_eq_ignore_ascii_case(trimmed.as_str(), "yes")
}

} // verus!
