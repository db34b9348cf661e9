//! The operator console: what each typed line asks for.

use vstd::prelude::*;

use crate::text::{blank, has_prefix, is_blank, starts_with};

verus! {

/// The prompt printed before each line.
pub const PROMPT: &'static str = "tg-bot CLI# ";

/// What a console line asks for.
#[derive(Clone, Copy, Debug, PartialEq, Eq, Structural)]
pub enum CliAction {
    /// A blank line: prompt again.
    Skip,
    /// Print a greeting.
    Hello,
    /// Reload the user directory from storage.
    Reload,
    /// Stop the process.
    Exit,
    /// Anything else.
    Unknown,
}

/// The action for `line`, judged by its first word as typed.
pub open spec fn cli_action(line: Seq<char>) -> CliAction {
    if is_blank(line) {
        CliAction::Skip
    } else if has_prefix(line, "hello"@) {
        CliAction::Hello
    } else if has_prefix(line, "reload"@) {
        CliAction::Reload
    } else if has_prefix(line, "exit"@) {
        CliAction::Exit
    } else {
        CliAction::Unknown
    }
}

/// Decides what the console line `line` asks for.
pub fn parse_cli_line(line: &str) -> (r: CliAction)
    ensures
        r == cli_action(line@),
{
    if blank(line) {
        CliAction::Skip
    } else if starts_with(line, "hello") {
        CliAction::Hello
    } else if starts_with(line, "reload") {
        CliAction::Reload
    } else if starts_with(line, "exit") {
        CliAction::Exit
    } else {
        CliAction::Unknown
    }
}

} // verus!
