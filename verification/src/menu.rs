//! The main menu: six single-letter commands, recognized
//! case-insensitively, everything else invalid. The unverified shell
//! prints the menu and loops; this module decides what a line means.

use vstd::prelude::*;
use crate::text::fold_seq;
use crate::text::trim;
use crate::text::line_matches_keyword;

verus! {

/// What a line typed at the main menu asks for.
#[derive(Clone, Copy, PartialEq, Eq, Structural, Debug)]
pub enum MenuCommand {
    Create,
    List,
    Manage,
    Import,
    Export,
    Quit,
    Invalid,
}

/// The command a menu line stands for: its trimmed, case-folded text
/// matched against the six command letters.
pub open spec fn menu_command_spec(s: Seq<char>) -> MenuCommand {
    let t = fold_seq(trim(s));
    if t == "a"@ {
        MenuCommand::Create
    } else if t == "l"@ {
        MenuCommand::List
    } else if t == "m"@ {
        MenuCommand::Manage
    } else if t == "i"@ {
        MenuCommand::Import
    } else if t == "e"@ {
        MenuCommand::Export
    } else if t == "q"@ {
        MenuCommand::Quit
    } else {
        MenuCommand::Invalid
    }
}

/// Classify one menu line.
pub fn parse_command(s: &str) -> (c: MenuCommand)
    ensures
        c == menu_command_spec(s@),
{
    if line_matches_keyword(s, "a") {
        MenuCommand::Create
    } else if line_matches_keyword(s, "l") {
        MenuCommand::List
    } else if line_matches_keyword(s, "m") {
        MenuCommand::Manage
    } else if line_matches_keyword(s, "i") {
        MenuCommand::Import
    } else if line_matches_keyword(s, "e") {
        MenuCommand::Export
    } else if line_matches_keyword(s, "q") {
        MenuCommand::Quit
    } else {
        MenuCommand::Invalid
    }
}

/// The acknowledgment that ends the listing screen.
pub open spec fn is_quit_spec(s: Seq<char>) -> bool {
    fold_seq(trim(s)) == "q"@
}

/// Whether a line ends the listing screen.
pub fn is_quit_ack(s: &str) -> (r: bool)
    ensures
        r == is_quit_spec(s@),
{
    line_matches_keyword(s, "q")
}

} // verus!
