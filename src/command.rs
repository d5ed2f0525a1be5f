//! What a bare command-line argument asks for.

use vstd::prelude::*;
use crate::text::{find_text, first_index, occurs_at};

verus! {

/// The action that a bare argument names.
#[derive(Debug, Clone, PartialEq, Eq)]
pub enum SmartCommand {
    /// The argument is an existing file: set the variables it defines.
    SetFromFile,
    /// The argument is `key=value`: set that variable.
    SetPair { key: String, value: String },
    /// The argument looks like a path to an `.env` file: restore the variables to it.
    Restore,
    /// Anything else names a variable to print.
    Get,
}

pub enum SmartCommandView {
    SetFromFile,
    SetPair { key: Seq<char>, value: Seq<char> },
    Restore,
    Get,
}

impl View for SmartCommand {
    type V = SmartCommandView;

    open spec fn view(&self) -> SmartCommandView {
        match self {
            SmartCommand::SetFromFile => SmartCommandView::SetFromFile,
            SmartCommand::SetPair { key, value } => SmartCommandView::SetPair { key: key@, value: value@ },
            SmartCommand::Restore => SmartCommandView::Restore,
            SmartCommand::Get => SmartCommandView::Get,
        }
    }
}

/// The action for `input`: an existing path is a file to read; otherwise text with a
/// `=` is a pair split at the first `=`; otherwise text ending in `.env` or holding a
/// `/` is a file to restore to; anything else is a variable name.
pub open spec fn smart_command_of(input: Seq<char>, is_existing_path: bool) -> SmartCommandView {
    if is_existing_path {
        SmartCommandView::SetFromFile
    } else if let Some(p) = first_index(input, "="@) {
        SmartCommandView::SetPair { key: input.subrange(0, p), value: input.subrange(p + 1, input.len() as int) }
    } else if occurs_at(input, ".env"@, input.len() - 4) || first_index(input, "/"@) is Some {
        SmartCommandView::Restore
    } else {
        SmartCommandView::Get
    }
}

/// The action for `input` (see `smart_command_of`); whether `input` names an existing
/// path is found out by the caller.
pub fn classify_input(input: &str, is_existing_path: bool) -> (r: SmartCommand)
    ensures
        r@ == smart_command_of(input@, is_existing_path),
{
    if is_existing_path {
        return SmartCommand::SetFromFile;
    }
    proof {
        reveal_strlit("=");
        reveal_strlit(".env");
        reveal_strlit("/");
    }
    let n = input.unicode_len();
    match find_text(input, "=") {
        Some(p) => SmartCommand::SetPair {
            key: String::from_str(input.substring_char(0, p)),
            value: String::from_str(input.substring_char(p + 1, n)),
        },
        None => {
            let env_suffix = n >= 4 && crate::text::same_text(input.substring_char(n - 4, n), ".env");
            if env_suffix || find_text(input, "/").is_some() {
                SmartCommand::Restore
            } else {
                SmartCommand::Get
            }
        },
    }
}

} // verus!
