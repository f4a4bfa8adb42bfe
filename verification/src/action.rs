//! Executable actions.

use vstd::prelude::*;
use crate::dialog::Dialog;
use crate::ident::Ident;

verus! {

/// An executable action.
#[derive(Debug)]
pub enum Action {
    /// Open a URL.
    OpenUrl {
        /// The URL to open.
        url: String,
    },
    /// Run a command. If the command is not prefixed with a `/` character,
    /// a chat message is sent instead.
    RunCommand {
        /// The command to run.
        command: String,
    },
    /// Replace the text in the chat bar.
    SuggestCommand {
        /// The command to insert.
        command: String,
    },
    /// Open a page in the currently opened book.
    SetBookPage {
        /// The page to switch to.
        page: u32,
    },
    /// Overwrite the clipboard.
    SetClipboard {
        /// The text to put in the clipboard.
        text: String,
    },
    /// Open a dialog menu.
    ShowDialog {
        /// The dialog to open.
        dialog: Box<Dialog>,
    },
    /// Send a custom payload to the server.
    Custom {
        /// ID of the channel to send on.
        id: Ident,
        /// The payload to send.
        payload: String,
    },
}

} // verus!
