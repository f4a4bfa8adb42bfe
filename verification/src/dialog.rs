//! Dialog menus.

use vstd::prelude::*;
use crate::action::Action;
use crate::item_stack::ItemStack;
use crate::text::Text;

verus! {

/// A dialog menu.
#[derive(Debug)]
pub struct Dialog {
    /// Menu type.
    pub kind: DialogKind,
    /// Menu title.
    pub title: Text,
    /// Body elements in this menu.
    pub body: Vec<DialogBody>,
    /// Input elements in this menu.
    pub inputs: Vec<DialogInput>,
    /// Whether this menu can be closed by pressing escape.
    pub escapable: bool,
    /// What to do after submitting an action to the server.
    pub after: DialogAfterAction,
}

/// Types of dialog menus.
#[derive(Debug)]
pub enum DialogKind {
    /// Notice menu.
    Notice {
        /// Single button.
        action: Option<DialogButton>,
    },
    /// Confirmation menu.
    Confirmation {
        /// Yes button.
        yes: Box<DialogButton>,
        /// No button.
        no: Box<DialogButton>,
    },
    /// Multi-action menu.
    MultiAction {
        /// Buttons.
        actions: Vec<DialogButton>,
        /// Number of columns to display the buttons in.
        columns: Option<u32>,
        /// Exit button.
        exit: Option<DialogButton>,
    },
    /// Server links menu.
    ServerLinks {
        /// Exit button.
        exit: Option<DialogButton>,
        /// Number of columns to display the buttons in.
        columns: Option<u32>,
        /// Width of the buttons.
        button_width: Option<u32>,
    },
    /// Dialog list menu.
    DialogList {
        /// Dialog buttons.
        dialogs: Vec<Dialog>,
        /// Exit button.
        exit: Option<DialogButton>,
        /// Number of columns to display the buttons in.
        columns: Option<u32>,
        /// Width of the buttons.
        button_width: Option<u32>,
    },
}

/// A button in a dialog menu.
#[derive(Debug)]
pub struct DialogButton {
    /// Button label.
    pub label: Text,
    /// Button tooltip.
    pub tooltip: Option<Text>,
    /// Width of this button.
    pub width: Option<u32>,
    /// Action to execute on press.
    pub action: Action,
}

/// Body element in a dialog menu.
#[derive(Debug)]
pub enum DialogBody {
    /// Text element.
    Plain {
        /// Text to display.
        contents: Text,
        /// Width of the text.
        width: Option<u32>,
    },
    /// Item element.
    Item {
        /// Item stack to display.
        stack: ItemStack,
        /// Description of the element.
        description: DialogItemBodyDesc,
        /// Whether to show item count and damage bar.
        decoration: bool,
        /// Whether to show a tooltip on hover.
        tooltip: bool,
        /// Width of the element.
        width: Option<u32>,
        /// Height of the element.
        height: Option<u32>,
    },
}

/// Description of an item body element.
#[derive(Debug)]
pub struct DialogItemBodyDesc {
    /// Message text.
    pub contents: Text,
    /// Width of message.
    pub width: Option<u32>,
}

/// Input element in a dialog menu.
#[derive(Debug)]
pub struct DialogInput {
    /// Input type.
    pub kind: DialogInputKind,
    /// Key to tie input to when sending to the server.
    pub key: String,
    /// Element label.
    pub label: Text,
}

/// Types of input elements in dialog menus.
#[derive(Debug)]
pub enum DialogInputKind {
    /// Textbox element.
    Textbox {
        /// Width of the element.
        width: Option<u32>,
        /// Whether to show the label.
        label_visible: bool,
        /// Initial text in the textbox.
        initial: String,
        /// Maximum number of characters in the textbox.
        max_len: u32,
        /// Multiline settings.
        multiline: DialogTextInputMultiline,
    },
    /// Checkbox element.
    Checkbox {
        /// Initial state of the checkbox.
        initial: bool,
        /// Value sent to the server if this checkbox is enabled.
        on_true: String,
        /// Value sent to the server if this checkbox is disabled.
        on_false: String,
    },
    /// Dropdown element.
    SingleOption {
        /// Whether to show the label.
        label_visible: bool,
        /// Width of the element.
        width: Option<u32>,
        /// Dropdown options.
        options: Vec<DialogInputOption>,
    },
    /// Slider element.
    NumberRange {
        /// Translation key to use when building the label.
        label_format: String,
        /// Width of the element.
        width: Option<u32>,
        /// Minimum slider value.
        min: u32,
        /// Maximum slider value.
        max: u32,
        /// Slider step size.
        step: Option<u32>,
        /// Initial value of the slider.
        initial: u32,
    },
}

/// Multiline settings for textbox inputs.
#[derive(Debug)]
pub struct DialogTextInputMultiline {
    /// Maximum number of lines.
    pub max_lines: Option<u32>,
    /// Height of the element.
    pub height: Option<u32>,
}

/// Option for dropdown inputs.
#[derive(Debug)]
pub struct DialogInputOption {
    /// Value sent to the server if this option is selected.
    pub id: String,
    /// Display of this option.
    pub display: Text,
    /// Whether this option is the initial value of the dropdown.
    pub initial: bool,
}

/// What to do after submitting dialog menu inputs to the server.
#[derive(Clone, Copy, PartialEq, Eq, Structural, Debug)]
pub enum DialogAfterAction {
    /// Close the menu.
    Close,
    /// Do nothing.
    Nothing,
    /// Show a waiting screen until the server responds.
    WaitForResponse,
}

} // verus!
