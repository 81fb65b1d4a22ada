//! What keys, the tray and the engine tell the player.
use vstd::prelude::*;
use vstd::string::*;

use crate::app::Message;
use crate::reorder::{lowercase, to_lowercase};
use crate::text::{chars_of, eq_ignore_case, same_ignoring_case, same_text};
use crate::tray::TrayEvent;

verus! {

/// A key that was pressed.
#[derive(Debug)]
pub enum KeyPress {
    Escape,
    /// The text of a key, whether the control key is held, and whether any
    /// other modifier is.
    Character { text: String, control: bool, other_modifier: bool },
    Other,
}

/// The message of a key without modifiers, from its text in lower case.
pub open spec fn shortcut_of(lowered: Seq<char>) -> Message {
    if lowered == "z"@ {
        Message::PreviousPressed
    } else if lowered == "x"@ {
        Message::PlayPressed
    } else if lowered == "c"@ {
        Message::PausePressed
    } else if lowered == "v"@ {
        Message::StopPressed
    } else if lowered == "b"@ {
        Message::NextPressed
    } else {
        Message::Ignored
    }
}

/// The message of a key without modifiers, from its text in lower case.
pub fn shortcut(lowered: &str) -> (r: Message)
    ensures
        r == shortcut_of(lowered@),
{
    if same_text(lowered, "z") {
        Message::PreviousPressed
    } else if same_text(lowered, "x") {
        Message::PlayPressed
    } else if same_text(lowered, "c") {
        Message::PausePressed
    } else if same_text(lowered, "v") {
        Message::StopPressed
    } else if same_text(lowered, "b") {
        Message::NextPressed
    } else {
        Message::Ignored
    }
}

/// The message of a key: escape ends the renaming of a tab, control and `q`
/// quit, and other keys drive the transport where no modifier is held.
pub open spec fn key_message_of(key: KeyPress) -> Message {
    match key {
        KeyPress::Escape => Message::TabRenameCancelled,
        KeyPress::Character { text, control, other_modifier } => if control {
            if same_ignoring_case(text@, "q"@) {
                Message::QuitRequested
            } else {
                Message::Ignored
            }
        } else if other_modifier {
            Message::Ignored
        } else {
            shortcut_of(lowercase(text@))
        },
        KeyPress::Other => Message::Ignored,
    }
}

pub fn key_message(key: &KeyPress) -> (r: Message)
    ensures
        r == key_message_of(*key),
{
    match key {
        KeyPress::Escape => Message::TabRenameCancelled,
        KeyPress::Character { text, control, other_modifier } => {
            if *control {
                let cs = chars_of(text.as_str());
                if eq_ignore_case(&cs, "q") {
                    Message::QuitRequested
                } else {
                    Message::Ignored
                }
            } else if *other_modifier {
                Message::Ignored
            } else {
                let lowered = to_lowercase(text.as_str());
                shortcut(lowered.as_str())
            }
        },
        KeyPress::Other => Message::Ignored,
    }
}

/// While a modifier is held no key drives the transport: a key either quits
/// or is ignored.
pub proof fn law_shortcuts_take_no_modifiers(text: String, control: bool, other_modifier: bool)
    requires
        control || other_modifier,
    ensures
        ({
            let message = key_message_of(KeyPress::Character { text, control, other_modifier });
            if control && same_ignoring_case(text@, "q"@) {
                message == Message::QuitRequested
            } else {
                message == Message::Ignored
            }
        }),
{
}

/// The message of an event of the tray.
pub fn tray_message(event: TrayEvent) -> (r: Message)
    ensures
        r == match event {
            TrayEvent::ShowRequested => Message::TrayShowRequested,
            TrayEvent::PlayToggleRequested => Message::PlayToggled,
            TrayEvent::QuitRequested => Message::TrayQuitRequested,
        },
{
    match event {
        TrayEvent::ShowRequested => Message::TrayShowRequested,
        TrayEvent::PlayToggleRequested => Message::PlayToggled,
        TrayEvent::QuitRequested => Message::TrayQuitRequested,
    }
}

/// The message of a song that was to go on.
pub fn resumed_message(result: Result<(), String>) -> (r: Message)
    ensures
        r == match result {
            Ok(_) => Message::Tick,
            Err(error) => Message::SongLoaded(Err(error)),
        },
{
    match result {
        Ok(_) => Message::Tick,
        Err(error) => Message::SongLoaded(Err(error)),
    }
}

} // verus!
