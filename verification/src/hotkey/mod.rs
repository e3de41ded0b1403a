//! Global hotkey handling.
//!
//! On Wayland an application cannot grab keys itself; the sanctioned way is the
//! desktop portal's GlobalShortcuts interface, with a raw evdev reader as a fallback.

pub mod accelerator;
pub mod keys;
pub mod portal;

use crate::text::joined;
use vstd::prelude::*;
use vstd::string::*;

verus! {

#[derive(Debug)]
pub enum HotkeyError {
    Unsupported(String),
    Backend(String),
}

/// What an error says.
pub open spec fn hotkey_message(e: HotkeyError) -> Seq<char> {
    match e {
        HotkeyError::Unsupported(s) => "hotkey unsupported: "@ + s@,
        HotkeyError::Backend(s) => "hotkey backend error: "@ + s@,
    }
}

impl HotkeyError {
    /// What the error says, for a user to read.
    pub fn message(&self) -> (r: String)
        ensures
            r@ == hotkey_message(*self),
    {
        match self {
            HotkeyError::Unsupported(s) => joined("hotkey unsupported: ", s.as_str()),
            HotkeyError::Backend(s) => joined("hotkey backend error: ", s.as_str()),
        }
    }
}

/// What a hotkey does when it is pressed.
pub trait Trigger: Send {
    fn fire(&mut self);
}

/// Registers a global "save clip" shortcut and fires a trigger when it is pressed.
pub trait HotkeyManager: Send {
    fn name(&self) -> &str;

    /// Registers the save shortcut. `accelerator` is a human string such as
    /// `"Ctrl+Alt+S"`. `on_trigger` fires, on some internal thread, each time the
    /// shortcut is pressed.
    fn register_save(
        &mut self,
        accelerator: &str,
        on_trigger: Box<dyn Trigger>,
    ) -> Result<(), HotkeyError>;

    /// Tears down the shortcut registration.
    fn stop(&mut self);
}

/// The hotkey backend, where one is built in.
pub fn create_manager(built: Option<Result<Box<dyn HotkeyManager>, HotkeyError>>) -> (r: Result<
    Box<dyn HotkeyManager>,
    HotkeyError,
>)
    ensures
        match built {
            Some(made) => r == made,
            None => r matches Err(HotkeyError::Unsupported(s)) && s@
                == "no hotkey backend built (enable feature `hotkey`)"@,
        },
{
    match built {
        Some(made) => made,
        None => Err(
            HotkeyError::Unsupported("no hotkey backend built (enable feature `hotkey`)".to_owned()),
        ),
    }
}

/// An error says what kind it is and why.
pub proof fn law_hotkey_errors_say_why(e: HotkeyError, r: String)
    requires
        call_ensures(HotkeyError::message, (&e,), r),
    ensures
        r@ == hotkey_message(e),
        e matches HotkeyError::Unsupported(s) ==> r@ == "hotkey unsupported: "@ + s@,
        e matches HotkeyError::Backend(s) ==> r@ == "hotkey backend error: "@ + s@,
{
}

/// A backend that is built in is taken as it was made, and one that is not is unsupported.
pub proof fn law_built_manager_is_taken(
    manager: Result<Box<dyn HotkeyManager>, HotkeyError>,
    made: Result<Box<dyn HotkeyManager>, HotkeyError>,
    none: Result<Box<dyn HotkeyManager>, HotkeyError>,
)
    requires
        call_ensures(create_manager, (Some(manager),), made),
        call_ensures(create_manager, (None,), none),
    ensures
        made == manager,
        none matches Err(HotkeyError::Unsupported(s)) && s@
            == "no hotkey backend built (enable feature `hotkey`)"@,
{
}

} // verus!
