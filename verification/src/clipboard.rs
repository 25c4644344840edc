//! Clipboard access: one operation, copying a string to the system
//! clipboard, reached through trusted wrappers around `arboard`.

use vstd::prelude::*;
use vstd::string::StringExecFns;

verus! {

/// What can go wrong while copying to the clipboard.
#[derive(Debug, Clone)]
pub enum ClipboardError {
    InitFailed(String),
    CopyFailed(String),
    NotAvailable,
}

/// The display text of each clipboard error.
pub open spec fn clip_err_text(e: ClipboardError) -> Seq<char> {
    match e {
        ClipboardError::InitFailed(m) => "Failed to initialize clipboard: "@ + m@,
        ClipboardError::CopyFailed(m) => "Failed to copy to clipboard: "@ + m@,
        ClipboardError::NotAvailable => "Clipboard is not available in this environment"@,
    }
}

impl ClipboardError {
    /// The error rendered for display.
    pub fn message(&self) -> (s: String)
        ensures
            s@ == clip_err_text(*self),
    {
        match self {
            ClipboardError::InitFailed(m) => String::from_str(
                "Failed to initialize clipboard: ",
            ).concat(m.as_str()),
            ClipboardError::CopyFailed(m) => String::from_str(
                "Failed to copy to clipboard: ",
            ).concat(m.as_str()),
            ClipboardError::NotAvailable => String::from_str(
                "Clipboard is not available in this environment",
            ),
        }
    }
}

/// Relies on arboard::Clipboard being an opaque handle; the library never
/// looks inside one.
#[verifier::external_type_specification]
#[verifier::external_body]
pub struct ExClipboard(arboard::Clipboard);

/// Relies on arboard::Clipboard::new: a handle to the system clipboard, or a
/// backend error; nothing is promised about which outcome occurs.
#[verifier::external_body]
fn clipboard_new() -> (r: Result<arboard::Clipboard, ClipboardError>)
    ensures
        match r {
            Err(e) => e is InitFailed,
            Ok(_) => true,
        },
{
    arboard::Clipboard::new().map_err(|e| ClipboardError::InitFailed(e.to_string()))
}

/// Relies on arboard::Clipboard::set_text: hands `text` to the system
/// clipboard; nothing is promised about which outcome occurs.
#[verifier::external_body]
fn clipboard_set_text(cb: &mut arboard::Clipboard, text: &str) -> (r: Result<(), ClipboardError>)
    ensures
        match r {
            Err(e) => e is CopyFailed,
            Ok(_) => true,
        },
{
    cb.set_text(text.to_string()).map_err(|e| ClipboardError::CopyFailed(e.to_string()))
}

/// Copies `text` to the system clipboard in one attempt, never retrying.
/// Whether the copy lands depends on the environment; what is certain is
/// which stage any reported failure came from.
pub fn copy_to_clipboard(text: &str) -> (r: Result<(), ClipboardError>)
    ensures
        match r {
            Err(e) => e is InitFailed || e is CopyFailed,
            Ok(_) => true,
        },
{
    let mut cb = match clipboard_new() {
        Ok(c) => c,
        Err(e) => {
            return Err(e);
        },
    };
    clipboard_set_text(&mut cb, text)
}

} // verus!
