//! The failures that the core reports to its callers.

use vstd::prelude::*;
use vstd::string::*;

verus! {

/// Why an operation of the core did not succeed.
#[derive(Debug)]
pub enum CoreError {
    /// The identifier names none of the fixed slots.
    InvalidSlot,
    /// The list of slots holds no record for the identifier.
    SlotNotFound,
    /// A slot other than the primary one has no bundle URL; holds the slot.
    MissingUrl(String),
    /// An enabled slot needs a bundle URL.
    EnabledWithoutUrl,
    /// The bundle URL of a slot does not name a `.zip` archive.
    NotAnArchiveUrl,
    /// The URL of a model to change to does not end in `.zip`.
    NotAZipUrl,
    /// No slot is enabled, so there is nothing to cycle to.
    NoEnabledSlots,
    /// The unpacked bundle holds no model descriptor; holds the root that
    /// was examined.
    NoModelFound(String),
    /// The slots file is present but cannot be parsed; holds the parser's words.
    CorruptSlotsFile(String),
    /// The single-slot configuration file is present but cannot be parsed;
    /// holds the parser's words.
    CorruptModelConfig(String),
    /// The bundle could not be retrieved; holds the message.
    Download(String),
    /// The archive could not be unpacked; holds the message.
    Extraction(String),
    /// A directory or file operation failed; holds the message, which names
    /// what was attempted.
    Filesystem(String),
}

/// A failure as a value.
pub ghost enum ErrorView {
    InvalidSlot,
    SlotNotFound,
    MissingUrl(Seq<char>),
    EnabledWithoutUrl,
    NotAnArchiveUrl,
    NotAZipUrl,
    NoEnabledSlots,
    NoModelFound(Seq<char>),
    CorruptSlotsFile(Seq<char>),
    CorruptModelConfig(Seq<char>),
    Download(Seq<char>),
    Extraction(Seq<char>),
    Filesystem(Seq<char>),
}

impl View for CoreError {
    type V = ErrorView;

    open spec fn view(&self) -> ErrorView {
        match self {
            CoreError::InvalidSlot => ErrorView::InvalidSlot,
            CoreError::SlotNotFound => ErrorView::SlotNotFound,
            CoreError::MissingUrl(id) => ErrorView::MissingUrl(id@),
            CoreError::EnabledWithoutUrl => ErrorView::EnabledWithoutUrl,
            CoreError::NotAnArchiveUrl => ErrorView::NotAnArchiveUrl,
            CoreError::NotAZipUrl => ErrorView::NotAZipUrl,
            CoreError::NoEnabledSlots => ErrorView::NoEnabledSlots,
            CoreError::NoModelFound(root) => ErrorView::NoModelFound(root@),
            CoreError::CorruptSlotsFile(m) => ErrorView::CorruptSlotsFile(m@),
            CoreError::CorruptModelConfig(m) => ErrorView::CorruptModelConfig(m@),
            CoreError::Download(m) => ErrorView::Download(m@),
            CoreError::Extraction(m) => ErrorView::Extraction(m@),
            CoreError::Filesystem(m) => ErrorView::Filesystem(m@),
        }
    }
}

impl CoreError {
    /// A copy with the same view.
    pub fn copy(&self) -> (r: CoreError)
        ensures
            r@ == self@,
    {
        match self {
            CoreError::InvalidSlot => CoreError::InvalidSlot,
            CoreError::SlotNotFound => CoreError::SlotNotFound,
            CoreError::MissingUrl(id) => CoreError::MissingUrl(id.clone()),
            CoreError::EnabledWithoutUrl => CoreError::EnabledWithoutUrl,
            CoreError::NotAnArchiveUrl => CoreError::NotAnArchiveUrl,
            CoreError::NotAZipUrl => CoreError::NotAZipUrl,
            CoreError::NoEnabledSlots => CoreError::NoEnabledSlots,
            CoreError::NoModelFound(root) => CoreError::NoModelFound(root.clone()),
            CoreError::CorruptSlotsFile(m) => CoreError::CorruptSlotsFile(m.clone()),
            CoreError::CorruptModelConfig(m) => CoreError::CorruptModelConfig(m.clone()),
            CoreError::Download(m) => CoreError::Download(m.clone()),
            CoreError::Extraction(m) => CoreError::Extraction(m.clone()),
            CoreError::Filesystem(m) => CoreError::Filesystem(m.clone()),
        }
    }

    /// The words shown to the user for this failure.
    pub fn message(&self) -> (r: String)
        ensures
            r@ == message_of(self@),
    {
        match self {
            CoreError::InvalidSlot => String::from_str("Invalid character id"),
            CoreError::SlotNotFound => String::from_str("Character slot not found"),
            CoreError::MissingUrl(id) => id.clone().concat(" has no configured model URL"),
            CoreError::EnabledWithoutUrl => String::from_str("Enabled slot must have a model URL"),
            CoreError::NotAnArchiveUrl => String::from_str("Model URL must be a .zip file"),
            CoreError::NotAZipUrl => String::from_str("Model URL must point to a .zip file"),
            CoreError::NoEnabledSlots => String::from_str("No enabled character slots configured"),
            CoreError::NoModelFound(root) => String::from_str(
                "No Live2D model found in extracted files: ",
            ).concat(root.as_str()),
            CoreError::CorruptSlotsFile(m) => String::from_str(
                "Failed to parse characters config: ",
            ).concat(m.as_str()),
            CoreError::CorruptModelConfig(m) => String::from_str(
                "Failed to parse model config: ",
            ).concat(m.as_str()),
            CoreError::Download(m) => m.clone(),
            CoreError::Extraction(m) => m.clone(),
            CoreError::Filesystem(m) => m.clone(),
        }
    }
}

/// The words that stand for each failure.
pub open spec fn message_of(e: ErrorView) -> Seq<char> {
    match e {
        ErrorView::InvalidSlot => "Invalid character id"@,
        ErrorView::SlotNotFound => "Character slot not found"@,
        ErrorView::MissingUrl(id) => id + " has no configured model URL"@,
        ErrorView::EnabledWithoutUrl => "Enabled slot must have a model URL"@,
        ErrorView::NotAnArchiveUrl => "Model URL must be a .zip file"@,
        ErrorView::NotAZipUrl => "Model URL must point to a .zip file"@,
        ErrorView::NoEnabledSlots => "No enabled character slots configured"@,
        ErrorView::NoModelFound(root) => "No Live2D model found in extracted files: "@ + root,
        ErrorView::CorruptSlotsFile(m) => "Failed to parse characters config: "@ + m,
        ErrorView::CorruptModelConfig(m) => "Failed to parse model config: "@ + m,
        ErrorView::Download(m) => m,
        ErrorView::Extraction(m) => m,
        ErrorView::Filesystem(m) => m,
    }
}

} // verus!
