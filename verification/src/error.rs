//! The failures of decoding and of a refresh.

use vstd::prelude::*;
use vstd::string::*;

verus! {

/// Why a save's metadata could not be decoded.
#[derive(Clone, Copy, Debug, PartialEq, Eq, Structural)]
pub enum MetadataError {
    /// The text is not standard base64.
    Base64,
    /// The ciphertext is not a whole number of cipher blocks.
    BlockLength,
    /// The decrypted blocks do not end in their padding.
    Padding,
    /// The decrypted bytes are not one JSON object, or hold arrays and
    /// objects too deep in one another to be read.
    Payload,
    /// A required field is missing, repeated, or of the wrong type.
    Field,
}

/// The slot pattern was refused by the regular expression engine.
#[derive(Clone, Copy, Debug, PartialEq, Eq, Structural)]
pub struct PatternError;

/// Why a save directory could not be loaded.
#[derive(Clone, Copy, Debug, PartialEq, Eq, Structural)]
pub enum LoadError {
    /// Its metadata file could not be read.
    Unreadable,
    /// Its metadata file could not be decoded.
    Decode(MetadataError),
}

/// The first directory of a scan that could not be loaded.
#[derive(Clone, Debug, PartialEq, Eq)]
pub struct ScanError {
    pub name: String,
    pub cause: LoadError,
}

/// The mathematical content of a `ScanError`.
pub struct ScanErrorView {
    pub name: Seq<char>,
    pub cause: LoadError,
}

impl View for ScanError {
    type V = ScanErrorView;

    open spec fn view(&self) -> ScanErrorView {
        ScanErrorView { name: self.name@, cause: self.cause }
    }
}

/// Why a refresh left the collections as they were.
#[derive(Clone, Debug, PartialEq, Eq)]
pub enum RefreshError {
    /// The slot pattern was refused.
    Pattern,
    /// An external save could not be loaded.
    Saves(ScanError),
    /// A backup could not be loaded.
    Backups(ScanError),
}

/// The mathematical content of a `RefreshError`.
pub enum RefreshErrorView {
    Pattern,
    Saves(ScanErrorView),
    Backups(ScanErrorView),
}

impl View for RefreshError {
    type V = RefreshErrorView;

    open spec fn view(&self) -> RefreshErrorView {
        match self {
            RefreshError::Pattern => RefreshErrorView::Pattern,
            RefreshError::Saves(e) => RefreshErrorView::Saves(e@),
            RefreshError::Backups(e) => RefreshErrorView::Backups(e@),
        }
    }
}

impl MetadataError {
    /// What went wrong, in words.
    pub open spec fn reason_spec(self) -> Seq<char> {
        match self {
            MetadataError::Base64 => "the metadata is not base64 text"@,
            MetadataError::BlockLength => "the ciphertext is not a whole number of blocks"@,
            MetadataError::Padding => "the decrypted metadata is not padded as it should be"@,
            MetadataError::Payload => "the decrypted metadata is not a JSON object"@,
            MetadataError::Field => "a field of the metadata is missing, repeated or mistyped"@,
        }
    }

    /// What went wrong, in words.
    pub fn reason(&self) -> (text: &'static str)
        ensures
            text@ == self.reason_spec(),
    {
        match self {
            MetadataError::Base64 => "the metadata is not base64 text",
            MetadataError::BlockLength => "the ciphertext is not a whole number of blocks",
            MetadataError::Padding => "the decrypted metadata is not padded as it should be",
            MetadataError::Payload => "the decrypted metadata is not a JSON object",
            MetadataError::Field => "a field of the metadata is missing, repeated or mistyped",
        }
    }
}

impl LoadError {
    /// What went wrong, in words.
    pub open spec fn reason_spec(self) -> Seq<char> {
        match self {
            LoadError::Unreadable => "the metadata file could not be read"@,
            LoadError::Decode(e) => e.reason_spec(),
        }
    }

    /// What went wrong, in words.
    pub fn reason(&self) -> (text: &'static str)
        ensures
            text@ == self.reason_spec(),
    {
        match self {
            LoadError::Unreadable => "the metadata file could not be read",
            LoadError::Decode(e) => e.reason(),
        }
    }
}

impl ScanErrorView {
    /// The failure in words: the save's name, then the reason.
    pub open spec fn message_spec(self) -> Seq<char> {
        "couldn't decrypt info for save "@ + self.name + ": "@ + self.cause.reason_spec()
    }
}

impl ScanError {
    /// The failure in words: the save's name, then the reason.
    pub fn message(&self) -> (text: String)
        ensures
            text@ == self@.message_spec(),
    {
        let mut text = String::from_str("couldn't decrypt info for save ");
        text.append(self.name.as_str());
        text.append(": ");
        text.append(self.cause.reason());
        text
    }
}

impl RefreshErrorView {
    /// The failure in words: what the refresh was doing, then what went
    /// wrong.
    pub open spec fn message_spec(self) -> Seq<char> {
        match self {
            RefreshErrorView::Pattern => "couldn't compile the pattern of the slot names"@,
            RefreshErrorView::Saves(e) => "failed to load external saves: "@ + e.message_spec(),
            RefreshErrorView::Backups(e) => "failed to load backups: "@ + e.message_spec(),
        }
    }
}

impl RefreshError {
    /// The failure in words: what the refresh was doing, then what went
    /// wrong.
    pub fn message(&self) -> (text: String)
        ensures
            text@ == self@.message_spec(),
    {
        match self {
            RefreshError::Pattern => String::from_str(
                "couldn't compile the pattern of the slot names",
            ),
            RefreshError::Saves(e) => {
                let mut text = String::from_str("failed to load external saves: ");
                let cause = e.message();
                text.append(cause.as_str());
                text
            },
            RefreshError::Backups(e) => {
                let mut text = String::from_str("failed to load backups: ");
                let cause = e.message();
                text.append(cause.as_str());
                text
            },
        }
    }
}

} // verus!
