//! What can go wrong, each kind with the words it is reported in.

use vstd::prelude::*;

verus! {

/// Why the address of the virtual machine could not be found.
#[derive(Debug, PartialEq, Eq)]
pub enum DiscoveryError {
    /// The query could not be started; the words are the system's.
    Launch(String),
    /// The query ended with a failure; the words are what it wrote to its
    /// error stream, or a general sentence where that was not text.
    ExitFailure(String),
    /// The query's output was not text; the words are the decoder's.
    InvalidText(String),
    /// The output held no word.
    NoTokens,
    /// The last word of the output held no `/` after the address.
    MalformedAddress,
}

/// A `DiscoveryError` with its words as sequences of characters.
pub enum DiscoveryErrorView {
    Launch(Seq<char>),
    ExitFailure(Seq<char>),
    InvalidText(Seq<char>),
    NoTokens,
    MalformedAddress,
}

impl View for DiscoveryError {
    type V = DiscoveryErrorView;

    open spec fn view(&self) -> DiscoveryErrorView {
        match self {
            DiscoveryError::Launch(cause) => DiscoveryErrorView::Launch(cause@),
            DiscoveryError::ExitFailure(cause) => DiscoveryErrorView::ExitFailure(cause@),
            DiscoveryError::InvalidText(cause) => DiscoveryErrorView::InvalidText(cause@),
            DiscoveryError::NoTokens => DiscoveryErrorView::NoTokens,
            DiscoveryError::MalformedAddress => DiscoveryErrorView::MalformedAddress,
        }
    }
}

/// The sentence for an output without a word.
pub const NO_TOKENS: &'static str = "Unable to split output text.";

/// The sentence for a last word without a `/`.
pub const MALFORMED_ADDRESS: &'static str = "Unable to separate IP from subnet";

impl DiscoveryErrorView {
    /// The words in which the error is reported.
    pub open spec fn message(self) -> Seq<char> {
        match self {
            DiscoveryErrorView::Launch(cause) => cause,
            DiscoveryErrorView::ExitFailure(cause) => cause,
            DiscoveryErrorView::InvalidText(cause) => cause,
            DiscoveryErrorView::NoTokens => NO_TOKENS@,
            DiscoveryErrorView::MalformedAddress => MALFORMED_ADDRESS@,
        }
    }
}

impl DiscoveryError {
    /// The words in which the error is reported.
    pub fn message(&self) -> (text: String)
        ensures
            text@ == self@.message(),
    {
        match self {
            DiscoveryError::Launch(cause) => cause.clone(),
            DiscoveryError::ExitFailure(cause) => cause.clone(),
            DiscoveryError::InvalidText(cause) => cause.clone(),
            DiscoveryError::NoTokens => NO_TOKENS.to_owned(),
            DiscoveryError::MalformedAddress => MALFORMED_ADDRESS.to_owned(),
        }
    }
}

/// Why the hosts file could not be read or written.
#[derive(Debug, PartialEq, Eq)]
pub enum IoError {
    /// The file at `path` may not be read.
    NotReadable { path: String },
    /// The file at `path` may not be written.
    NotWritable { path: String },
    /// Reading the file at `path` failed, or what was read is not text;
    /// `cause` holds the words of the system or of the decoder.
    ReadFailed { path: String, cause: String },
    /// Writing the file at `path` failed; `cause` holds the system's words.
    WriteFailed { path: String, cause: String },
}

/// An `IoError` with its texts as sequences of characters.
pub enum IoErrorView {
    NotReadable { path: Seq<char> },
    NotWritable { path: Seq<char> },
    ReadFailed { path: Seq<char>, cause: Seq<char> },
    WriteFailed { path: Seq<char>, cause: Seq<char> },
}

impl View for IoError {
    type V = IoErrorView;

    open spec fn view(&self) -> IoErrorView {
        match self {
            IoError::NotReadable { path } => IoErrorView::NotReadable { path: path@ },
            IoError::NotWritable { path } => IoErrorView::NotWritable { path: path@ },
            IoError::ReadFailed { path, cause } => IoErrorView::ReadFailed {
                path: path@,
                cause: cause@,
            },
            IoError::WriteFailed { path, cause } => IoErrorView::WriteFailed {
                path: path@,
                cause: cause@,
            },
        }
    }
}

/// The start of the sentence for a file that may not be read.
pub const NOT_READABLE: &'static str = "Unable to read file ";

/// The start of the sentence for a file that may not be written.
pub const NOT_WRITABLE: &'static str = "Insufficient access to write file ";

impl IoErrorView {
    /// The words in which the error is reported.
    pub open spec fn message(self) -> Seq<char> {
        match self {
            IoErrorView::NotReadable { path } => NOT_READABLE@ + path,
            IoErrorView::NotWritable { path } => NOT_WRITABLE@ + path,
            IoErrorView::ReadFailed { path, cause } => cause,
            IoErrorView::WriteFailed { path, cause } => cause,
        }
    }
}

impl IoError {
    /// The words in which the error is reported.
    pub fn message(&self) -> (text: String)
        ensures
            text@ == self@.message(),
    {
        match self {
            IoError::NotReadable { path } => {
                let mut text = NOT_READABLE.to_owned();
                text.append(path.as_str());
                text
            },
            IoError::NotWritable { path } => {
                let mut text = NOT_WRITABLE.to_owned();
                text.append(path.as_str());
                text
            },
            IoError::ReadFailed { path, cause } => cause.clone(),
            IoError::WriteFailed { path, cause } => cause.clone(),
        }
    }
}

/// Why the saved settings could not be had.
#[derive(Debug, PartialEq, Eq)]
pub enum ConfigError {
    /// The user's home folder is not known.
    NoHome,
    /// The settings file does not hold settings; the words are the reader's.
    Malformed(String),
}

/// A `ConfigError` with its words as a sequence of characters.
pub enum ConfigErrorView {
    NoHome,
    Malformed(Seq<char>),
}

impl View for ConfigError {
    type V = ConfigErrorView;

    open spec fn view(&self) -> ConfigErrorView {
        match self {
            ConfigError::NoHome => ConfigErrorView::NoHome,
            ConfigError::Malformed(cause) => ConfigErrorView::Malformed(cause@),
        }
    }
}

/// The sentence for a home folder that is not known.
pub const NO_HOME: &'static str = "Unable to locate home folder.";

impl ConfigErrorView {
    /// The words in which the error is reported.
    pub open spec fn message(self) -> Seq<char> {
        match self {
            ConfigErrorView::NoHome => NO_HOME@,
            ConfigErrorView::Malformed(cause) => cause,
        }
    }
}

impl ConfigError {
    /// The words in which the error is reported.
    pub fn message(&self) -> (text: String)
        ensures
            text@ == self@.message(),
    {
        match self {
            ConfigError::NoHome => NO_HOME.to_owned(),
            ConfigError::Malformed(cause) => cause.clone(),
        }
    }
}

} // verus!
