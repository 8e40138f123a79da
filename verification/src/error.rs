//! The ways a scan, or its configuration, can fail.

use vstd::prelude::*;
use vstd::string::*;

verus! {

/// What is wrong with a configuration.
#[derive(Debug, Clone, Copy, PartialEq, Eq, Structural)]
pub enum ConfigurationFault {
    /// The target is empty.
    EmptyTarget,
    /// Neither a literal target nor a target file was given.
    MissingTarget,
    /// Both a literal target and a target file were given.
    ConflictingTargets,
    /// A combined context size was given together with a one-sided one.
    ConflictingContexts,
    /// A context size is not a positive decimal number that fits the machine.
    InvalidNumber,
}

/// Why a scan did not run to its end.
#[derive(Debug, PartialEq, Eq)]
pub enum ScanError {
    /// The configuration was rejected before any byte was compared.
    ConfigurationError(ConfigurationFault),
    /// Reading the target or the stream failed; the text names the cause.
    IoError(String),
    /// The first chunk of the stream is shorter than the target.
    InsufficientInput,
}

impl ConfigurationFault {
    /// The fault in words.
    pub open spec fn message_text(self) -> Seq<char> {
        match self {
            ConfigurationFault::EmptyTarget => "Target string cannot be empty"@,
            ConfigurationFault::MissingTarget => "A target string or a target file is required"@,
            ConfigurationFault::ConflictingTargets =>
                "A target string cannot be used with a target file"@,
            ConfigurationFault::ConflictingContexts =>
                "A context size for both sides cannot be used with one for a single side"@,
            ConfigurationFault::InvalidNumber => "The value is not numeric"@,
        }
    }

    /// The fault in words, for the user.
    pub fn message(&self) -> (text: String)
        ensures
            text@ == self.message_text(),
    {
        match self {
            ConfigurationFault::EmptyTarget => String::from_str("Target string cannot be empty"),
            ConfigurationFault::MissingTarget => String::from_str(
                "A target string or a target file is required",
            ),
            ConfigurationFault::ConflictingTargets => String::from_str(
                "A target string cannot be used with a target file",
            ),
            ConfigurationFault::ConflictingContexts => String::from_str(
                "A context size for both sides cannot be used with one for a single side",
            ),
            ConfigurationFault::InvalidNumber => String::from_str("The value is not numeric"),
        }
    }
}

impl ScanError {
    /// The error in words: for a failed read, the cause as it was given.
    pub open spec fn message_text(self) -> Seq<char> {
        match self {
            ScanError::ConfigurationError(fault) => fault.message_text(),
            ScanError::IoError(cause) => cause@,
            ScanError::InsufficientInput => "stream too small to match on"@,
        }
    }

    /// The error in words, for the user.
    pub fn message(&self) -> (text: String)
        ensures
            text@ == self.message_text(),
    {
        match self {
            ScanError::ConfigurationError(fault) => fault.message(),
            ScanError::IoError(cause) => cause.clone(),
            ScanError::InsufficientInput => String::from_str("stream too small to match on"),
        }
    }
}

} // verus!
