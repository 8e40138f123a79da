//! The configuration of one scan, and how it is resolved from the values
//! given on a command line.

use crate::error::{ConfigurationFault, ScanError};
use crate::number::{accepted_as_number, is_number, parse_size, size_of_numeral};
use vstd::prelude::*;
use vstd::string::*;
use vstd::utf8::encode_utf8;

verus! {

/// The values given on a command line, option by option, before any of them
/// has been looked at.
pub struct Arguments {
    /// How many times more diagnostics were asked for.
    pub verbosity: u64,
    /// The file to read the stream from.
    pub file: Option<String>,
    /// The target, given literally.
    pub target_string: Option<String>,
    /// The target, given as the contents of a file.
    pub target_file: Option<Vec<u8>>,
    /// The size of the context on both sides of a match.
    pub context: Option<String>,
    /// The size of the context before a match.
    pub before_context: Option<String>,
    /// The size of the context after a match.
    pub after_context: Option<String>,
    /// Whether padding of the reported lines was switched off.
    pub no_pad: bool,
}

/// The settings of one scan: what to search for, how much context to report,
/// and how to present it.
pub struct Config {
    /// The file to read the stream from; standard input if there is none.
    pub file: Option<String>,
    /// How many times more diagnostics were asked for.
    pub verbosity: u64,
    /// The bytes searched for.
    pub raw_target: Vec<u8>,
    /// How many bytes before a match are reported with it.
    pub before_context: usize,
    /// How many bytes after a match are reported with it.
    pub after_context: usize,
    /// Whether reported lines are padded so that the matches line up.
    pub pad: bool,
}

/// The characters of an optional string.
pub open spec fn optional_text(text: Option<String>) -> Option<Seq<char>> {
    match text {
        Some(text) => Some(text@),
        None => None,
    }
}

/// Whether a size, if one was given, passes validation.
pub open spec fn passes_validation(text: Option<Seq<char>>) -> bool {
    match text {
        Some(text) => accepted_as_number(text),
        None => true,
    }
}

/// The context size that two options resolve to: the first if it was given,
/// else the second if it was given, else none. `None` if the option that
/// decides does not hold a size.
pub open spec fn resolved_size(first: Option<Seq<char>>, second: Option<Seq<char>>) -> Option<
    usize,
> {
    match first {
        Some(text) => size_of_numeral(text),
        None => match second {
            Some(text) => size_of_numeral(text),
            None => Some(0),
        },
    }
}

impl Arguments {
    /// The target these arguments name: the literal one as bytes if it was
    /// given, else the contents of the target file.
    pub open spec fn target(self) -> Option<Seq<u8>> {
        match self.target_string {
            Some(text) => Some(encode_utf8(text@)),
            None => match self.target_file {
                Some(bytes) => Some(bytes@),
                None => None,
            },
        }
    }

    /// The size of the context before a match that these arguments ask for.
    pub open spec fn before(self) -> Option<usize> {
        resolved_size(optional_text(self.context), optional_text(self.before_context))
    }

    /// The size of the context after a match that these arguments ask for.
    pub open spec fn after(self) -> Option<usize> {
        resolved_size(optional_text(self.context), optional_text(self.after_context))
    }

    /// What is wrong with what these arguments hold, if anything: no target,
    /// or a context size that is no size.
    pub open spec fn build_fault(self) -> Option<ConfigurationFault> {
        if self.target().is_none() {
            Some(ConfigurationFault::MissingTarget)
        } else if self.before().is_none() || self.after().is_none() {
            Some(ConfigurationFault::InvalidNumber)
        } else {
            None
        }
    }

    /// What is wrong with the combination of options, if anything: the two
    /// ways to give a target exclude each other and one of them is required;
    /// the combined context size excludes the one-sided sizes; and each size
    /// given has to pass validation.
    pub open spec fn usage_fault(self) -> Option<ConfigurationFault> {
        if self.target_string.is_some() && self.target_file.is_some() {
            Some(ConfigurationFault::ConflictingTargets)
        } else if self.target_string.is_none() && self.target_file.is_none() {
            Some(ConfigurationFault::MissingTarget)
        } else if self.context.is_some() && (self.before_context.is_some()
            || self.after_context.is_some()) {
            Some(ConfigurationFault::ConflictingContexts)
        } else if !(passes_validation(optional_text(self.context)) && passes_validation(
            optional_text(self.before_context),
        ) && passes_validation(optional_text(self.after_context))) {
            Some(ConfigurationFault::InvalidNumber)
        } else {
            None
        }
    }

    /// Why these arguments give no configuration, if they give none.
    pub open spec fn fault(self) -> Option<ConfigurationFault> {
        match self.usage_fault() {
            Some(fault) => Some(fault),
            None => self.build_fault(),
        }
    }

    /// Whether `config` holds what these arguments ask for.
    pub open spec fn resolves_to(self, config: Config) -> bool {
        &&& config.file == self.file
        &&& config.verbosity == self.verbosity
        &&& Some(config.raw_target@) == self.target()
        &&& Some(config.before_context) == self.before()
        &&& Some(config.after_context) == self.after()
        &&& config.pad == !self.no_pad
    }
}

/// Whether a size, if one was given, passes validation.
fn validate(text: &Option<String>) -> (valid: bool)
    ensures
        valid == passes_validation(optional_text(*text)),
{
    match text {
        Some(text) => is_number(text.clone()).is_ok(),
        None => true,
    }
}

/// Resolves a context size from the option that decides it.
fn resolve_size(first: &Option<String>, second: &Option<String>) -> (size: Option<usize>)
    ensures
        size == resolved_size(optional_text(*first), optional_text(*second)),
{
    match first {
        Some(text) => parse_size(text.as_str()),
        None => match second {
            Some(text) => parse_size(text.as_str()),
            None => Some(0),
        },
    }
}

impl Config {
    /// The size of the window a scan with these settings keeps: the target
    /// with its full context on both sides.
    pub open spec fn window_size(&self) -> nat {
        (self.before_context + self.raw_target@.len() + self.after_context) as nat
    }

    /// Resolves the configuration from the arguments of a command line, after
    /// making sure that the options given go together and hold valid values.
    pub fn from_args(arguments: Arguments) -> (outcome: Result<Config, ScanError>)
        ensures
            match outcome {
                Ok(config) => arguments.fault().is_none() && arguments.resolves_to(config),
                Err(error) => arguments.fault().is_some() && error
                    == ScanError::ConfigurationError(arguments.fault().unwrap()),
            },
    {
        if arguments.target_string.is_some() && arguments.target_file.is_some() {
            return Err(ScanError::ConfigurationError(ConfigurationFault::ConflictingTargets));
        }
        if arguments.target_string.is_none() && arguments.target_file.is_none() {
            return Err(ScanError::ConfigurationError(ConfigurationFault::MissingTarget));
        }
        if arguments.context.is_some() && (arguments.before_context.is_some()
            || arguments.after_context.is_some()) {
            return Err(ScanError::ConfigurationError(ConfigurationFault::ConflictingContexts));
        }
        if !(validate(&arguments.context) && validate(&arguments.before_context) && validate(
            &arguments.after_context,
        )) {
            return Err(ScanError::ConfigurationError(ConfigurationFault::InvalidNumber));
        }
        Config::build(arguments)
    }

    /// Resolves the configuration from arguments that are taken to go
    /// together: picks the target and converts the context sizes.
    pub fn build(arguments: Arguments) -> (outcome: Result<Config, ScanError>)
        ensures
            match outcome {
                Ok(config) => arguments.build_fault().is_none() && arguments.resolves_to(config),
                Err(error) => arguments.build_fault().is_some() && error
                    == ScanError::ConfigurationError(arguments.build_fault().unwrap()),
            },
    {
        let before_context = resolve_size(&arguments.context, &arguments.before_context);
        let after_context = resolve_size(&arguments.context, &arguments.after_context);
        let raw_target = match arguments.target_string {
            Some(text) => text.as_str().as_bytes_vec(),
            None => match arguments.target_file {
                Some(bytes) => bytes,
                None => {
                    return Err(ScanError::ConfigurationError(ConfigurationFault::MissingTarget));
                },
            },
        };
        match (before_context, after_context) {
            (Some(before_context), Some(after_context)) => Ok(
                Config {
                    file: arguments.file,
                    verbosity: arguments.verbosity,
                    raw_target,
                    before_context,
                    after_context,
                    pad: !arguments.no_pad,
                },
            ),
            _ => Err(ScanError::ConfigurationError(ConfigurationFault::InvalidNumber)),
        }
    }

    /// The bytes searched for.
    pub fn target(&self) -> (target: &[u8])
        ensures
            target@ == self.raw_target@,
    {
        self.raw_target.as_slice()
    }
}

} // verus!
