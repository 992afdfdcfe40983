//! The download command and the datasets it knows.

use crate::args::jump_cpg0016::{download_jump_cpg0016, ConfigError, JumpCpg0016Args, Request};
use crate::utils::text_of;
use vstd::prelude::*;

verus! {

/// The datasets that can be downloaded from.
#[derive(Debug)]
pub enum DownloadCommands {
    JumpCpg0016(JumpCpg0016Args),
}

/// The options of the download command: the dataset that was named, with
/// its options, and the options that were given without naming one.
#[derive(Debug)]
pub struct DownloadArgs {
    command: Option<DownloadCommands>,
    jump_cpg0016: JumpCpg0016Args,
}

impl DownloadArgs {
    /// The dataset that was named, with its options.
    pub closed spec fn command(self) -> Option<DownloadCommands> {
        self.command
    }

    /// The options that were given without naming a dataset.
    pub closed spec fn unnamed(self) -> JumpCpg0016Args {
        self.jump_cpg0016
    }

    /// The options as they were read from the command line.
    pub fn new(command: Option<DownloadCommands>, jump_cpg0016: JumpCpg0016Args) -> (args:
        DownloadArgs)
        ensures
            args.command() == command,
            args.unnamed() == jump_cpg0016,
    {
        DownloadArgs { command, jump_cpg0016 }
    }

    /// The dataset that was named, and the options given without naming
    /// one.
    pub fn into_parts(self) -> (parts: (Option<DownloadCommands>, JumpCpg0016Args))
        ensures
            parts.0 == self.command(),
            parts.1 == self.unnamed(),
    {
        (self.command, self.jump_cpg0016)
    }

    /// Whether a dataset was named.
    pub fn has_command(&self) -> (named: bool)
        ensures
            named == self.command() is Some,
    {
        self.command.is_some()
    }
}

/// Checks the download that `args` asks for, by the rules of the dataset
/// that it names: see [`download_jump_cpg0016`]. A dataset must be named.
pub fn download(args: &DownloadArgs) -> (checked: Result<Request, ConfigError>)
    requires
        args.command() is Some,
    ensures
        args.command() matches Some(DownloadCommands::JumpCpg0016(images)) && (match checked {
            Ok(request) => {
                &&& images.fault() is None
                &&& request.selection@ == images.criteria()
                &&& Some(request.output@) == text_of(images.output)
                &&& request.threads == images.threads
            },
            Err(e) => images.fault() == Some(e),
        }),
{
    match args.command.as_ref().unwrap() {
        DownloadCommands::JumpCpg0016(images) => download_jump_cpg0016(images),
    }
}

} // verus!
