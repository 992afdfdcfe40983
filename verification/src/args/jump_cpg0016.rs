//! The options of a download from the jump-cpg0016 dataset and the rules
//! that they must meet before any file or server is touched.

use crate::card::jump_cpg0016::{Criteria, Selection};
use crate::utils::text_of;
use vstd::prelude::*;

verus! {

/// The options of a download from the jump-cpg0016 dataset.
#[derive(Debug)]
pub struct JumpCpg0016Args {
    /// Data generating center identifier.
    pub source: Option<String>,
    /// Batch identifier for the plate.
    pub batch: Option<String>,
    /// Plate identifier.
    pub plate: Option<String>,
    /// Number of sites per well.
    pub site: Option<String>,
    /// Well identifier.
    pub well: Option<String>,
    /// Compound denoted by hashed InChIKey identifier.
    pub compound: Option<String>,
    /// Path to save downloaded images.
    pub output: Option<String>,
    /// Number of downloads that may run at the same time.
    pub threads: Option<usize>,
    /// Download all images.
    pub all: bool,
}

/// Why a download was turned down before it began.
#[derive(Clone, Copy, Debug, PartialEq, Eq, Structural)]
pub enum ConfigError {
    /// No output directory was given.
    MissingOutput,
    /// No field to select by was given, and not all images were asked for.
    NoQuery,
    /// The number of simultaneous downloads was given as zero.
    NoThreads,
}

impl ConfigError {
    /// What the user is told.
    pub open spec fn text(self) -> Seq<char> {
        match self {
            ConfigError::MissingOutput => "Output directory not provided."@,
            ConfigError::NoQuery => "No query parameters provided. To download all images, use the --all flag."@,
            ConfigError::NoThreads => "Number of threads must be at least one."@,
        }
    }

    /// What the user is told.
    pub fn message(&self) -> (text: &'static str)
        ensures
            text@ == self.text(),
    {
        match self {
            ConfigError::MissingOutput => "Output directory not provided.",
            ConfigError::NoQuery => "No query parameters provided. To download all images, use the --all flag.",
            ConfigError::NoThreads => "Number of threads must be at least one.",
        }
    }
}

/// A download that may be carried out: the selection, where the files go,
/// and how many may be fetched at once.
#[derive(Debug)]
pub struct Request {
    pub selection: Selection,
    pub output: String,
    pub threads: Option<usize>,
}

impl JumpCpg0016Args {
    /// The six constraints of the selection.
    pub open spec fn criteria(self) -> Criteria {
        Criteria {
            source: text_of(self.source),
            batch: text_of(self.batch),
            plate: text_of(self.plate),
            site: text_of(self.site),
            well: text_of(self.well),
            compound: text_of(self.compound),
        }
    }

    /// The first rule that the options break, if any: an output directory
    /// is needed; then a constraint or the wish for all images; then a
    /// number of simultaneous downloads that is not zero.
    pub open spec fn fault(self) -> Option<ConfigError> {
        if self.output is None {
            Some(ConfigError::MissingOutput)
        } else if self.criteria().is_empty() && !self.all {
            Some(ConfigError::NoQuery)
        } else if self.threads == Some(0usize) {
            Some(ConfigError::NoThreads)
        } else {
            None
        }
    }
}

/// A copy of an optional string.
fn copy_text(value: &Option<String>) -> (copy: Option<String>)
    ensures
        text_of(copy) == text_of(*value),
{
    match value {
        Some(s) => Some(s.clone()),
        None => None,
    }
}

/// Decides whether the download that `args` describes may begin.
///
/// It may when an output directory is given, at least one constraint is
/// present or all images are asked for, and the number of simultaneous
/// downloads is not zero. The request then carries the options over
/// unchanged. Otherwise the first broken rule is reported and nothing is
/// to be read or fetched.
pub fn download_jump_cpg0016(args: &JumpCpg0016Args) -> (checked: Result<Request, ConfigError>)
    ensures
        match checked {
            Ok(request) => {
                &&& args.fault() is None
                &&& request.selection@ == args.criteria()
                &&& Some(request.output@) == text_of(args.output)
                &&& request.threads == args.threads
            },
            Err(e) => args.fault() == Some(e),
        },
        args.criteria().is_empty() && !args.all ==> checked is Err,
{
    let output = match &args.output {
        Some(dir) => dir.clone(),
        None => {
            return Err(ConfigError::MissingOutput);
        },
    };
    if args.source.is_none() && args.batch.is_none() && args.plate.is_none() && args.site.is_none()
        && args.well.is_none() && args.compound.is_none() && !args.all {
        return Err(ConfigError::NoQuery);
    }
    match args.threads {
        Some(n) => {
            if n == 0 {
                return Err(ConfigError::NoThreads);
            }
        },
        None => {},
    }
    Ok(
        Request {
            selection: Selection {
                source: copy_text(&args.source),
                batch: copy_text(&args.batch),
                plate: copy_text(&args.plate),
                site: copy_text(&args.site),
                well: copy_text(&args.well),
                compound: copy_text(&args.compound),
            },
            output,
            threads: args.threads,
        },
    )
}

} // verus!
