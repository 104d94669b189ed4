//! The failure conditions of a run. Every kind is fatal to the batch;
//! each carries the offending path or paths and renders a descriptive
//! message.

use vstd::prelude::*;

verus! {

/// The failures caused by what the user asked for.
#[derive(Debug)]
pub enum InputError {
    /// Both `--force` and `--interactive` were given.
    ForceAndInteractive,
    /// The computed destination is an existing directory.
    CannotRenameFileToDirectory(String, String),
    /// The destination is occupied and neither flag permits overwriting.
    SkippingOverwrite(String, String),
    /// An input path is not a file and the ignore flag is not set.
    InvalidFile(String),
    /// A rename whose destination equals its source.
    InvalidRename(String, String),
}

/// A fatal failure: bad input, or an underlying filesystem error
/// (carried as its rendered message).
#[derive(Debug)]
pub enum RenameError {
    InputError(InputError),
    Io(String),
}

impl RenameError {
    /// The human-readable message for this failure.
    pub open spec fn message_spec(self) -> Seq<char> {
        match self {
            RenameError::InputError(err) => match err {
                InputError::ForceAndInteractive => {
                    "Received --force and --interactive. Not sure how to continue."@
                },
                InputError::CannotRenameFileToDirectory(file, dir) => {
                    "Cannot rename "@ + file@ + ". "@ + dir@ + " is already a directory."@
                },
                InputError::SkippingOverwrite(file, renamed) => {
                    file@ + ". Not overwriting "@ + renamed@ + " without --interactive or --force."@
                },
                InputError::InvalidFile(path) => {
                    path@ + " is not a file. If this is intentional, pass --ignore-invalid-files."@
                },
                InputError::InvalidRename(path, renamed) => {
                    "Invalid rename. "@ + path@ + " can't be renamed to "@ + renamed@ + "."@
                },
            },
            RenameError::Io(detail) => "IO error "@ + detail@,
        }
    }

    /// Renders the message for this failure.
    pub fn message(&self) -> (r: String)
        ensures
            r@ == self.message_spec(),
    {
        match self {
            RenameError::InputError(err) => match err {
                InputError::ForceAndInteractive => {
                    String::from_str("Received --force and --interactive. Not sure how to continue.")
                },
                InputError::CannotRenameFileToDirectory(file, dir) => {
                    let mut r = String::from_str("Cannot rename ");
                    r.append(file.as_str());
                    r.append(". ");
                    r.append(dir.as_str());
                    r.append(" is already a directory.");
                    proof {
                        assert(r@ =~= self.message_spec());
                    }
                    r
                },
                InputError::SkippingOverwrite(file, renamed) => {
                    let mut r = String::from_str("");
                    r.append(file.as_str());
                    r.append(". Not overwriting ");
                    r.append(renamed.as_str());
                    r.append(" without --interactive or --force.");
                    proof {
                        reveal_strlit("");
                        assert(r@ =~= self.message_spec());
                    }
                    r
                },
                InputError::InvalidFile(path) => {
                    let mut r = String::from_str("");
                    r.append(path.as_str());
                    r.append(" is not a file. If this is intentional, pass --ignore-invalid-files.");
                    proof {
                        reveal_strlit("");
                        assert(r@ =~= self.message_spec());
                    }
                    r
                },
                InputError::InvalidRename(path, renamed) => {
                    let mut r = String::from_str("Invalid rename. ");
                    r.append(path.as_str());
                    r.append(" can't be renamed to ");
                    r.append(renamed.as_str());
                    r.append(".");
                    proof {
                        assert(r@ =~= self.message_spec());
                    }
                    r
                },
            },
            RenameError::Io(detail) => {
                let mut r = String::from_str("IO error ");
                r.append(detail.as_str());
                proof {
                    assert(r@ =~= self.message_spec());
                }
                r
            },
        }
    }
}

} // verus!
