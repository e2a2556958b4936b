//! Error type shared by the manifest-preparation operations.
use vstd::prelude::*;

use cargo_metadata::Error as CargoMetadataError;

verus! {

#[verifier::external_type_specification]
#[verifier::external_body]
pub struct ExIoError(std::io::Error);

#[verifier::external_type_specification]
#[verifier::external_body]
pub struct ExMetadataError(CargoMetadataError);

/// An error of one of the manifest-preparation operations.
///
/// - `CargoMetadata`: the workspace metadata service failed;
/// - `Io`: an I/O operation failed, with a description of the action
///   that was under way;
/// - `Toml`: a document could not be parsed;
/// - `InvalidPath`: a file path with no file name or no parent directory;
/// - `BackupFileAlreadyExists`: a backup was requested where a backup
///   file already exists and overwriting was not allowed.
#[derive(Debug)]
pub enum Error {
    CargoMetadata(CargoMetadataError),
    Io { source: std::io::Error, context: String },
    Toml(toml_edit::TomlError),
    InvalidPath(String),
    BackupFileAlreadyExists(String),
}

/// Result type used throughout the crate, defaulting to [`Error`].
pub type Result<T, E = Error> = core::result::Result<T, E>;

/// Attaches a description of the action under way to an I/O error.
///
/// Implemented for an I/O error itself and for any result whose error
/// carries one; the context closure is only called when there is an
/// error to describe.
pub trait IoErrorContext: Sized {
    /// What attaching the context produces.
    type Output;

    /// Whether there is an I/O error to describe, so that the context
    /// closure's description ends up in the output.
    spec fn needs_context(self) -> bool;

    /// What [`with_io_context`](Self::with_io_context) returns for `self`
    /// when the context description is `description`: for an I/O error,
    /// the `Io` error value carrying both; for a result, the `Ok` value
    /// unchanged or the error so wrapped.
    spec fn io_context_post(self, description: String, r: Self::Output) -> bool;

    /// Wraps the I/O error, if any, together with the description that
    /// `context` produces; where there is no error, the description does
    /// not matter and the closure need not be called.
    fn with_io_context<C: FnOnce() -> String>(self, context: C) -> (r: Self::Output)
        requires
            call_requires(context, ()),
        ensures
            self.needs_context() ==> exists|description: String|
                #[trigger] call_ensures(context, (), description) && self.io_context_post(
                    description,
                    r,
                ),
            !self.needs_context() ==> forall|description: String|
                self.io_context_post(description, r),
    ;
}

impl IoErrorContext for std::io::Error {
    type Output = Error;

    open spec fn needs_context(self) -> bool {
        true
    }

    open spec fn io_context_post(self, description: String, r: Error) -> bool {
        r == (Error::Io { source: self, context: description })
    }

    fn with_io_context<C: FnOnce() -> String>(self, context: C) -> (r: Self::Output) {
        let description = context();
        Error::Io { source: self, context: description }
    }
}

impl<T, E: IoErrorContext<Output = Error>> IoErrorContext for core::result::Result<T, E> {
    type Output = Result<T>;

    open spec fn needs_context(self) -> bool {
        match self {
            Ok(_) => false,
            Err(error) => error.needs_context(),
        }
    }

    open spec fn io_context_post(self, description: String, r: Result<T>) -> bool {
        match self {
            Ok(value) => r == Ok::<T, Error>(value),
            Err(error) => r matches Err(wrapped) && error.io_context_post(description, wrapped),
        }
    }

    fn with_io_context<C: FnOnce() -> String>(self, context: C) -> (r: Self::Output) {
        match self {
            Ok(value) => Ok(value),
            Err(error) => Err(error.with_io_context(context)),
        }
    }
}

} // verus!
