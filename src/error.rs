use cargo_lock::Error as LockfileError;
use vstd::prelude::*;

verus! {

#[verifier::external_type_specification]
#[verifier::external_body]
pub struct ExLockError(LockfileError);

#[verifier::external_type_specification]
#[verifier::external_body]
pub struct ExIoErrorKind(std::io::ErrorKind);

/// Why a lock file could not be had.
#[derive(Debug)]
#[non_exhaustive]
pub enum Error {
    /// The lock file text did not parse.
    CargoLock(cargo_lock::Error),
    /// The crate could not be downloaded; the transport's message.
    Download(String),
    /// The crate archive could not be read; the kind of the I/O failure.
    Tar(std::io::ErrorKind),
    /// The crate archive holds no `Cargo.lock`.
    MissingLockfile,
    /// A crate specifier without a version.
    Spec(String),
}

} // verus!
