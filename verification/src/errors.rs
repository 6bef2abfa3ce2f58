use vstd::prelude::*;

verus! {

/// Failures the framework reports. Construction failures are fatal on the
/// side that sees them; runtime channel operations never return errors.
#[derive(Clone, Copy, Debug, PartialEq, Eq, Structural)]
pub enum Error {
    /// An OS name of 32 bytes or more cannot back a shared region.
    IdentifierTooLong,
    /// The owner could not create and map a region.
    AllocationFailed,
    /// The reloadable side found no region under the agreed name.
    NotFound,
    /// The reloadable side was started without its id-prefix argument.
    ArgumentMissing,
    /// The serialized init arguments did not decode.
    ArgumentMalformed,
    /// The owner could not spawn the watcher process.
    SpawnFailed,
}

impl Error {
    /// A short description of the failure.
    pub fn describe(&self) -> (r: &'static str)
        ensures
            self is IdentifierTooLong ==> r@ == "identifier is too long for an OS shared-memory name"@,
            self is AllocationFailed ==> r@ == "failed to allocate a shared-memory region"@,
            self is NotFound ==> r@ == "no shared-memory region exists under this identifier"@,
            self is ArgumentMissing ==> r@ == "missing command-line argument for the reloadable process"@,
            self is ArgumentMalformed ==> r@ == "malformed init arguments for the reloadable process"@,
            self is SpawnFailed ==> r@ == "failed to spawn the watcher process"@,
    {
        match self {
            Error::IdentifierTooLong => "identifier is too long for an OS shared-memory name",
            Error::AllocationFailed => "failed to allocate a shared-memory region",
            Error::NotFound => "no shared-memory region exists under this identifier",
            Error::ArgumentMissing => "missing command-line argument for the reloadable process",
            Error::ArgumentMalformed => "malformed init arguments for the reloadable process",
            Error::SpawnFailed => "failed to spawn the watcher process",
        }
    }
}

} // verus!
