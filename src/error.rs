use vstd::prelude::*;

verus! {

/// What can go wrong while sealing or opening one file.
#[derive(Debug, Clone, Copy, PartialEq, Eq, Structural)]
pub enum VaultError {
    /// The source path vanished between enumeration and open.
    NotFound,
    /// The header is shorter than its fixed part, its path length runs past
    /// the end of the container, or the decoded path is not valid text.
    MalformedContainer,
    /// The encrypted relative path does not fit the header's length field.
    PathTooLong,
    /// The password hash rejected its parameters or could not run.
    KeyDerivationFailure,
    /// Any read, write, create or delete failure.
    Io,
}

} // verus!
