//! The ways in which locating or reading an archive fails.

use vstd::prelude::*;

verus! {

/// Why the value of an environment variable could not be had.
#[derive(Clone, Copy, Debug, PartialEq, Eq, Structural)]
pub enum EnvError {
    /// The variable is not set.
    NotPresent,
    /// The variable is set, but its value is not valid text.
    NotUnicode,
}

/// The failure of an operation of this library, by kind, each with its cause.
#[derive(Debug)]
pub enum MinecraftError {
    /// An entry's bytes could not be read.
    Io(std::io::Error),
    /// The environment variable that names the installation could not be read.
    Env(EnvError),
    /// The bytes are no archive, or an entry of the archive cannot be opened.
    Zip(zip::result::ZipError),
}

/// What an operation of this library returns.
pub type MinecraftResult<T> = Result<T, MinecraftError>;

} // verus!
