//! The base directory: the one the user names, or else the platform's data
//! directory for this application.

use vstd::prelude::*;
use vstd::string::*;

verus! {

/// Why no base directory could be settled.
#[derive(Debug, Clone, Copy, PartialEq, Eq, Structural)]
pub enum ConfigError {
    /// The user named none and the platform offers none.
    NoBaseDirectory,
}

impl ConfigError {
    /// The message shown to the user.
    pub fn to_string(&self) -> (message: String)
        ensures
            message@ == "Could not find application directory"@,
    {
        match self {
            ConfigError::NoBaseDirectory => String::from_str(
                "Could not find application directory",
            ),
        }
    }
}

/// The base directory to use: `explicit` where the user gave one, else
/// `fallback`; where there is neither, the error.
pub open spec fn base_choice<T>(explicit: Option<T>, fallback: Option<T>) -> Result<
    T,
    ConfigError,
> {
    match explicit {
        Some(path) => Ok(path),
        None => match fallback {
            Some(path) => Ok(path),
            None => Err(ConfigError::NoBaseDirectory),
        },
    }
}

/// Settles the base directory. What the user named wins over the
/// platform's default.
pub fn choose_base<T>(explicit: Option<T>, fallback: Option<T>) -> (choice: Result<T, ConfigError>)
    ensures
        choice == base_choice(explicit, fallback),
{
    match explicit {
        Some(path) => Ok(path),
        None => match fallback {
            Some(path) => Ok(path),
            None => Err(ConfigError::NoBaseDirectory),
        },
    }
}

} // verus!
