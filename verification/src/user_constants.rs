//! The user's library of reusable constants: which file contents are taken, and
//! what is said of the others.
//!
//! Reading and writing the file is left to the caller.

use crate::expression::UserConstantLibrary;
use crate::text::{concat4, decimal_text, same_text};
use vstd::prelude::*;
use vstd::string::*;

verus! {

/// The newest version of the format that is understood.
pub const LIBRARY_VERSION: u32 = 1;

/// The name of the format.
pub open spec fn format_word() -> Seq<char> {
    "fieldcad.user-constants/v1"@
}

/// Why a library could not be loaded or saved.
#[derive(Debug, PartialEq, Eq)]
pub enum UserConstantLibraryError {
    /// The platform has no configuration directory to keep it in.
    NoConfigurationDirectory,
    /// The file could not be read or written.
    Io(String),
    /// The file does not hold a library.
    Json(String),
    /// The library is of a newer or another format.
    Unsupported { format: String, version: u32 },
}

impl UserConstantLibraryError {
    pub open spec fn words(self) -> Seq<char> {
        match self {
            UserConstantLibraryError::NoConfigurationDirectory => {
                "no user configuration directory is available"@
            },
            UserConstantLibraryError::Io(message) => message@,
            UserConstantLibraryError::Json(message) => message@,
            UserConstantLibraryError::Unsupported { format, version } => {
                "unsupported user constant library format '"@ + format@ + "' version "@
                    + crate::text::decimal(version as nat)
            },
        }
    }

    pub fn message(&self) -> (text: String)
        ensures
            text@ == self.words(),
    {
        match self {
            UserConstantLibraryError::NoConfigurationDirectory => {
                "no user configuration directory is available".to_owned()
            },
            UserConstantLibraryError::Io(message) => message.clone(),
            UserConstantLibraryError::Json(message) => message.clone(),
            UserConstantLibraryError::Unsupported { format, version } => {
                let number = decimal_text(*version as u64);
                concat4(
                    "unsupported user constant library format '",
                    format.as_str(),
                    "' version ",
                    number.as_str(),
                )
            },
        }
    }
}

impl Default for UserConstantLibrary {
    /// The library of a first use: without constants.
    fn default() -> (library: Self)
        ensures
            library.format@ == format_word(),
            library.format_version == LIBRARY_VERSION,
            library.constants@.len() == 0,
    {
        UserConstantLibrary {
            format: "fieldcad.user-constants/v1".to_owned(),
            format_version: LIBRARY_VERSION,
            constants: Vec::new(),
        }
    }
}

/// Whether a library is of a format that is understood.
pub open spec fn understood(library: UserConstantLibrary) -> bool {
    library.format@ == format_word() && library.format_version <= LIBRARY_VERSION
}

/// What became of reading the library's file.
#[derive(Debug)]
pub enum LibraryFile {
    /// There is none.
    Missing,
    /// It could not be read.
    Unreadable(String),
    /// It does not hold a library.
    Malformed(String),
    Parsed(UserConstantLibrary),
}

/// The library a file holds: an empty one on first use, and none if the file
/// cannot be read, holds no library, or holds one of a format that is not
/// understood.
pub fn load_from(file: LibraryFile) -> (library: Result<UserConstantLibrary, UserConstantLibraryError>)
    ensures
        match file {
            LibraryFile::Missing => library matches Ok(empty) && empty.format@ == format_word()
                && empty.format_version == LIBRARY_VERSION && empty.constants@.len() == 0,
            LibraryFile::Unreadable(message) => library == Err::<
                UserConstantLibrary,
                UserConstantLibraryError,
            >(UserConstantLibraryError::Io(message)),
            LibraryFile::Malformed(message) => library == Err::<
                UserConstantLibrary,
                UserConstantLibraryError,
            >(UserConstantLibraryError::Json(message)),
            LibraryFile::Parsed(parsed) => library == if understood(parsed) {
                Ok::<UserConstantLibrary, UserConstantLibraryError>(parsed)
            } else {
                Err(
                    UserConstantLibraryError::Unsupported {
                        format: parsed.format,
                        version: parsed.format_version,
                    },
                )
            },
        },
{
    match file {
        LibraryFile::Missing => Ok(UserConstantLibrary::default()),
        LibraryFile::Unreadable(message) => Err(UserConstantLibraryError::Io(message)),
        LibraryFile::Malformed(message) => Err(UserConstantLibraryError::Json(message)),
        LibraryFile::Parsed(parsed) => {
            if same_text(parsed.format.as_str(), "fieldcad.user-constants/v1")
                && parsed.format_version <= LIBRARY_VERSION {
                Ok(parsed)
            } else {
                Err(
                    UserConstantLibraryError::Unsupported {
                        format: parsed.format,
                        version: parsed.format_version,
                    },
                )
            }
        },
    }
}

/// A library is understood exactly where its format is this one and its version is not newer.
pub proof fn a_newer_library_is_not_understood(library: UserConstantLibrary)
    ensures
        library.format@ != "fieldcad.user-constants/v1"@ ==> !understood(library),
        library.format_version > 1 ==> !understood(library),
        library.format@ == "fieldcad.user-constants/v1"@ && library.format_version <= 1 ==> understood(
            library,
        ),
{
}

/// An error says what went wrong, and of another format which one it is.
pub proof fn an_error_says_what_went_wrong(message: String, format: String, version: u32)
    ensures
        UserConstantLibraryError::Io(message).words() == message@,
        UserConstantLibraryError::Json(message).words() == message@,
        UserConstantLibraryError::NoConfigurationDirectory.words()
            == "no user configuration directory is available"@,
        (UserConstantLibraryError::Unsupported { format, version }).words()
            == "unsupported user constant library format '"@ + format@ + "' version "@
            + crate::text::decimal(version as nat),
{
}

} // verus!
