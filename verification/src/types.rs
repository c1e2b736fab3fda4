//! Loading the reflection data that describe the types of resources.

use crate::error::Error;
use crate::text::concat2;
use vstd::prelude::*;
use vstd::string::*;

verus! {

/// Why reflection data could not be loaded or stored.
#[derive(Debug, PartialEq, Eq)]
pub enum TypeParseError {
    /// The file cannot be read or written.
    Io { not_found: bool, message: String },
    /// The file does not hold what it should.
    Json { message: String },
}

impl View for TypeParseError {
    type V = Seq<char>;

    /// The error as it is shown.
    open spec fn view(&self) -> Seq<char> {
        match *self {
            TypeParseError::Io { message, .. } => "IO error: "@ + message@,
            TypeParseError::Json { message } => "JSON error: "@ + message@,
        }
    }
}

/// The cause of an error, without its class.
pub open spec fn cause_of(error: TypeParseError) -> Seq<char> {
    match error {
        TypeParseError::Io { message, .. } => message@,
        TypeParseError::Json { message } => message@,
    }
}

impl TypeParseError {
    /// The error as it is shown.
    pub fn text(&self) -> (text: String)
        ensures
            text@ == self@,
    {
        match self {
            TypeParseError::Io { message, .. } => concat2("IO error: ", message.as_str()),
            TypeParseError::Json { message } => concat2("JSON error: ", message.as_str()),
        }
    }

    /// The cause of the error, without its class.
    fn cause(&self) -> (cause: &String)
        ensures
            cause@ == cause_of(*self),
    {
        match self {
            TypeParseError::Io { message, .. } => message,
            TypeParseError::Json { message } => message,
        }
    }
}

/// What is done after the reflection data were loaded, or were not.
#[derive(Debug, PartialEq, Eq)]
pub enum LoadStep {
    /// The data are used.
    Use,
    /// The types are extracted from the game, and then the data are loaded again;
    /// the text says why.
    Extract(String),
    /// The command fails.
    Fail(Error),
}

/// The model of what is done after the reflection data were loaded.
#[verifier::ext_equal]
pub enum LoadModel {
    Use,
    Extract(Seq<char>),
    Fail(Seq<char>),
}

impl View for LoadStep {
    type V = LoadModel;

    open spec fn view(&self) -> LoadModel {
        match *self {
            LoadStep::Use => LoadModel::Use,
            LoadStep::Extract(reason) => LoadModel::Extract(reason@),
            LoadStep::Fail(error) => LoadModel::Fail(error@),
        }
    }
}

/// What is done after the reflection data were loaded, or were not. With a game
/// directory the data have to belong to the version of its archive; data that do
/// not, that are missing or that are not valid are extracted anew, if that was not
/// tried already. Without one, nothing can be extracted, and the version does not
/// matter.
pub open spec fn load_step_of(
    loaded: Result<String, TypeParseError>,
    game_given: bool,
    archive_version: Seq<char>,
    retry: bool,
) -> LoadModel {
    match loaded {
        Ok(version) => if !game_given || version@ == archive_version {
            LoadModel::Use
        } else if retry {
            LoadModel::Extract(
                "reflection_data.json is outdated, attempting to extract types again..."@,
            )
        } else {
            LoadModel::Fail("reflection_data.json is outdated, please extract types again"@)
        },
        Err(error) => {
            let failure = LoadModel::Fail("Failed to load reflection_data.json: "@ + cause_of(error));
            match error {
                TypeParseError::Io { not_found, .. } => if not_found && game_given && retry {
                    LoadModel::Extract(
                        "reflection_data.json not found, attempting to extract types first..."@,
                    )
                } else if not_found && !game_given {
                    LoadModel::Fail("reflection_data.json not found, please extract types first"@)
                } else {
                    failure
                },
                TypeParseError::Json { .. } => if game_given && retry {
                    LoadModel::Extract(
                        "reflection_data.json is invalid, attempting to extract types again..."@,
                    )
                } else {
                    failure
                },
            }
        },
    }
}

/// What is done after the reflection data were loaded, or were not. `loaded` holds
/// the version of the data, and `archive_version` counts only where there are data
/// and a game directory.
pub fn load_step(
    loaded: &Result<String, TypeParseError>,
    game_given: bool,
    archive_version: &str,
    retry: bool,
) -> (step: LoadStep)
    ensures
        step@ == load_step_of(*loaded, game_given, archive_version@, retry),
{
    match loaded {
        Ok(version) => if !game_given || *version.as_str() == *archive_version {
            LoadStep::Use
        } else if retry {
            LoadStep::Extract(
                "reflection_data.json is outdated, attempting to extract types again...".to_owned(),
            )
        } else {
            LoadStep::Fail(
                Error("reflection_data.json is outdated, please extract types again".to_owned()),
            )
        },
        Err(error) => {
            match error {
                TypeParseError::Io { not_found, .. } => {
                    if *not_found && game_given && retry {
                        return LoadStep::Extract(
                            "reflection_data.json not found, attempting to extract types first...".to_owned(),
                        );
                    }
                    if *not_found && !game_given {
                        return LoadStep::Fail(
                            Error(
                                "reflection_data.json not found, please extract types first".to_owned(),
                            ),
                        );
                    }
                },
                TypeParseError::Json { .. } => {
                    if game_given && retry {
                        return LoadStep::Extract(
                            "reflection_data.json is invalid, attempting to extract types again...".to_owned(),
                        );
                    }
                },
            }
            LoadStep::Fail(
                Error::with("Failed to load reflection_data.json: ", error.cause().as_str()),
            )
        },
    }
}

/// Types are extracted at most once: where that was tried already, or where there
/// is no game to extract them from, the data are used as they are or the command
/// fails.
pub proof fn law_types_are_extracted_at_most_once(
    loaded: Result<String, TypeParseError>,
    game_given: bool,
    archive_version: Seq<char>,
    retry: bool,
)
    ensures
        !retry || !game_given ==> !(load_step_of(loaded, game_given, archive_version, retry)
            is Extract),
{
}

/// Data are used only if they could be loaded and, with a game directory, belong
/// to the version of its archive.
pub proof fn law_only_current_data_are_used(
    loaded: Result<String, TypeParseError>,
    game_given: bool,
    archive_version: Seq<char>,
    retry: bool,
)
    ensures
        load_step_of(loaded, game_given, archive_version, retry) is Use <==> loaded is Ok && (
        !game_given || loaded->Ok_0@ == archive_version),
{
}

/// With a game and a try left, missing, outdated and invalid data are made anew, and the
/// user is told which of these it was.
pub proof fn law_when_types_are_extracted(
    version: String,
    message: String,
    archive_version: Seq<char>,
)
    ensures
        version@ != archive_version ==> load_step_of(Ok(version), true, archive_version, true)
            == LoadModel::Extract(
            "reflection_data.json is outdated, attempting to extract types again..."@,
        ),
        load_step_of(
            Err(TypeParseError::Io { not_found: true, message }),
            true,
            archive_version,
            true,
        ) == LoadModel::Extract(
            "reflection_data.json not found, attempting to extract types first..."@,
        ),
        load_step_of(Err(TypeParseError::Json { message }), true, archive_version, true)
            == LoadModel::Extract(
            "reflection_data.json is invalid, attempting to extract types again..."@,
        ),
{
}

/// What is said where the data cannot be used or made anew.
pub proof fn law_when_loading_fails(
    version: String,
    message: String,
    archive_version: Seq<char>,
    game_given: bool,
    retry: bool,
)
    ensures
        version@ != archive_version ==> load_step_of(Ok(version), true, archive_version, false)
            == LoadModel::Fail("reflection_data.json is outdated, please extract types again"@),
        load_step_of(
            Err(TypeParseError::Io { not_found: true, message }),
            false,
            archive_version,
            retry,
        ) == LoadModel::Fail("reflection_data.json not found, please extract types first"@),
        load_step_of(
            Err(TypeParseError::Io { not_found: true, message }),
            true,
            archive_version,
            false,
        ) == LoadModel::Fail("Failed to load reflection_data.json: "@ + message@),
        load_step_of(
            Err(TypeParseError::Io { not_found: false, message }),
            game_given,
            archive_version,
            retry,
        ) == LoadModel::Fail("Failed to load reflection_data.json: "@ + message@),
        !game_given || !retry ==> load_step_of(
            Err(TypeParseError::Json { message }),
            game_given,
            archive_version,
            retry,
        ) == LoadModel::Fail("Failed to load reflection_data.json: "@ + message@),
{
}

/// An error is shown with its class in front of its cause.
pub proof fn law_how_errors_are_shown(not_found: bool, message: String)
    ensures
        (TypeParseError::Io { not_found, message })@ == "IO error: "@ + message@,
        (TypeParseError::Json { message })@ == "JSON error: "@ + message@,
        cause_of(TypeParseError::Io { not_found, message }) == message@,
        cause_of(TypeParseError::Json { message }) == message@,
{
}

} // verus!
