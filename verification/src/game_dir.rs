//! The files of a game directory: which archive is meant, and what happens to it
//! and to its backup.

use crate::error::Error;
use crate::filter::ascending;
use crate::text::{concat3, optional_str, optional_text};
use vstd::prelude::*;
use vstd::string::*;

verus! {

// ---------------------------------------------------------------------------
// Directories and files
// ---------------------------------------------------------------------------

/// A directory that a command is given.
#[derive(Clone, Copy, Debug, PartialEq, Eq, Structural)]
pub enum Directory {
    Game,
    Input,
    Output,
}

/// What is said of a directory that does not exist.
pub open spec fn missing_directory_text(directory: Directory, shown: Seq<char>) -> Seq<char> {
    match directory {
        Directory::Game => "Game directory does not exist: "@ + shown,
        Directory::Input => "Input directory does not exist: "@ + shown,
        Directory::Output => "Output directory does not exist: "@ + shown,
    }
}

/// A directory has to exist.
pub fn require_directory(directory: Directory, exists: bool, shown: &str) -> (checked: Result<
    (),
    Error,
>)
    ensures
        match checked {
            Ok(()) => exists,
            Err(error) => !exists && error@ == missing_directory_text(directory, shown@),
        },
{
    if exists {
        return Ok(());
    }
    Err(
        match directory {
            Directory::Game => Error::with("Game directory does not exist: ", shown),
            Directory::Input => Error::with("Input directory does not exist: ", shown),
            Directory::Output => Error::with("Output directory does not exist: ", shown),
        },
    )
}

/// A file in the game directory.
pub struct DirectoryEntry {
    /// What stands behind the last dot of its name, if there is a dot.
    pub extension: Option<String>,
    /// What stands in front of it, if that is text.
    pub stem: Option<String>,
}

/// Whether a file can be an archive or a program, and has a name to go by.
pub open spec fn is_candidate(entry: DirectoryEntry) -> bool {
    &&& entry.stem is Some
    &&& optional_text(entry.extension) == Some("kfc"@) || optional_text(entry.extension) == Some(
        "exe"@,
    )
}

/// The first candidate in a listing.
pub open spec fn first_candidate(listing: Seq<DirectoryEntry>) -> Option<Seq<char>>
    decreases listing.len(),
{
    if listing.len() == 0 {
        None
    } else {
        match first_candidate(listing.drop_last()) {
            Some(name) => Some(name),
            None => if is_candidate(listing.last()) {
                optional_text(listing.last().stem)
            } else {
                None
            },
        }
    }
}

/// The name that the files of the game go by: the given one, or else that of the
/// client, or else that of the server, or else that of the first file that can be
/// an archive or a program.
pub open spec fn file_name_of(
    given: Option<Seq<char>>,
    has_client: bool,
    has_server: bool,
    listing: Seq<DirectoryEntry>,
) -> Option<Seq<char>> {
    match given {
        Some(name) => Some(name),
        None => if has_client {
            Some("enshrouded"@)
        } else if has_server {
            Some("enshrouded_server"@)
        } else {
            first_candidate(listing)
        },
    }
}

/// What is said where no file of the game is found.
pub open spec fn no_file_text() -> Seq<char> {
    "Unable to find the kfc/exe file in game directory, please specify it with --file_name"@
}

/// Whether a file can be an archive or a program, and has a name to go by.
fn check_candidate(entry: &DirectoryEntry) -> (found: bool)
    ensures
        found == is_candidate(*entry),
{
    if entry.stem.is_none() {
        return false;
    }
    match &entry.extension {
        Some(extension) => *extension.as_str() == *"kfc" || *extension.as_str() == *"exe",
        None => false,
    }
}

/// The name that the files of the game go by. `has_client` and `has_server` say
/// whether the archive or the program of the client and of the server are there,
/// and `listing` holds the files of the game directory.
pub fn get_file_name(
    given: Option<&str>,
    has_client: bool,
    has_server: bool,
    listing: &Vec<DirectoryEntry>,
) -> (name: Result<String, Error>)
    ensures
        match file_name_of(optional_str(given), has_client, has_server, listing@) {
            Some(expected) => match name {
                Ok(name) => name@ == expected,
                Err(_) => false,
            },
            None => match name {
                Ok(_) => false,
                Err(error) => error@ == no_file_text(),
            },
        },
{
    if let Some(name) = given {
        return Ok(name.to_owned());
    }
    if has_client {
        return Ok("enshrouded".to_owned());
    }
    if has_server {
        return Ok("enshrouded_server".to_owned());
    }
    let mut i: usize = 0;
    proof {
        assert(listing@.take(0) =~= Seq::empty());
    }
    while i < listing.len()
        invariant
            i <= listing@.len(),
            first_candidate(listing@.take(i as int)) is None,
            given is None,
            !has_client,
            !has_server,
        decreases listing@.len() - i,
    {
        proof {
            let more = listing@.take(i + 1);
            assert(more.drop_last() =~= listing@.take(i as int));
            assert(more.last() == listing@[i as int]);
        }
        if check_candidate(&listing[i]) {
            if let Some(stem) = &listing[i].stem {
                proof {
                    lemma_candidate_stays_first(listing@, i + 1);
                }
                return Ok(stem.clone());
            }
        }
        i = i + 1;
    }
    proof {
        assert(listing@.take(i as int) =~= listing@);
    }
    Err(
        Error(
            "Unable to find the kfc/exe file in game directory, please specify it with --file_name".to_owned(),
        ),
    )
}

/// A candidate that is found early stays the first.
proof fn lemma_candidate_stays_first(listing: Seq<DirectoryEntry>, count: int)
    requires
        0 <= count <= listing.len(),
        first_candidate(listing.take(count)) is Some,
    ensures
        first_candidate(listing) == first_candidate(listing.take(count)),
    decreases listing.len(),
{
    if count == listing.len() {
        assert(listing.take(count) =~= listing);
    } else {
        assert(listing.drop_last().take(count) =~= listing.take(count));
        lemma_candidate_stays_first(listing.drop_last(), count);
    }
}

/// The name of the file with an extension.
pub open spec fn file_of(name: Seq<char>, extension: Seq<char>) -> Seq<char> {
    name + "."@ + extension
}

/// The name of the file with an extension.
pub fn get_file_opt(name: &str, extension: &str) -> (file: String)
    ensures
        file@ == name@ + "."@ + extension@,
        file@ == file_of(name@, extension@),
{
    concat3(name, ".", extension)
}

/// The name of the file with an extension, which has to exist.
pub fn get_file(name: &str, extension: &str, exists: bool, shown: &str) -> (file: Result<
    String,
    Error,
>)
    ensures
        match file {
            Ok(file) => {
                &&& exists && file@ == name@ + "."@ + extension@
                &&& file@ == file_of(name@, extension@)
            },
            Err(error) => !exists && error@ == "File not found: "@ + shown@,
        },
{
    if exists {
        Ok(get_file_opt(name, extension))
    } else {
        Err(Error::with("File not found: ", shown))
    }
}

/// A file that was found below the input directory.
pub struct FoundEntry {
    /// Whether it is a plain file.
    pub is_file: bool,
    /// What stands behind the last dot of its name, if there is a dot.
    pub extension: Option<String>,
}

/// Whether an entry is a plain file with the extension.
pub open spec fn is_wanted(entry: FoundEntry, extension: Seq<char>) -> bool {
    entry.is_file && optional_text(entry.extension) == Some(extension)
}

/// The places of the plain files with the extension, in order.
pub fn files_with_extension(entries: &Vec<FoundEntry>, extension: &str) -> (places: Vec<usize>)
    ensures
        ascending(places@),
        forall|at: usize| #[trigger]
            places@.contains(at) <==> at < entries@.len() && is_wanted(
                entries@[at as int],
                extension@,
            ),
{
    let mut marks: Vec<bool> = Vec::new();
    let mut i: usize = 0;
    while i < entries.len()
        invariant
            i <= entries@.len(),
            marks@.len() == i,
            forall|k: int|
                0 <= k < i ==> #[trigger] marks@[k] == is_wanted(entries@[k], extension@),
        decreases entries@.len() - i,
    {
        let wanted = match &entries[i].extension {
            Some(found) => entries[i].is_file && *found.as_str() == *extension,
            None => false,
        };
        marks.push(wanted);
        i = i + 1;
    }
    crate::filter::marked_places(&marks)
}

// ---------------------------------------------------------------------------
// Backups
// ---------------------------------------------------------------------------

/// Whether a backup with this version, if it can be read, belongs to an archive with
/// that version.
pub open spec fn backup_belongs(backup: Option<Seq<char>>, archive: Seq<char>) -> bool {
    match backup {
        Some(backup) => backup == archive,
        None => false,
    }
}

/// Whether a backup belongs to the archive: both have the same version. A backup
/// whose version cannot be read does not; an archive whose version cannot be read
/// is an error.
pub fn validate_backup(
    backup: &Option<String>,
    archive: &Result<String, String>,
    shown: &str,
) -> (valid: Result<bool, Error>)
    ensures
        match (optional_text(*backup), *archive) {
            (None, _) => valid == Ok::<bool, Error>(false),
            (Some(backup), Ok(archive)) => valid == Ok::<bool, Error>(backup == archive@),
            (Some(_), Err(reason)) => match valid {
                Ok(_) => false,
                Err(error) => error@ == "Failed to read "@ + shown@ + ": "@ + reason@,
            },
        },
        match (valid, *archive) {
            (Ok(valid), Ok(archive)) => valid == backup_belongs(optional_text(*backup), archive@),
            (Ok(valid), Err(_)) => !valid && backup is None,
            (Err(_), _) => backup is Some && archive is Err,
        },
{
    match (backup, archive) {
        (None, _) => Ok(false),
        (Some(backup), Ok(archive)) => Ok(*backup.as_str() == *archive.as_str()),
        (Some(_), Err(reason)) => {
            let mut text = concat3("Failed to read ", shown, ": ");
            text.append(reason.as_str());
            Err(Error(text))
        },
    }
}

/// What is done about the backup before an archive is changed.
#[derive(Clone, Copy, Debug, PartialEq, Eq, Structural)]
pub enum BackupPlan {
    /// The backup stays.
    Keep,
    /// A backup is made.
    Create,
    /// The backup is deleted, and a new one is made.
    Replace,
}

/// What is done about the backup before an archive is changed, if anything can be done.
pub open spec fn backup_plan_of(exists: bool, valid: bool, is_file: bool) -> Option<BackupPlan> {
    if !exists {
        Some(BackupPlan::Create)
    } else if valid {
        Some(BackupPlan::Keep)
    } else if is_file {
        Some(BackupPlan::Replace)
    } else {
        None
    }
}

/// What is done about the backup before an archive is changed. `valid` counts only
/// where there is a backup, and `is_file` only where that is not valid.
pub fn plan_backup(exists: bool, valid: bool, is_file: bool, shown: &str) -> (plan: Result<
    BackupPlan,
    Error,
>)
    ensures
        match plan {
            Ok(BackupPlan::Keep) => exists && valid,
            Ok(BackupPlan::Create) => !exists,
            Ok(BackupPlan::Replace) => exists && !valid && is_file,
            Err(error) => {
                &&& exists && !valid && !is_file
                &&& error@ == "Backup path is not a file, please remove it manually: "@ + shown@
            },
        },
        plan is Ok <==> backup_plan_of(exists, valid, is_file) is Some,
        plan is Ok ==> Some(plan->Ok_0) == backup_plan_of(exists, valid, is_file),
{
    if !exists {
        Ok(BackupPlan::Create)
    } else if valid {
        Ok(BackupPlan::Keep)
    } else if is_file {
        Ok(BackupPlan::Replace)
    } else {
        Err(Error::with("Backup path is not a file, please remove it manually: ", shown))
    }
}

/// What is said where an archive cannot be restored from its backup.
pub fn revert_failure(backup_exists: bool, shown: &str) -> (error: Error)
    ensures
        error@ == if backup_exists {
            "Please manually restore from backup file: "@ + shown@
        } else {
            "Backup file is missing, please verify integrity of the game files"@
        },
{
    if backup_exists {
        Error::with("Please manually restore from backup file: ", shown)
    } else {
        Error("Backup file is missing, please verify integrity of the game files".to_owned())
    }
}

// ---------------------------------------------------------------------------
// Where descriptors come from and go to
// ---------------------------------------------------------------------------

/// Where descriptors go to, or come from.
#[derive(Clone, Copy, Debug, PartialEq, Eq, Structural)]
pub enum Stream {
    /// A directory.
    Files,
    /// The standard output or input.
    Standard,
}

/// Where descriptors go to or come from, if that is given. A directory comes first.
pub open spec fn stream_of(directory_given: bool, standard: bool) -> Option<Stream> {
    if directory_given {
        Some(Stream::Files)
    } else if standard {
        Some(Stream::Standard)
    } else {
        None
    }
}

/// Where unpacked descriptors go to. A directory comes first.
pub fn unpack_target(output_given: bool, stdout: bool) -> (target: Result<Stream, Error>)
    ensures
        match target {
            Ok(Stream::Files) => output_given,
            Ok(Stream::Standard) => !output_given && stdout,
            Err(error) => !output_given && !stdout && error@ == "No output directory specified"@,
        },
        target is Ok <==> stream_of(output_given, stdout) is Some,
        target is Ok ==> Some(target->Ok_0) == stream_of(output_given, stdout),
{
    if output_given {
        Ok(Stream::Files)
    } else if stdout {
        Ok(Stream::Standard)
    } else {
        Err(Error("No output directory specified".to_owned()))
    }
}

/// Where descriptors to repack come from. A directory comes first.
pub fn repack_source(input_given: bool, stdin: bool) -> (source: Result<Stream, Error>)
    ensures
        match source {
            Ok(Stream::Files) => input_given,
            Ok(Stream::Standard) => !input_given && stdin,
            Err(error) => !input_given && !stdin && error@ == "No input specified"@,
        },
        source is Ok <==> stream_of(input_given, stdin) is Some,
        source is Ok ==> Some(source->Ok_0) == stream_of(input_given, stdin),
{
    if input_given {
        Ok(Stream::Files)
    } else if stdin {
        Ok(Stream::Standard)
    } else {
        Err(Error("No input specified".to_owned()))
    }
}

/// A name that is given always counts, whatever is in the game directory.
pub proof fn law_given_name_counts(
    name: Seq<char>,
    has_client: bool,
    has_server: bool,
    listing: Seq<DirectoryEntry>,
)
    ensures
        file_name_of(Some(name), has_client, has_server, listing) == Some(name),
{
}

/// A name is found exactly if one is given, the client or the server is there, or
/// some file of the game directory can be an archive or a program.
pub proof fn law_name_is_found_if_there_is_one(
    given: Option<Seq<char>>,
    has_client: bool,
    has_server: bool,
    listing: Seq<DirectoryEntry>,
)
    ensures
        file_name_of(given, has_client, has_server, listing) is Some <==> given is Some
            || has_client || has_server || exists|i: int|
            0 <= i < listing.len() && is_candidate(#[trigger] listing[i]),
{
    lemma_first_candidate(listing);
}

proof fn lemma_first_candidate(listing: Seq<DirectoryEntry>)
    ensures
        first_candidate(listing) is Some <==> exists|i: int|
            0 <= i < listing.len() && is_candidate(#[trigger] listing[i]),
    decreases listing.len(),
{
    if listing.len() > 0 {
        let shorter = listing.drop_last();
        lemma_first_candidate(shorter);
        if first_candidate(shorter) is Some {
            let i = choose|i: int| 0 <= i < shorter.len() && is_candidate(#[trigger] shorter[i]);
            assert(is_candidate(listing[i]));
        } else if is_candidate(listing.last()) {
            assert(is_candidate(listing[listing.len() - 1]));
        } else {
            assert forall|i: int| 0 <= i < listing.len() implies !is_candidate(
                #[trigger] listing[i],
            ) by {
                if i < shorter.len() {
                    assert(!is_candidate(shorter[i]));
                }
            }
        }
    }
}

/// Where no name is given, the client counts if it is there, whether or not the server
/// is there too; the server counts only without the client.
pub proof fn law_client_comes_before_the_server(has_server: bool, listing: Seq<DirectoryEntry>)
    ensures
        file_name_of(None, true, has_server, listing) == Some("enshrouded"@),
        file_name_of(None, false, true, listing) == Some("enshrouded_server"@),
        file_name_of(None, true, false, listing) == file_name_of(None, true, true, listing),
{
}

/// What is in the game directory does not matter where the client or the server is
/// there. A name can only be that of the server if the server is there without the
/// client, if it is given, or if it is that of a file in the directory.
pub proof fn law_listing_counts_only_in_the_end(
    given: Option<Seq<char>>,
    has_client: bool,
    has_server: bool,
    listing: Seq<DirectoryEntry>,
    other: Seq<DirectoryEntry>,
)
    ensures
        given is Some || has_client || has_server ==> file_name_of(
            given,
            has_client,
            has_server,
            listing,
        ) == file_name_of(given, has_client, has_server, other),
        file_name_of(None, has_client, has_server, Seq::empty()) == Some("enshrouded_server"@)
            ==> has_server && !has_client,
        file_name_of(None, has_client, has_server, Seq::empty()) == Some("enshrouded"@)
            ==> has_client,
{
    reveal_strlit("enshrouded");
    reveal_strlit("enshrouded_server");
    assert("enshrouded"@.len() != "enshrouded_server"@.len());
}

/// Where neither the client nor the server is there, the first file counts whose name
/// ends in `kfc` or `exe` and can be read in front of that.
pub proof fn law_first_fitting_file_counts(listing: Seq<DirectoryEntry>, at: int)
    requires
        0 <= at < listing.len(),
        listing[at].stem is Some,
        listing[at].extension is Some,
        listing[at].extension->0@ == "kfc"@ || listing[at].extension->0@ == "exe"@,
        forall|i: int|
            0 <= i < at ==> (#[trigger] listing[i]).stem is None || listing[i].extension is None
                || (listing[i].extension->0@ != "kfc"@ && listing[i].extension->0@ != "exe"@),
    ensures
        file_name_of(None, false, false, listing) == Some(listing[at].stem->0@),
    decreases listing.len(),
{
    let shorter = listing.drop_last();
    if at < shorter.len() {
        assert forall|i: int| 0 <= i < at implies (#[trigger] shorter[i]).stem is None
            || shorter[i].extension is None || (shorter[i].extension->0@ != "kfc"@
            && shorter[i].extension->0@ != "exe"@) by {
            assert(shorter[i] == listing[i]);
        }
        law_first_fitting_file_counts(shorter, at);
    } else {
        lemma_first_candidate(shorter);
        assert forall|i: int| 0 <= i < shorter.len() implies !is_candidate(
            #[trigger] shorter[i],
        ) by {
            assert(shorter[i] == listing[i]);
        }
    }
}

/// Where nothing fits, no name is found.
pub proof fn law_nothing_fits_nothing_found(listing: Seq<DirectoryEntry>)
    requires
        forall|i: int|
            0 <= i < listing.len() ==> (#[trigger] listing[i]).stem is None
                || listing[i].extension is None || (listing[i].extension->0@ != "kfc"@
                && listing[i].extension->0@ != "exe"@),
    ensures
        file_name_of(None, false, false, listing) is None,
{
    lemma_first_candidate(listing);
}

/// A found entry is wanted if it is a plain file and its name ends in the extension.
pub proof fn law_wanted_files_have_the_extension(
    entry: FoundEntry,
    extension: Seq<char>,
)
    ensures
        !entry.is_file ==> !is_wanted(entry, extension),
        entry.extension is None ==> !is_wanted(entry, extension),
        entry.is_file && entry.extension is Some ==> (is_wanted(entry, extension)
            <==> entry.extension->0@ == extension),
{
}

/// The message about a directory names its part in the command and then the directory.
pub proof fn law_missing_directories_are_named(shown: Seq<char>)
    ensures
        missing_directory_text(Directory::Game, shown) == "Game directory does not exist: "@
            + shown,
        missing_directory_text(Directory::Input, shown) == "Input directory does not exist: "@
            + shown,
        missing_directory_text(Directory::Output, shown) == "Output directory does not exist: "@
            + shown,
{
}

/// The name of a file is the name, a dot and the extension, for any name and extension.
pub proof fn law_file_ends_in_its_extension(name: Seq<char>, extension: Seq<char>)
    ensures
        file_of(name, extension).len() == name.len() + 1 + extension.len(),
        file_of(name, extension).take(name.len() as int) == name,
        file_of(name, extension)[name.len() as int] == '.',
        file_of(name, extension).skip(name.len() as int + 1) == extension,
{
    reveal_strlit(".");
    assert("."@ =~= seq!['.']);
    assert(file_of(name, extension).take(name.len() as int) =~= name);
    assert(file_of(name, extension).skip(name.len() as int + 1) =~= extension);
}

/// A backup belongs to an archive of the same version, and to no other. One whose version
/// cannot be read belongs to none.
pub proof fn law_backup_belongs_to_its_version(
    version: Seq<char>,
    other: Seq<char>,
    archive: Seq<char>,
)
    ensures
        backup_belongs(Some(version), version),
        version != other ==> !backup_belongs(Some(version), other),
        !backup_belongs(None, archive),
{
}

/// A backup that is valid stays. A missing one is made, whatever else is said of it. One
/// that is not valid is replaced if it is a file, and is left alone if it is not.
pub proof fn law_what_is_done_about_backups(valid: bool, is_file: bool)
    ensures
        backup_plan_of(false, valid, is_file) == Some(BackupPlan::Create),
        backup_plan_of(true, true, is_file) == Some(BackupPlan::Keep),
        backup_plan_of(true, false, true) == Some(BackupPlan::Replace),
        backup_plan_of(true, false, false) is None,
{
}

/// A directory counts whether or not the standard stream is asked for too.
pub proof fn law_directory_comes_first(standard: bool)
    ensures
        stream_of(true, standard) == Some(Stream::Files),
        stream_of(false, true) == Some(Stream::Standard),
        stream_of(false, false) is None,
{
}

} // verus!
