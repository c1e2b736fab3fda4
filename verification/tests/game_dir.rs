use kfc_tools::error::Error;
use kfc_tools::game_dir::{
    files_with_extension, get_file, get_file_name, get_file_opt, plan_backup, repack_source,
    require_directory, revert_failure, unpack_target, validate_backup, BackupPlan, Directory,
    DirectoryEntry, FoundEntry, Stream,
};

fn error(text: &str) -> Error {
    Error(text.to_string())
}

fn entry(stem: Option<&str>, extension: Option<&str>) -> DirectoryEntry {
    DirectoryEntry {
        extension: extension.map(|text| text.to_string()),
        stem: stem.map(|text| text.to_string()),
    }
}

#[test]
fn directories_have_to_exist() {
    assert_eq!(require_directory(Directory::Game, true, "d"), Ok(()));
    assert_eq!(
        require_directory(Directory::Game, false, "d"),
        Err(error("Game directory does not exist: d"))
    );
    assert_eq!(
        require_directory(Directory::Input, false, "d"),
        Err(error("Input directory does not exist: d"))
    );
    assert_eq!(
        require_directory(Directory::Output, false, "d"),
        Err(error("Output directory does not exist: d"))
    );
}

#[test]
fn file_name_is_given_or_found() {
    let listing = vec![entry(Some("game"), Some("kfc"))];
    assert_eq!(get_file_name(Some("given"), true, true, &listing), Ok("given".to_string()));
    assert_eq!(get_file_name(None, true, true, &listing), Ok("enshrouded".to_string()));
    assert_eq!(get_file_name(None, false, true, &listing), Ok("enshrouded_server".to_string()));
    assert_eq!(get_file_name(None, false, false, &listing), Ok("game".to_string()));
}

#[test]
fn first_archive_or_program_counts() {
    let listing = vec![
        entry(Some("readme"), Some("txt")),
        entry(None, Some("kfc")),
        entry(Some("none"), None),
        entry(Some("upper"), Some("KFC")),
        entry(Some("a"), Some("exe")),
        entry(Some("b"), Some("kfc")),
    ];
    assert_eq!(get_file_name(None, false, false, &listing), Ok("a".to_string()));
    assert_eq!(
        get_file_name(None, false, false, &Vec::new()),
        Err(error(
            "Unable to find the kfc/exe file in game directory, please specify it with --file_name"
        ))
    );
}

#[test]
fn files_have_to_exist_unless_they_are_optional() {
    assert_eq!(get_file_opt("enshrouded", "kfc.bak"), "enshrouded.kfc.bak");
    assert_eq!(get_file("enshrouded", "kfc", true, "x"), Ok("enshrouded.kfc".to_string()));
    assert_eq!(
        get_file("enshrouded", "kfc", false, "dir/enshrouded.kfc"),
        Err(error("File not found: dir/enshrouded.kfc"))
    );
}

#[test]
fn files_are_picked_by_extension() {
    let found = |is_file: bool, extension: Option<&str>| FoundEntry {
        is_file,
        extension: extension.map(|text| text.to_string()),
    };
    let entries = vec![
        found(true, Some("json")),
        found(false, Some("json")),
        found(true, None),
        found(true, Some("bin")),
        found(true, Some("JSON")),
        found(true, Some("json")),
    ];
    assert_eq!(files_with_extension(&entries, "json"), vec![0, 5]);
    assert_eq!(files_with_extension(&entries, "bin"), vec![3]);
    assert!(files_with_extension(&entries, "txt").is_empty());
}

#[test]
fn backup_belongs_to_the_archive_with_the_same_version() {
    let tag = |text: &str| Some(text.to_string());
    assert_eq!(validate_backup(&tag("1"), &Ok("1".to_string()), "p"), Ok(true));
    assert_eq!(validate_backup(&tag("1"), &Ok("2".to_string()), "p"), Ok(false));
    assert_eq!(validate_backup(&None, &Ok("2".to_string()), "p"), Ok(false));
    assert_eq!(validate_backup(&None, &Err("e".to_string()), "p"), Ok(false));
    assert_eq!(
        validate_backup(&tag("1"), &Err("e".to_string()), "p"),
        Err(error("Failed to read p: e"))
    );
}

#[test]
fn backup_is_kept_made_or_replaced() {
    assert_eq!(plan_backup(true, true, true, "p"), Ok(BackupPlan::Keep));
    assert_eq!(plan_backup(true, true, false, "p"), Ok(BackupPlan::Keep));
    assert_eq!(plan_backup(false, false, false, "p"), Ok(BackupPlan::Create));
    assert_eq!(plan_backup(true, false, true, "p"), Ok(BackupPlan::Replace));
    assert_eq!(
        plan_backup(true, false, false, "p"),
        Err(error("Backup path is not a file, please remove it manually: p"))
    );
}

#[test]
fn failed_restore_says_what_to_do() {
    assert_eq!(
        revert_failure(true, "p").message(),
        "Please manually restore from backup file: p"
    );
    assert_eq!(
        revert_failure(false, "p").message(),
        "Backup file is missing, please verify integrity of the game files"
    );
}

#[test]
fn descriptors_go_to_a_directory_first() {
    assert_eq!(unpack_target(true, true), Ok(Stream::Files));
    assert_eq!(unpack_target(false, true), Ok(Stream::Standard));
    assert_eq!(unpack_target(false, false), Err(error("No output directory specified")));
    assert_eq!(repack_source(true, false), Ok(Stream::Files));
    assert_eq!(repack_source(false, true), Ok(Stream::Standard));
    assert_eq!(repack_source(false, false), Err(error("No input specified")));
}
