use ferris_unzip::interface::{finish_extraction, opening_status, status_tone, StatusTone};
use ferris_unzip::paths::{file_stem, suggested_extract_dir, SuggestionError};
use ferris_unzip::security::{
    check_entry_path, check_within_extraction_dir, risky_file_types, safe_decompress_with_limits, sanitize_path, DecompressStep,
    ReadEvent, SecurityError,
};
use ferris_unzip::shell::general_entry_failure;
use ferris_unzip::text::decimal_string;
use ferris_unzip::utils::get_archive_type;
use ferris_unzip::zip_plan::{padded_limit, padding_verdict, SizeMatch, ZipReadGuard, MAX_PADDING_TOLERANCE};
use ferris_unzip::ArchiveType;

#[test]
fn success_is_shown_as_success() {
    let done = finish_extraction(&Ok(()));
    assert_eq!(done.status_message, "\u{2713} Extraction successful!");
    assert_eq!(status_tone(&done.status_message), StatusTone::Success);
    assert!(done.progress_complete);
    assert_eq!(done.progress_message, "Completed!");
    assert!(done.error_dialog.is_none());
}

#[test]
fn failures_are_shown_as_failures() {
    let failed = finish_extraction(&Err("bad header".to_string()));
    assert_eq!(failed.status_message, "\u{2717} Extraction failed: bad header");
    assert_eq!(status_tone(&failed.status_message), StatusTone::Failure);
    assert!(!failed.progress_complete);
    assert_eq!(failed.progress_message, "Failed");
    assert!(failed.error_dialog.is_none());

    let critical = finish_extraction(&Err("CRITICAL: Extraction panicked - boom".to_string()));
    assert_eq!(
        critical.error_dialog.unwrap(),
        "FerrisUnzip - Extraction Error\n\nCRITICAL: Extraction panicked - boom\n\n\
         The extraction was safely terminated to protect your system.\n\
         Please check the archive file and try again."
    );
}

#[test]
fn entry_paths_with_directories_are_checked_component_by_component() {
    assert!(matches!(sanitize_path("../etc/passwd", "/tmp/out"), Err(SecurityError::ParentDirectory)));
    assert!(matches!(sanitize_path("x/../y", "/tmp/out"), Err(SecurityError::ParentDirectory)));
    assert!(matches!(sanitize_path("/etc/passwd", "/tmp/out"), Err(SecurityError::AbsolutePath)));
    assert!(matches!(sanitize_path(&"a/".repeat(101), "/tmp/out"), Err(SecurityError::PathTooDeep)));
    assert!(sanitize_path(&"a/".repeat(100), "/tmp/out").is_ok());
    match sanitize_path("docs/nul", "/tmp/out") {
        Err(SecurityError::ReservedName(n)) => assert_eq!(n, "nul"),
        other => panic!("unexpected {:?}", other),
    }
    assert!(sanitize_path("a:b.txt", "/tmp/out").is_err());
    assert!(sanitize_path("a..b/setup.exe", "/tmp/out").is_ok());
    assert!(sanitize_path("console.txt", "/tmp/out").is_ok());
}

#[test]
fn containment_of_paths_with_directories() {
    assert!(check_within_extraction_dir("/tmp/out/a/b", "/tmp/out").is_ok());
    assert!(matches!(
        check_within_extraction_dir("/tmp/outside/a", "/tmp/out"),
        Err(SecurityError::EscapesExtractionDir)
    ));
    assert!(check_within_extraction_dir("/tmp", "/tmp/out").is_err());
}

#[test]
fn file_names_of_paths_with_directories() {
    assert_eq!(get_archive_type("/home/u/backup.tar.gz"), ArchiveType::TarGz);
    assert_eq!(get_archive_type("dir/notes.txt"), ArchiveType::Unknown);
    assert_eq!(get_archive_type("dir/.."), ArchiveType::Unknown);
    assert_eq!(file_stem("/home/u/backup.tar.gz"), Some("backup.tar".to_string()));
    assert_eq!(file_stem("a/b.zip/."), Some("b".to_string()));
    assert_eq!(file_stem("/"), None);
}

#[test]
fn risky_file_types_are_listed() {
    assert_eq!(risky_file_types("bin/setup.EXE"), vec!["setup.EXE".to_string()]);
    assert_eq!(risky_file_types("run.sh/tool.js"), vec!["run.sh".to_string(), "tool.js".to_string()]);
    assert_eq!(risky_file_types("a.exe/../b.exe"), vec!["a.exe".to_string()]);
    assert!(risky_file_types("docs/readme.md").is_empty());
}

#[test]
fn refusals_are_worded() {
    assert_eq!(SecurityError::PasswordTooShort.message().unwrap(), "Password too short");
    assert_eq!(
        SecurityError::FileNameTooLong(300).message().unwrap(),
        "Filename too long: 300 characters (max: 255)"
    );
    assert_eq!(
        SecurityError::FileTooLarge(60 * 1024 * 1024 * 1024).message().unwrap(),
        "File too large: 60 GB (max: 50 GB)"
    );
    assert_eq!(
        SecurityError::OutputLimitExceeded(1001).message().unwrap(),
        "Decompressed size would exceed limit: 1001 bytes"
    );
    assert_eq!(
        SecurityError::ParentDirectory.message().unwrap(),
        "Directory traversal attempt detected (..)"
    );
    assert!(SecurityError::ArchiveTooLarge(1).message().is_none());
    assert_eq!(decimal_string(0), "0");
    assert_eq!(decimal_string(u64::MAX), u64::MAX.to_string());
}

#[test]
fn registry_failures_name_their_step() {
    assert_eq!(general_entry_failure(0, true, "ignored"), None);
    assert_eq!(
        general_entry_failure(2, false, "access denied"),
        Some("Failed to register shell integration (step 3): access denied".to_string())
    );
}

#[test]
fn padding_is_tolerated_up_to_two_mebibytes() {
    assert_eq!(padding_verdict(1000, 1000), SizeMatch::Exact);
    assert_eq!(padding_verdict(1000, 3048), SizeMatch::Padded(2048));
    assert_eq!(padding_verdict(5000, 1000), SizeMatch::Padded(4000));
    assert_eq!(padding_verdict(0, MAX_PADDING_TOLERANCE + 1), SizeMatch::TooFar(MAX_PADDING_TOLERANCE + 1));
    assert_eq!(padded_limit(10), 10 + MAX_PADDING_TOLERANCE + 1);
    assert_eq!(padded_limit(u64::MAX - 1), u64::MAX);
}

#[test]
fn a_decompression_run_within_the_limit_finishes_with_its_total() {
    let mut total = 0u64;
    let mut finished = None;
    for n in [400usize, 500, 100, 0] {
        match safe_decompress_with_limits(total, ReadEvent::Data(n), 1000) {
            DecompressStep::Write(t) => total = t,
            DecompressStep::Finished(t) => {
                finished = Some(t);
                break;
            }
            DecompressStep::Stop(e) => panic!("stopped: {:?}", e),
        }
    }
    assert_eq!(finished, Some(1000));
    assert!(matches!(
        safe_decompress_with_limits(1000, ReadEvent::Data(1), 1000),
        DecompressStep::Stop(SecurityError::OutputLimitExceeded(1001))
    ));
}

#[test]
fn a_zip_copy_never_writes_past_its_limit() {
    let mut guard = ZipReadGuard::new(100);
    let mut written = 0u64;
    for n in [60usize, 60, 60, 60] {
        guard.begin_read().unwrap();
        match guard.record_read(n) {
            Ok(true) => written += n as u64,
            Ok(false) => break,
            Err(_) => break,
        }
    }
    assert_eq!(written, 180);
    assert!(written <= guard.max_reasonable_size);
}

#[test]
fn accepted_entries_are_joined_to_the_destination() {
    assert_eq!(
        sanitize_path("a..b/setup.exe", "/nonexistent_ferris_out").unwrap(),
        "/nonexistent_ferris_out/a..b/setup.exe"
    );
    assert_eq!(
        sanitize_path("console.txt", "/nonexistent_ferris_out").unwrap(),
        "/nonexistent_ferris_out/console.txt"
    );
    assert_eq!(sanitize_path("docs/a.txt", "/out/").unwrap(), "/out/docs/a.txt");
    assert!(check_entry_path("docs/a.txt").is_ok());
}

#[test]
fn extraction_folders_are_suggested_next_to_the_archive() {
    assert_eq!(suggested_extract_dir("/home/u/backup.tar.gz").unwrap(), "/home/u/backup.tar");
    assert_eq!(suggested_extract_dir("data.zip").unwrap(), "data");
    assert_eq!(suggested_extract_dir("/a.rar").unwrap(), "/a");
    assert_eq!(suggested_extract_dir("/"), Err(SuggestionError::NoParent));
    assert_eq!(suggested_extract_dir(""), Err(SuggestionError::NoParent));
    assert_eq!(suggested_extract_dir("dir/.."), Err(SuggestionError::NoStem));
}

#[test]
fn opening_status_names_the_archive() {
    assert_eq!(
        opening_status("/home/u/backup.zip", true, true),
        "Archive loaded: backup.zip. Security validation passed!"
    );
    assert_eq!(
        opening_status("/home/u/notes.iso", true, false),
        "Archive loaded with warnings: notes.iso. Check security status!"
    );
    assert_eq!(opening_status("/home/u/gone.zip", false, false), "Error: Selected archive file does not exist");
}

#[test]
fn reading_past_the_tolerance_is_refused() {
    let limit = padded_limit(1000);
    assert_eq!(padding_verdict(1000, limit), SizeMatch::TooFar(MAX_PADDING_TOLERANCE + 1));
    assert_eq!(padding_verdict(1000, limit - 1), SizeMatch::Padded(MAX_PADDING_TOLERANCE));
}
