use ferris_unzip::security::{
    check_available_disk_space, check_destination, check_extraction_request, check_path_components,
    check_within_extraction_dir, safe_decompress_with_limits, sanitize_path, validate_archive_file,
    validate_extraction_size, validate_filename, validate_password, DecompressStep,
    ReadEvent, SecurityError, MAX_EXTRACTED_SIZE, MAX_INDIVIDUAL_FILE_SIZE,
};
use ferris_unzip::paths::PathPart;
use ferris_unzip::safe_ops::{safe_add_u64, safe_cast_usize_to_u64, ArithmeticError};
use ferris_unzip::ArchiveFacts;

fn present(size: u64) -> ArchiveFacts {
    ArchiveFacts { exists: true, is_dir: false, size: Some(size) }
}

#[test]
fn safe_add_reports_overflow() {
    assert_eq!(safe_add_u64(2, 3).unwrap(), 5);
    assert_eq!(safe_add_u64(u64::MAX, 1).unwrap_err(), ArithmeticError::Overflow);
    assert_eq!(safe_add_u64(u64::MAX - 1, 1).unwrap(), u64::MAX);
    assert_eq!(ArithmeticError::Overflow.message(), "Integer overflow in size calculation");
}

#[test]
fn safe_cast_keeps_value() {
    assert_eq!(safe_cast_usize_to_u64(12345).unwrap(), 12345u64);
}

#[test]
fn password_lengths() {
    assert!(matches!(validate_password(""), Err(SecurityError::PasswordTooShort)));
    assert!(validate_password("a").is_ok());
    assert!(validate_password(&"x".repeat(1024)).is_ok());
    assert!(matches!(validate_password(&"x".repeat(1025)), Err(SecurityError::PasswordTooLong)));
    // Lengths count bytes: 342 three-byte characters are 1026 bytes.
    assert!(matches!(validate_password(&"\u{20ac}".repeat(342)), Err(SecurityError::PasswordTooLong)));
}

#[test]
fn file_names_are_screened() {
    assert!(validate_filename("report.txt").is_ok());
    assert!(matches!(validate_filename("a\0b"), Err(SecurityError::NullByte)));
    assert!(matches!(validate_filename("a\u{7}b"), Err(SecurityError::ControlCharacter)));
    assert!(matches!(validate_filename("a\u{85}b"), Err(SecurityError::ControlCharacter)));
    match validate_filename("CON.txt") {
        Err(SecurityError::ReservedName(n)) => assert_eq!(n, "CON.txt"),
        other => panic!("unexpected {:?}", other),
    }
    assert!(matches!(validate_filename("lpt9"), Err(SecurityError::ReservedName(_))));
    assert!(validate_filename("console.txt").is_ok());
    match validate_filename("what?.txt") {
        Err(SecurityError::DangerousCharacter(n)) => assert_eq!(n, "what?.txt"),
        other => panic!("unexpected {:?}", other),
    }
    assert!(matches!(validate_filename("name."), Err(SecurityError::TrailingSpaceOrDot)));
    assert!(matches!(validate_filename("name "), Err(SecurityError::TrailingSpaceOrDot)));
}

#[test]
fn entry_paths_are_sanitized() {
    assert!(sanitize_path("docs/readme.md", "/tmp/out").is_ok());
    assert!(sanitize_path("./docs/readme.md", "/tmp/out").is_ok());
    assert!(matches!(sanitize_path("", "/tmp/out"), Err(SecurityError::EmptyFilePath)));
    assert!(matches!(sanitize_path(&"a".repeat(256), "/tmp/out"), Err(SecurityError::FileNameTooLong(256))));
    assert!(sanitize_path(&"a".repeat(255), "/tmp/out").is_ok());
    assert!(matches!(sanitize_path("../etc/passwd", "/tmp/out"), Err(SecurityError::ParentDirectory)));
    assert!(matches!(sanitize_path("a/../../b", "/tmp/out"), Err(SecurityError::ParentDirectory)));
    assert!(matches!(sanitize_path("/etc/passwd", "/tmp/out"), Err(SecurityError::AbsolutePath)));
    assert!(matches!(sanitize_path("dir/aux.h", "/tmp/out"), Err(SecurityError::ReservedName(_))));
    let deep = vec!["a"; 101].join("/");
    assert!(matches!(sanitize_path(&deep, "/tmp/out"), Err(SecurityError::PathTooDeep)));
    let deep_ok = vec!["a"; 100].join("/");
    assert!(sanitize_path(&deep_ok, "/tmp/out").is_ok());
}

#[test]
fn components_are_checked_in_order() {
    let parts = vec![PathPart::CurDir, PathPart::Normal("ok".to_string()), PathPart::ParentDir];
    assert!(matches!(check_path_components(&parts), Err(SecurityError::ParentDirectory)));
    let parts = vec![PathPart::Prefix("C:".to_string())];
    assert!(matches!(check_path_components(&parts), Err(SecurityError::DrivePrefix)));
    let parts = vec![PathPart::RootDir, PathPart::ParentDir];
    assert!(matches!(check_path_components(&parts), Err(SecurityError::AbsolutePath)));
    assert!(check_path_components(&vec![]).is_ok());
}

#[test]
fn containment_compares_whole_components() {
    assert!(check_within_extraction_dir("/tmp/out/sub", "/tmp/out").is_ok());
    assert!(check_within_extraction_dir("/tmp/out", "/tmp/out").is_ok());
    assert!(matches!(check_within_extraction_dir("/tmp/outside", "/tmp/out"), Err(SecurityError::EscapesExtractionDir)));
    assert!(matches!(check_within_extraction_dir("/tmp", "/tmp/out"), Err(SecurityError::EscapesExtractionDir)));
}

#[test]
fn extraction_sizes_are_limited() {
    assert!(validate_extraction_size(0, 1000, 100).is_ok());
    assert!(validate_extraction_size(0, 1000, 0).is_ok());
    assert!(matches!(
        validate_extraction_size(0, MAX_INDIVIDUAL_FILE_SIZE + 1, 1 << 40),
        Err(SecurityError::FileTooLarge(_))
    ));
    assert!(matches!(validate_extraction_size(u64::MAX, 1, 1), Err(SecurityError::SizeOverflow)));
    assert!(matches!(
        validate_extraction_size(MAX_EXTRACTED_SIZE, 1, 1),
        Err(SecurityError::TotalSizeExceeded(_, 1))
    ));
    assert!(validate_extraction_size(MAX_EXTRACTED_SIZE - 1, 1, 1).is_ok());
    // Exactly 1000:1 passes, 1001:1 does not.
    assert!(validate_extraction_size(0, 1000, 1).is_ok());
    assert!(matches!(
        validate_extraction_size(0, 1001, 1),
        Err(SecurityError::SuspiciousCompressionRatio(1001, 1))
    ));
    assert!(matches!(validate_extraction_size(0, 10, u64::MAX), Err(SecurityError::CompressedSizeTooLarge)));
}

#[test]
fn archives_are_validated() {
    assert!(validate_archive_file("backup.zip", present(10)).is_ok());
    assert!(validate_archive_file("BACKUP.TAR.GZ", present(10)).is_ok());
    assert!(matches!(
        validate_archive_file("backup.zip", ArchiveFacts { exists: false, is_dir: false, size: None }),
        Err(SecurityError::ArchiveNotFound)
    ));
    assert!(matches!(
        validate_archive_file("backup.zip", ArchiveFacts { exists: true, is_dir: false, size: None }),
        Err(SecurityError::ArchiveMetadataUnavailable)
    ));
    assert!(matches!(
        validate_archive_file("backup.zip", present(250 * 1024 * 1024 * 1024 + 1)),
        Err(SecurityError::ArchiveTooLarge(_))
    ));
    assert!(matches!(validate_archive_file("backup", present(10)), Err(SecurityError::MissingExtension)));
    match validate_archive_file("notes.txt", present(10)) {
        Err(SecurityError::UnsupportedArchiveType(e)) => assert_eq!(e, "txt"),
        other => panic!("unexpected {:?}", other),
    }
}

#[test]
fn requests_are_checked_before_extraction() {
    assert!(check_extraction_request("a.zip", present(5), false, false, None).is_ok());
    assert!(matches!(
        check_extraction_request("a.zip", present(5), true, false, None),
        Err(SecurityError::ExtractPathNotDirectory)
    ));
    assert!(matches!(
        check_extraction_request("a.zip", present(5), true, true, Some("")),
        Err(SecurityError::PasswordTooShort)
    ));
    assert!(check_extraction_request("a.7z", present(5), true, true, Some("secret")).is_ok());
}

#[test]
fn destinations_are_checked() {
    assert_eq!(check_destination(false, Some(false), 1000).unwrap(), 5000);
    assert_eq!(check_destination(false, None, 7).unwrap(), 35);
    assert!(matches!(check_destination(true, None, 1), Err(SecurityError::ExtractDirReadOnly)));
    assert!(matches!(check_destination(false, Some(true), 1), Err(SecurityError::DestinationNotWritable)));
    assert!(check_available_disk_space(None).is_ok());
    assert!(matches!(check_available_disk_space(Some(true)), Err(SecurityError::DestinationNotWritable)));
}

#[test]
fn decompression_never_passes_the_limit() {
    assert!(matches!(safe_decompress_with_limits(10, ReadEvent::Data(0), 100), DecompressStep::Finished(10)));
    assert!(matches!(safe_decompress_with_limits(10, ReadEvent::Data(90), 100), DecompressStep::Write(100)));
    assert!(matches!(
        safe_decompress_with_limits(10, ReadEvent::Data(91), 100),
        DecompressStep::Stop(SecurityError::OutputLimitExceeded(101))
    ));
    assert!(matches!(
        safe_decompress_with_limits(u64::MAX, ReadEvent::Data(1), u64::MAX),
        DecompressStep::Stop(SecurityError::SizeOverflow)
    ));
    assert!(matches!(safe_decompress_with_limits(0, ReadEvent::Failed, 100), DecompressStep::Stop(SecurityError::ReadFailed)));

    // A whole loop: reads of 40, 40, 20 and then the end stay within 100.
    let mut total = 0u64;
    let mut finished = None;
    for n in [40usize, 40, 20, 0] {
        match safe_decompress_with_limits(total, ReadEvent::Data(n), 100) {
            DecompressStep::Write(t) => total = t,
            DecompressStep::Finished(t) => finished = Some(t),
            DecompressStep::Stop(e) => panic!("stopped: {:?}", e),
        }
    }
    assert_eq!(finished, Some(100));
}
