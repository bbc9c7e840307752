use ferris_unzip::utils;
use ferris_unzip::{extract_archive_with_config, ArchiveFacts, ArchiveType, ExtractionConfig};
use std::path::Path;

/// What the file system says about `path`.
fn facts_of(path: &str) -> ArchiveFacts {
    let p = Path::new(path);
    ArchiveFacts {
        exists: p.exists(),
        is_dir: p.is_dir(),
        size: p.metadata().ok().map(|m| m.len()),
    }
}

#[test]
fn test_archive_type_detection() {
    let test_cases = vec![
        ("test.zip", ArchiveType::Zip),
        ("test.7z", ArchiveType::SevenZ),
        ("test.tar", ArchiveType::Tar),
        ("test.tar.gz", ArchiveType::TarGz),
        ("test.tar.bz2", ArchiveType::TarBz2),
        ("test.tar.xz", ArchiveType::TarXz),
        ("test.gz", ArchiveType::Gz),
        ("test.bz2", ArchiveType::Bz2),
        ("test.xz", ArchiveType::Xz),
        ("test.rar", ArchiveType::Rar),
        ("test.unknown", ArchiveType::Unknown),
    ];

    for (filename, expected) in test_cases {
        let result = utils::get_archive_type(filename);
        assert_eq!(result, expected, "Failed for {}", filename);
    }
}

#[test]
fn test_extraction_config_defaults() {
    let config = ExtractionConfig::default();
    assert!(config.thread_count > 0);
    assert!(config.buffer_size >= 1024);
    assert!(config.show_progress);
    assert!(config.use_mmap);
    assert!(config.password.is_none());
}

#[test]
fn test_extraction_config_validation() {
    let mut config = ExtractionConfig::default();

    // Valid config should pass
    assert!(config.validate().is_ok());

    // Invalid thread count
    config.thread_count = 0;
    assert!(config.validate().is_err());

    // Invalid buffer size
    config.thread_count = 1;
    config.buffer_size = 512;
    assert!(config.validate().is_err());

    // Too large buffer size
    config.buffer_size = 20 * 1024 * 1024;
    assert!(config.validate().is_err());
}

#[test]
fn test_buffer_size_optimization() {
    let small_file = 1024; // 1KB
    let medium_file = 50 * 1024 * 1024; // 50MB
    let large_file = 200 * 1024 * 1024; // 200MB
    let default_buffer = 64 * 1024;

    assert_eq!(utils::get_optimal_buffer_size(small_file, default_buffer), default_buffer);
    assert!(utils::get_optimal_buffer_size(medium_file, default_buffer) > default_buffer);
    assert_eq!(utils::get_optimal_buffer_size(large_file, default_buffer), 1024 * 1024);
}

#[test]
fn test_empty_archive_path() {
    let config = ExtractionConfig::default();
    let result = extract_archive_with_config("", "/tmp/test", config, facts_of(""));
    assert!(result.is_err());
    assert!(result.unwrap_err().message().unwrap().contains("Archive path cannot be empty"));
}

#[test]
fn test_empty_extract_path() {
    let config = ExtractionConfig::default();
    let result = extract_archive_with_config("test.zip", "", config, facts_of("test.zip"));
    assert!(result.is_err());
    assert!(result.unwrap_err().message().unwrap().contains("Extract path cannot be empty"));
}

#[test]
fn test_nonexistent_file() {
    let config = ExtractionConfig::default();
    let result = extract_archive_with_config("nonexistent.zip", "/tmp/test", config, facts_of("nonexistent.zip"));
    assert!(result.is_err());
    assert!(result.unwrap_err().message().unwrap().contains("does not exist"));
}

#[test]
fn test_directory_as_archive() {
    // What the file system reports once the directory has been created.
    let temp_dir = "/tmp/test_dir_archive";
    let facts = ArchiveFacts { exists: true, is_dir: true, size: Some(4096) };

    let config = ExtractionConfig::default();
    let result = extract_archive_with_config(temp_dir, "/tmp/test", config, facts);
    assert!(result.is_err());
    assert!(result.unwrap_err().message().unwrap().contains("is a directory"));
}

#[test]
fn test_empty_file() {
    // What the file system reports once the empty file has been created.
    let empty_file = "/tmp/empty_test.zip";
    let facts = ArchiveFacts { exists: true, is_dir: false, size: Some(0) };

    let config = ExtractionConfig::default();
    let result = extract_archive_with_config(empty_file, "/tmp/test", config, facts);
    assert!(result.is_err());
    assert!(result.unwrap_err().message().unwrap().contains("is empty"));
}
