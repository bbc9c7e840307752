use ferris_unzip::config::MAX_THREADS;
use ferris_unzip::interface::{
    can_extract, failure_context, install_tone, is_critical_failure, launch_mode, needs_password_retry,
    opened_with_archive, show_crash_dialog, status_tone, LaunchMode, StatusTone,
};
use ferris_unzip::paths::{extension_of_name, file_stem, stem_of_name};
use ferris_unzip::shell::{
    context_menu_extensions, desktop_entry_content, desktop_entry_dir, desktop_entry_path, extension_entries,
    general_entries, open_command,
};
use ferris_unzip::text::{str_contains, str_ends_with, str_eq, str_eq_ignore_ascii_case, str_starts_with};
use ferris_unzip::utils::{archive_type_from_file_name, get_archive_type, get_optimal_buffer_size, should_use_mmap};
use ferris_unzip::zip_plan::{
    chunks_of, plan_parallel_extraction, use_sequential_extraction, zip_copy_buffer_size, ZipEntryInfo,
    ZipReadError, ZipReadGuard, ZipTally, ZipTallyError,
};
use ferris_unzip::{extract_archive, ArchiveFacts, ArchiveType, ExtractionConfig, ExtractionError};

fn args(list: &[&str]) -> Vec<String> {
    list.iter().map(|s| s.to_string()).collect()
}

fn entry(index: usize, name: &str, size: u64) -> ZipEntryInfo {
    ZipEntryInfo { index, name: name.to_string(), is_dir: name.ends_with('/'), compressed_size: size / 2, size }
}

#[test]
fn names_split_at_the_last_dot() {
    assert_eq!(extension_of_name("a.tar.gz"), Some("gz"));
    assert_eq!(stem_of_name("a.tar.gz"), "a.tar");
    assert_eq!(extension_of_name(".bashrc"), None);
    assert_eq!(stem_of_name(".bashrc"), ".bashrc");
    assert_eq!(extension_of_name("noext"), None);
    assert_eq!(extension_of_name("trailing."), Some(""));
    assert_eq!(extension_of_name(".."), None);
    assert_eq!(file_stem("dir/archive.tar.xz"), Some("archive.tar".to_string()));
    assert_eq!(file_stem(""), None);
}

#[test]
fn archive_types_ignore_case_and_directories() {
    assert_eq!(get_archive_type("BACKUP.ZIP"), ArchiveType::Zip);
    assert_eq!(get_archive_type("dir/sub/data.tar.Bz2"), ArchiveType::TarBz2);
    // The stem must end in ".tar" exactly.
    assert_eq!(get_archive_type("data.Tar.bz2"), ArchiveType::Bz2);
    assert_eq!(get_archive_type("data.TAR.gz"), ArchiveType::Gz);
    assert_eq!(get_archive_type(".gz"), ArchiveType::Unknown);
    assert_eq!(get_archive_type(""), ArchiveType::Unknown);
    assert_eq!(archive_type_from_file_name(None), ArchiveType::Unknown);
    assert_eq!(archive_type_from_file_name(Some("x.rar")), ArchiveType::Rar);
}

#[test]
fn buffer_sizes_and_mmap() {
    assert_eq!(get_optimal_buffer_size(20 * 1024 * 1024, 4096), 256 * 1024);
    assert_eq!(get_optimal_buffer_size(200 * 1024 * 1024, 4 * 1024 * 1024), 4 * 1024 * 1024);
    assert!(should_use_mmap(11 * 1024 * 1024, true));
    assert!(!should_use_mmap(11 * 1024 * 1024, false));
    assert!(!should_use_mmap(10 * 1024 * 1024, true));
}

#[test]
fn builders_set_one_field() {
    let c = ExtractionConfig::default()
        .with_threads(8)
        .with_buffer_size(256 * 1024)
        .without_progress()
        .without_mmap()
        .with_password(Some("pw".to_string()));
    assert_eq!(c.thread_count, 8);
    assert_eq!(c.buffer_size, 256 * 1024);
    assert!(!c.show_progress);
    assert!(!c.use_mmap);
    assert_eq!(c.password.as_deref(), Some("pw"));
    assert_eq!(c.validate(), Ok(()));
    assert_eq!(c.clone().with_threads(0).validate().unwrap_err(), "Thread count must be greater than 0");
    assert_eq!(c.clone().with_buffer_size(512).validate().unwrap_err(), "Buffer size must be at least 1KB");
    assert_eq!(c.clone().with_buffer_size(11 * 1024 * 1024).validate().unwrap_err(), "Buffer size should not exceed 10MB");
}

#[test]
fn thread_counts_are_clamped() {
    assert_eq!(ExtractionConfig::default().with_threads(0).effective_thread_count(), 1);
    assert_eq!(ExtractionConfig::default().with_threads(100).effective_thread_count(), MAX_THREADS);
    assert_eq!(ExtractionConfig::default().with_threads(7).effective_thread_count(), 7);
}

#[test]
fn simple_requests_use_quiet_defaults() {
    let facts = ArchiveFacts { exists: true, is_dir: false, size: Some(10) };
    let plan = extract_archive("a.7z", "/tmp/out", Some("pw"), facts).unwrap();
    assert_eq!(plan.archive_type, ArchiveType::SevenZ);
    assert!(!plan.config.show_progress);
    assert_eq!(plan.config.password.as_deref(), Some("pw"));
    let err = extract_archive("a.doc", "/tmp/out", None, facts).unwrap_err();
    assert!(matches!(err, ExtractionError::Unsupported(_)));
    assert_eq!(err.message().unwrap(), "Unsupported archive format for file 'a.doc'");
    let missing = ArchiveFacts { exists: true, is_dir: false, size: None };
    assert!(matches!(extract_archive("a.zip", "/o", None, missing), Err(ExtractionError::MetadataUnavailable)));
}

#[test]
fn text_helpers() {
    assert!(str_eq_ignore_ascii_case("ZiP", "zip"));
    assert!(!str_eq_ignore_ascii_case("zip", "zap"));
    assert!(str_eq("abc", "abc"));
    assert!(!str_eq("abc", "abd"));
    assert!(str_contains("hello world", "o w"));
    assert!(!str_contains("hi", "high"));
    assert!(str_contains("x", ""));
    assert!(str_starts_with("archive", "arch"));
    assert!(str_ends_with("archive.tar", ".tar"));
}

#[test]
fn launch_modes() {
    assert_eq!(launch_mode(&args(&["prog"])), LaunchMode::Gui);
    assert_eq!(launch_mode(&args(&["prog", "a.zip"])), LaunchMode::GuiWithFile);
    assert_eq!(launch_mode(&args(&["prog", "--cli"])), LaunchMode::Cli);
    assert_eq!(launch_mode(&args(&["prog", "a.zip", "-p"])), LaunchMode::Cli);
    assert!(show_crash_dialog(&args(&["prog", "a.zip"])));
    assert!(!show_crash_dialog(&args(&["prog", "--cli"])));
    assert!(!show_crash_dialog(&args(&["prog", "a", "b"])));
}

#[test]
fn messages_are_classified() {
    assert!(needs_password_retry("Password required"));
    assert!(needs_password_retry("wrong password"));
    assert!(!needs_password_retry("PASSWORD"));
    assert!(failure_context("integer overflow").starts_with("This archive may be corrupted"));
    assert!(failure_context("Partial extraction successful: 3/4").starts_with("Partial extraction completed"));
    assert!(failure_context("boom").starts_with("Extraction failed"));
    assert_eq!(status_tone("\u{2713} done"), StatusTone::Success);
    assert_eq!(status_tone("\u{2717} Extraction failed"), StatusTone::Failure);
    assert_eq!(status_tone("Extracting files"), StatusTone::InProgress);
    assert_eq!(status_tone("Select an archive"), StatusTone::Neutral);
    assert_eq!(install_tone("\u{2713} ok"), StatusTone::Success);
    assert_eq!(install_tone("oops"), StatusTone::Failure);
    assert!(is_critical_failure("CRITICAL: Extraction panicked"));
    assert!(!is_critical_failure("bad crc"));
    assert!(can_extract("a.zip", "/out", false));
    assert!(!can_extract("a.zip", "", false));
    assert!(!can_extract("a.zip", "/out", true));
    assert!(opened_with_archive("a.zip", "Archive loaded: a.zip"));
    assert!(!opened_with_archive("", "Archive loaded: a.zip"));
}

#[test]
fn shell_entries() {
    let exts = context_menu_extensions();
    assert_eq!(exts.len(), 10);
    assert_eq!(exts[7], ".tar.gz");
    assert_eq!(open_command("C:\\ferris.exe"), "\"C:\\ferris.exe\" \"%1\"");
    let (menu, command) = extension_entries(".zip", "C:\\f.exe");
    assert_eq!(menu.key, "HKEY_CURRENT_USER\\Software\\Classes\\.zip\\shell\\FerrisUnzip");
    assert_eq!(menu.data, "Extract with FerrisUnzip");
    assert_eq!(command.key, "HKEY_CURRENT_USER\\Software\\Classes\\.zip\\shell\\FerrisUnzip\\command");
    let general = general_entries("C:\\f.exe");
    assert_eq!(general.len(), 4);
    assert_eq!(general[3].data, "\"C:\\f.exe\"");
    let entry = desktop_entry_content("/usr/bin/ferris");
    assert!(entry.starts_with("[Desktop Entry]\nType=Application\n"));
    assert!(entry.contains("Exec=/usr/bin/ferris %f\n"));
    assert_eq!(desktop_entry_dir("/home/u"), "/home/u/.local/share/applications");
    assert_eq!(desktop_entry_path("/d"), "/d/ferrisunzip.desktop");
}

#[test]
fn parallel_plan_orders_and_chunks() {
    let entries = vec![
        entry(0, "docs/", 0),
        entry(1, "docs/a.txt", 10),
        entry(2, "big.bin", 500),
        entry(3, "docs/b.txt", 10),
        entry(4, "mid.bin", 50),
    ];
    let config = ExtractionConfig::default().with_threads(2);
    let plan = plan_parallel_extraction(&entries, &config);
    assert_eq!(plan.thread_count, 2);
    assert_eq!(plan.order, vec![2, 4, 1, 3, 0]);
    assert_eq!(plan.directories, vec![0]);
    assert_eq!(plan.files, vec![2, 4, 1, 3]);
    assert_eq!(plan.chunk_size, 2);
    assert_eq!(plan.chunks, vec![vec![2, 4], vec![1, 3]]);
    let many = ExtractionConfig::default().with_threads(64);
    assert_eq!(plan_parallel_extraction(&entries, &many).thread_count, 8);
    assert_eq!(chunks_of(&vec![1, 2, 3, 4, 5], 2), vec![vec![1, 2], vec![3, 4], vec![5]]);
    assert!(use_sequential_extraction(5, &config));
    assert!(!use_sequential_extraction(6, &config));
    assert!(use_sequential_extraction(100, &config.clone().with_threads(1)));
}

#[test]
fn reading_one_entry_is_bounded() {
    assert_eq!(zip_copy_buffer_size(100, 1024), 4096);
    assert_eq!(zip_copy_buffer_size(200 * 1024 * 1024, 64 * 1024), 256 * 1024);
    let mut guard = ZipReadGuard::new(100);
    assert_eq!(guard.max_reasonable_size, 200);
    assert_eq!(ZipReadGuard::new(0).max_reasonable_size, 10 * 1024 * 1024);
    assert_eq!(ZipReadGuard::new(u64::MAX).max_reasonable_size, u64::MAX);
    assert_eq!(guard.begin_read(), Ok(()));
    assert_eq!(guard.record_read(150), Ok(true));
    assert_eq!(guard.record_read(51), Err(ZipReadError::TooLarge(201, 200)));
    let mut guard = ZipReadGuard::new(10);
    assert_eq!(guard.record_read(0), Ok(false));
    guard.iterations = 100_000;
    assert_eq!(guard.begin_read(), Err(ZipReadError::TooManyReads));
}

#[test]
fn tallies_decide_the_outcome() {
    assert_eq!(ZipTally::start(1_000_001), Err(ZipTallyError::TooManyFiles(1_000_001, 1_000_000)));
    let mut tally = ZipTally::start(3).unwrap();
    tally.record_failure();
    tally.record_success(10);
    tally.record_failure();
    assert_eq!(tally.successes, 1);
    assert_eq!(tally.total_extracted, 10);
    assert_eq!(tally.finish(), Ok(()));
    let mut all_failed = ZipTally::start(1).unwrap();
    all_failed.record_failure();
    assert_eq!(all_failed.finish(), Err(ZipTallyError::NoFilesExtracted));
    assert_eq!(ZipTally::start(0).unwrap().finish(), Ok(()));
}
