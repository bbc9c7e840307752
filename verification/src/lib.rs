//! Archive extraction: format detection, extraction settings, request
//! checks, safety limits, and the decisions that drive the extraction loops.
//!
//! The extraction itself (reading archives and writing files) happens in the
//! program around this library, which asks the library for the checks,
//! plans and state changes that decide what it does.

use vstd::prelude::*;

pub mod config;
pub mod interface;
pub mod paths;
pub mod safe_ops;
pub mod security;
pub mod shell;
pub mod text;
pub mod utils;
pub mod zip_plan;

verus! {

/// The archive formats the extractor recognises.
#[derive(Debug, Clone, Copy, PartialEq, Eq, Structural)]
pub enum ArchiveType {
    Zip,
    SevenZ,
    Tar,
    TarGz,
    TarBz2,
    TarXz,
    Gz,
    Bz2,
    Xz,
    Rar,
    Unknown,
}

/// Configuration for extraction operations
#[derive(Debug, Clone)]
pub struct ExtractionConfig {
    /// Number of threads to use for parallel extraction
    pub thread_count: usize,
    /// Buffer size for I/O operations
    pub buffer_size: usize,
    /// Whether to show progress bars
    pub show_progress: bool,
    /// Whether to use memory-mapped I/O for large files
    pub use_mmap: bool,
    /// Password for encrypted archives
    pub password: Option<String>,
}

/// What the file system reports about an archive path, gathered before any
/// decision is taken about it.
#[derive(Debug, Clone, Copy, PartialEq, Eq, Structural)]
pub struct ArchiveFacts {
    /// Something exists at the path.
    pub exists: bool,
    /// What exists at the path is a directory.
    pub is_dir: bool,
    /// Its size in bytes, when its metadata could be read.
    pub size: Option<u64>,
}

/// The buffer size of a default configuration (64 KiB).
pub const DEFAULT_BUFFER_SIZE: usize = 65536;

/// Calls `num_cpus::get`, the number of logical CPUs available to this
/// process. Its documentation promises a result of at least 1, and that is
/// all this states: the count depends on the machine.
#[verifier::external_body]
fn available_cpus() -> (n: usize)
    ensures
        n >= 1,
{
    num_cpus::get()
}

impl Default for ExtractionConfig {
    /// One thread per available CPU, a 64 KiB buffer, progress shown,
    /// memory mapping allowed, no password.
    fn default() -> (r: Self)
        ensures
            r.thread_count >= 1,
            r.buffer_size == DEFAULT_BUFFER_SIZE,
            r.show_progress,
            r.use_mmap,
            r.password is None,
            crate::config::config_is_valid(r),
    {
        ExtractionConfig {
            thread_count: available_cpus(),
            buffer_size: DEFAULT_BUFFER_SIZE,
            show_progress: true,
            use_mmap: true,
            password: None,
        }
    }
}

/// Why an extraction request was refused before any extraction began.
#[derive(Debug)]
pub enum ExtractionError {
    /// The archive path is empty.
    EmptyArchivePath,
    /// The destination path is empty.
    EmptyExtractPath,
    /// Nothing exists at the archive path.
    NotFound(String),
    /// The archive path names a directory.
    IsDirectory(String),
    /// The archive's metadata could not be read; the file system's own
    /// error describes why.
    MetadataUnavailable,
    /// The archive file holds no bytes.
    EmptyFile(String),
    /// The archive's extension names no supported format.
    Unsupported(String),
}

/// The mathematical counterpart of `ExtractionError`, with text as
/// characters.
pub enum Refusal {
    EmptyArchivePath,
    EmptyExtractPath,
    NotFound(Seq<char>),
    IsDirectory(Seq<char>),
    MetadataUnavailable,
    EmptyFile(Seq<char>),
    Unsupported(Seq<char>),
}

impl View for ExtractionError {
    type V = Refusal;

    open spec fn view(&self) -> Refusal {
        match self {
            ExtractionError::EmptyArchivePath => Refusal::EmptyArchivePath,
            ExtractionError::EmptyExtractPath => Refusal::EmptyExtractPath,
            ExtractionError::NotFound(p) => Refusal::NotFound(p@),
            ExtractionError::IsDirectory(p) => Refusal::IsDirectory(p@),
            ExtractionError::MetadataUnavailable => Refusal::MetadataUnavailable,
            ExtractionError::EmptyFile(p) => Refusal::EmptyFile(p@),
            ExtractionError::Unsupported(p) => Refusal::Unsupported(p@),
        }
    }
}

/// The text that describes a refusal; none for unreadable metadata, which
/// the file system's own error describes.
pub open spec fn refusal_text(r: Refusal) -> Option<Seq<char>> {
    match r {
        Refusal::EmptyArchivePath => Some("Archive path cannot be empty"@),
        Refusal::EmptyExtractPath => Some("Extract path cannot be empty"@),
        Refusal::NotFound(p) => Some("Archive file '"@ + p + "' does not exist"@),
        Refusal::IsDirectory(p) => Some("'"@ + p + "' is a directory, not an archive file"@),
        Refusal::MetadataUnavailable => None,
        Refusal::EmptyFile(p) => Some("Archive file '"@ + p + "' is empty"@),
        Refusal::Unsupported(p) => Some("Unsupported archive format for file '"@ + p + "'"@),
    }
}

impl ExtractionError {
    /// The text that describes this error (see `refusal_text`); `None` when
    /// the archive's metadata could not be read, which the program reports
    /// with the file system's own error.
    pub fn message(&self) -> (r: Option<String>)
        ensures
            refusal_text(self@) is None ==> r is None,
            refusal_text(self@) is Some ==> (r is Some && r->0@ == refusal_text(self@)->0),
    {
        match self {
            ExtractionError::EmptyArchivePath => Some("Archive path cannot be empty".to_owned()),
            ExtractionError::EmptyExtractPath => Some("Extract path cannot be empty".to_owned()),
            ExtractionError::NotFound(p) => Some(quoted("Archive file '", p.as_str(), "' does not exist")),
            ExtractionError::IsDirectory(p) => Some(quoted("'", p.as_str(), "' is a directory, not an archive file")),
            ExtractionError::MetadataUnavailable => None,
            ExtractionError::EmptyFile(p) => Some(quoted("Archive file '", p.as_str(), "' is empty")),
            ExtractionError::Unsupported(p) => Some(quoted("Unsupported archive format for file '", p.as_str(), "'")),
        }
    }
}

/// `before`, then `middle`, then `after`.
fn quoted(before: &str, middle: &str, after: &str) -> (r: String)
    ensures
        r@ == before@ + middle@ + after@,
{
    let mut r = before.to_owned();
    r.append(middle);
    r.append(after);
    r
}

/// What to extract, once a request has been accepted.
#[derive(Debug)]
pub struct ExtractionPlan {
    /// The format of the archive.
    pub archive_type: ArchiveType,
    /// The settings to extract it with.
    pub config: ExtractionConfig,
}

/// The refusal of a request whose paths and file facts are as given, before
/// the archive type is looked at; `None` when those checks pass.
pub open spec fn request_refusal(archive_path: Seq<char>, extract_to: Seq<char>, facts: ArchiveFacts) -> Option<Refusal> {
    if archive_path.len() == 0 {
        Some(Refusal::EmptyArchivePath)
    } else if extract_to.len() == 0 {
        Some(Refusal::EmptyExtractPath)
    } else if !facts.exists {
        Some(Refusal::NotFound(archive_path))
    } else if facts.is_dir {
        Some(Refusal::IsDirectory(archive_path))
    } else if facts.size is None {
        Some(Refusal::MetadataUnavailable)
    } else if facts.size == Some(0u64) {
        Some(Refusal::EmptyFile(archive_path))
    } else {
        None
    }
}

/// Checks an extraction request and decides which extractor handles it.
///
/// The checks run in this order: empty archive path, empty destination,
/// missing file, directory, unreadable metadata, empty file, unsupported
/// format. An accepted request yields the archive's type and `config`
/// unchanged. The archive type is `get_archive_type` of the path: for a
/// portable path, the type of its file name (`portable_file_name`).
pub fn extract_archive_with_config(
    archive_path: &str,
    extract_to: &str,
    config: ExtractionConfig,
    facts: ArchiveFacts,
) -> (r: Result<ExtractionPlan, ExtractionError>)
    ensures
        request_refusal(archive_path@, extract_to@, facts) is Some
            ==> (r is Err && r->Err_0@ == request_refusal(archive_path@, extract_to@, facts)->0),
        request_refusal(archive_path@, extract_to@, facts) is None ==> match r {
            Ok(plan) => plan.archive_type != ArchiveType::Unknown && plan.config == config,
            Err(e) => e@ == Refusal::Unsupported(archive_path@),
        },
        request_refusal(archive_path@, extract_to@, facts) is None && paths::is_portable_path(archive_path@)
            ==> match r {
                Ok(plan) => plan.archive_type == utils::archive_type_of_name(paths::portable_file_name(archive_path@)),
                Err(_) => utils::archive_type_of_name(paths::portable_file_name(archive_path@)) == ArchiveType::Unknown,
            },
        request_refusal(archive_path@, extract_to@, facts) is None && paths::is_plain_name(archive_path@)
            ==> match r {
                Ok(plan) => plan.archive_type == utils::archive_type_of_name(Some(archive_path@)),
                Err(_) => utils::archive_type_of_name(Some(archive_path@)) == ArchiveType::Unknown,
            },
{
    if archive_path.is_empty() {
        return Err(ExtractionError::EmptyArchivePath);
    }
    if extract_to.is_empty() {
        return Err(ExtractionError::EmptyExtractPath);
    }
    if !facts.exists {
        return Err(ExtractionError::NotFound(archive_path.to_owned()));
    }
    if facts.is_dir {
        return Err(ExtractionError::IsDirectory(archive_path.to_owned()));
    }
    match facts.size {
        None => return Err(ExtractionError::MetadataUnavailable),
        Some(0) => return Err(ExtractionError::EmptyFile(archive_path.to_owned())),
        Some(_) => {},
    }
    let archive_type = utils::get_archive_type(archive_path);
    if archive_type == ArchiveType::Unknown {
        return Err(ExtractionError::Unsupported(archive_path.to_owned()));
    }
    Ok(ExtractionPlan { archive_type, config })
}

/// Simple extraction request: the default settings, with the given password
/// and progress reporting turned off, checked as `extract_archive_with_config`
/// checks them.
pub fn extract_archive(
    archive_path: &str,
    extract_to: &str,
    password: Option<&str>,
    facts: ArchiveFacts,
) -> (r: Result<ExtractionPlan, ExtractionError>)
    ensures
        request_refusal(archive_path@, extract_to@, facts) is Some
            ==> (r is Err && r->Err_0@ == request_refusal(archive_path@, extract_to@, facts)->0),
        request_refusal(archive_path@, extract_to@, facts) is None ==> match r {
            Ok(plan) => plan.archive_type != ArchiveType::Unknown,
            Err(e) => e@ == Refusal::Unsupported(archive_path@),
        },
        request_refusal(archive_path@, extract_to@, facts) is None && paths::is_portable_path(archive_path@)
            ==> match r {
                Ok(plan) => plan.archive_type == utils::archive_type_of_name(paths::portable_file_name(archive_path@)),
                Err(_) => utils::archive_type_of_name(paths::portable_file_name(archive_path@)) == ArchiveType::Unknown,
            },
        request_refusal(archive_path@, extract_to@, facts) is None && paths::is_plain_name(archive_path@)
            ==> match r {
                Ok(plan) => plan.archive_type == utils::archive_type_of_name(Some(archive_path@)),
                Err(_) => utils::archive_type_of_name(Some(archive_path@)) == ArchiveType::Unknown,
            },
        r matches Ok(plan) ==> {
            &&& plan.config.thread_count >= 1
            &&& plan.config.buffer_size == DEFAULT_BUFFER_SIZE
            &&& !plan.config.show_progress
            &&& plan.config.use_mmap
            &&& match password {
                Some(p) => plan.config.password matches Some(q) && q@ == p@,
                None => plan.config.password is None,
            }
        },
{
    let mut config = ExtractionConfig::default();
    config.password = match password {
        Some(p) => Some(p.to_owned()),
        None => None,
    };
    config.show_progress = false;
    extract_archive_with_config(archive_path, extract_to, config, facts)
}

} // verus!
