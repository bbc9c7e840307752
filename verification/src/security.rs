//! Safety limits for extraction: archive and password checks, entry-name
//! sanitising, size and compression-ratio limits, and the limit on how much
//! a decompression loop may write.

use vstd::prelude::*;
use crate::paths::{
    components_of, extension_of_name, file_name_of, is_plain_name, is_portable_path, lemma_dot_dot_is_parent,
    lemma_empty_path_components, segment_at, join_path, is_join_of, lemma_join_extends,
    lemma_plain_name_components, name_extension, parts_view, portable_components, portable_file_name, PartView,
    PathPart,
};
use crate::{ArchiveFacts, ArchiveType};
use crate::utils::{archive_type_for_extension, letters_ignoring_case};
use crate::safe_ops::safe_add_u64;
use crate::text::{ascii_fold, chars_of, contains_char, has_prefix, decimal, decimal_string, eq_ignore_ascii_case, str_eq, str_eq_ignore_ascii_case};

verus! {

broadcast use vstd::string::group_string_axioms;

/// Largest total size all entries of one archive may extract to (200 GiB).
pub const MAX_EXTRACTED_SIZE: u64 = 214748364800;

/// Most entries one archive may hold.
pub const MAX_FILES: usize = 1000000;

/// Largest size a single entry may extract to (50 GiB).
pub const MAX_INDIVIDUAL_FILE_SIZE: u64 = 53687091200;

/// Largest accepted ratio of extracted to compressed size.
pub const MAX_COMPRESSION_RATIO: u64 = 1000;

/// Longest entry name accepted, in bytes.
pub const MAX_FILENAME_LENGTH: usize = 255;

/// Most components an entry name may have.
pub const MAX_PATH_DEPTH: usize = 100;

/// Shortest accepted password, in bytes.
pub const MIN_PASSWORD_LENGTH: usize = 1;

/// Longest accepted password, in bytes.
pub const MAX_PASSWORD_LENGTH: usize = 1024;

/// Largest archive file accepted (250 GiB).
pub const MAX_ARCHIVE_SIZE: u64 = 268435456000;

/// Largest compressed size for which the ratio check is carried out.
pub const MAX_RATIO_CHECKED_COMPRESSED_SIZE: u64 = 18446744073709551;

/// Largest entry size accepted once the ratio check has passed.
pub const MAX_SAFE_FILE_SIZE: u64 = 9223372036854775807;

/// Why an archive, a password, an entry name or a size was refused.
#[derive(Debug, Clone)]
pub enum SecurityError {
    ArchiveNotFound,
    ArchiveMetadataUnavailable,
    ArchiveTooLarge(u64),
    MissingExtension,
    UnsupportedArchiveType(String),
    PasswordTooShort,
    PasswordTooLong,
    EmptyFilePath,
    FileNameTooLong(usize),
    PathTooDeep,
    ParentDirectory,
    AbsolutePath,
    DrivePrefix,
    NullByte,
    ControlCharacter,
    ReservedName(String),
    DangerousCharacter(String),
    TrailingSpaceOrDot,
    EscapesExtractionDir,
    FileTooLarge(u64),
    SizeOverflow,
    TotalSizeExceeded(u64, u64),
    CompressedSizeTooLarge,
    SuspiciousCompressionRatio(u64, u64),
    FileSizeTooLarge,
    DestinationNotWritable,
    OutputLimitExceeded(u64),
    ReadFailed,
    ExtractPathNotDirectory,
    ExtractDirReadOnly,
}

/// The mathematical counterpart of `SecurityError`, with text as characters.
pub enum SecurityFault {
    ArchiveNotFound,
    ArchiveMetadataUnavailable,
    ArchiveTooLarge(u64),
    MissingExtension,
    UnsupportedArchiveType(Seq<char>),
    PasswordTooShort,
    PasswordTooLong,
    EmptyFilePath,
    FileNameTooLong(usize),
    PathTooDeep,
    ParentDirectory,
    AbsolutePath,
    DrivePrefix,
    NullByte,
    ControlCharacter,
    ReservedName(Seq<char>),
    DangerousCharacter(Seq<char>),
    TrailingSpaceOrDot,
    EscapesExtractionDir,
    FileTooLarge(u64),
    SizeOverflow,
    TotalSizeExceeded(u64, u64),
    CompressedSizeTooLarge,
    SuspiciousCompressionRatio(u64, u64),
    FileSizeTooLarge,
    DestinationNotWritable,
    OutputLimitExceeded(u64),
    ReadFailed,
    ExtractPathNotDirectory,
    ExtractDirReadOnly,
}

impl View for SecurityError {
    type V = SecurityFault;

    open spec fn view(&self) -> SecurityFault {
        match self {
            SecurityError::ArchiveNotFound => SecurityFault::ArchiveNotFound,
            SecurityError::ArchiveMetadataUnavailable => SecurityFault::ArchiveMetadataUnavailable,
            SecurityError::ArchiveTooLarge(n) => SecurityFault::ArchiveTooLarge(*n),
            SecurityError::MissingExtension => SecurityFault::MissingExtension,
            SecurityError::UnsupportedArchiveType(e) => SecurityFault::UnsupportedArchiveType(e@),
            SecurityError::PasswordTooShort => SecurityFault::PasswordTooShort,
            SecurityError::PasswordTooLong => SecurityFault::PasswordTooLong,
            SecurityError::EmptyFilePath => SecurityFault::EmptyFilePath,
            SecurityError::FileNameTooLong(n) => SecurityFault::FileNameTooLong(*n),
            SecurityError::PathTooDeep => SecurityFault::PathTooDeep,
            SecurityError::ParentDirectory => SecurityFault::ParentDirectory,
            SecurityError::AbsolutePath => SecurityFault::AbsolutePath,
            SecurityError::DrivePrefix => SecurityFault::DrivePrefix,
            SecurityError::NullByte => SecurityFault::NullByte,
            SecurityError::ControlCharacter => SecurityFault::ControlCharacter,
            SecurityError::ReservedName(n) => SecurityFault::ReservedName(n@),
            SecurityError::DangerousCharacter(n) => SecurityFault::DangerousCharacter(n@),
            SecurityError::TrailingSpaceOrDot => SecurityFault::TrailingSpaceOrDot,
            SecurityError::EscapesExtractionDir => SecurityFault::EscapesExtractionDir,
            SecurityError::FileTooLarge(n) => SecurityFault::FileTooLarge(*n),
            SecurityError::SizeOverflow => SecurityFault::SizeOverflow,
            SecurityError::TotalSizeExceeded(a, b) => SecurityFault::TotalSizeExceeded(*a, *b),
            SecurityError::CompressedSizeTooLarge => SecurityFault::CompressedSizeTooLarge,
            SecurityError::SuspiciousCompressionRatio(a, b) => SecurityFault::SuspiciousCompressionRatio(*a, *b),
            SecurityError::FileSizeTooLarge => SecurityFault::FileSizeTooLarge,
            SecurityError::DestinationNotWritable => SecurityFault::DestinationNotWritable,
            SecurityError::OutputLimitExceeded(n) => SecurityFault::OutputLimitExceeded(*n),
            SecurityError::ReadFailed => SecurityFault::ReadFailed,
            SecurityError::ExtractPathNotDirectory => SecurityFault::ExtractPathNotDirectory,
            SecurityError::ExtractDirReadOnly => SecurityFault::ExtractDirReadOnly,
        }
    }
}

/// The text that describes a fault, for the faults whose text holds no
/// fractional figures. `None` for an archive that is too large, a total
/// that would exceed the limit and a suspicious compression ratio, whose
/// texts give sizes in GB and ratios with decimals that the program
/// formats; and for unreadable archive metadata, which the file system's
/// own error describes.
pub open spec fn fault_text(f: SecurityFault) -> Option<Seq<char>> {
    match f {
        SecurityFault::ArchiveNotFound => Some("Archive file does not exist"@),
        SecurityFault::ArchiveMetadataUnavailable => None,
        SecurityFault::ArchiveTooLarge(_) => None,
        SecurityFault::MissingExtension => Some("Archive has no file extension"@),
        SecurityFault::UnsupportedArchiveType(e) => Some("Unsupported archive type: "@ + e),
        SecurityFault::PasswordTooShort => Some("Password too short"@),
        SecurityFault::PasswordTooLong => Some("Password too long"@),
        SecurityFault::EmptyFilePath => Some("Empty file path"@),
        SecurityFault::FileNameTooLong(len) => Some(
            "Filename too long: "@ + decimal(len as nat) + " characters (max: 255)"@,
        ),
        SecurityFault::PathTooDeep => Some("Path depth exceeds maximum allowed"@),
        SecurityFault::ParentDirectory => Some("Directory traversal attempt detected (..)"@),
        SecurityFault::AbsolutePath => Some("Absolute path not allowed"@),
        SecurityFault::DrivePrefix => Some("Drive prefix not allowed"@),
        SecurityFault::NullByte => Some("Null byte in filename"@),
        SecurityFault::ControlCharacter => Some("Control character in filename"@),
        SecurityFault::ReservedName(n) => Some("Reserved filename not allowed: "@ + n),
        SecurityFault::DangerousCharacter(n) => Some("Dangerous character in filename: "@ + n),
        SecurityFault::TrailingSpaceOrDot => Some("Filename ends with space or dot"@),
        SecurityFault::EscapesExtractionDir => Some("Path escapes extraction directory"@),
        SecurityFault::FileTooLarge(size) => Some(
            "File too large: "@ + decimal((size / GIB) as nat) + " GB (max: 50 GB)"@,
        ),
        SecurityFault::SizeOverflow => Some("Integer overflow in size calculation"@),
        SecurityFault::TotalSizeExceeded(_, _) => None,
        SecurityFault::CompressedSizeTooLarge => Some("Compressed size too large for safe processing"@),
        SecurityFault::SuspiciousCompressionRatio(_, _) => None,
        SecurityFault::FileSizeTooLarge => Some("File size too large for safe processing"@),
        SecurityFault::DestinationNotWritable => Some(
            "Cannot write to destination (insufficient permissions or space)"@,
        ),
        SecurityFault::OutputLimitExceeded(total) => Some(
            "Decompressed size would exceed limit: "@ + decimal(total as nat) + " bytes"@,
        ),
        SecurityFault::ReadFailed => Some("Decompression error"@),
        SecurityFault::ExtractPathNotDirectory => Some("Extraction path exists but is not a directory"@),
        SecurityFault::ExtractDirReadOnly => Some("Cannot write to extraction directory"@),
    }
}

/// One gibibyte.
pub const GIB: u64 = 1073741824;

/// `a`, then `b`, then `c`.
fn join3(a: &str, b: &str, c: &str) -> (r: String)
    ensures
        r@ == a@ + b@ + c@,
{
    let mut r = a.to_owned();
    r.append(b);
    r.append(c);
    r
}

impl SecurityError {
    /// The text that describes this refusal (see `fault_text`); `None` for
    /// the refusals whose text the program supplies.
    pub fn message(&self) -> (r: Option<String>)
        ensures
            fault_text(self@) is None ==> r is None,
            fault_text(self@) is Some ==> (r is Some && r->0@ == fault_text(self@)->0),
    {
        let text = match self {
            SecurityError::ArchiveNotFound => "Archive file does not exist".to_owned(),
            SecurityError::ArchiveMetadataUnavailable => return None,
            SecurityError::ArchiveTooLarge(_) => return None,
            SecurityError::MissingExtension => "Archive has no file extension".to_owned(),
            SecurityError::UnsupportedArchiveType(e) => join3("Unsupported archive type: ", e.as_str(), ""),
            SecurityError::PasswordTooShort => "Password too short".to_owned(),
            SecurityError::PasswordTooLong => "Password too long".to_owned(),
            SecurityError::EmptyFilePath => "Empty file path".to_owned(),
            SecurityError::FileNameTooLong(len) => {
                let d = decimal_string(*len as u64);
                join3("Filename too long: ", d.as_str(), " characters (max: 255)")
            },
            SecurityError::PathTooDeep => "Path depth exceeds maximum allowed".to_owned(),
            SecurityError::ParentDirectory => "Directory traversal attempt detected (..)".to_owned(),
            SecurityError::AbsolutePath => "Absolute path not allowed".to_owned(),
            SecurityError::DrivePrefix => "Drive prefix not allowed".to_owned(),
            SecurityError::NullByte => "Null byte in filename".to_owned(),
            SecurityError::ControlCharacter => "Control character in filename".to_owned(),
            SecurityError::ReservedName(n) => join3("Reserved filename not allowed: ", n.as_str(), ""),
            SecurityError::DangerousCharacter(n) => join3("Dangerous character in filename: ", n.as_str(), ""),
            SecurityError::TrailingSpaceOrDot => "Filename ends with space or dot".to_owned(),
            SecurityError::EscapesExtractionDir => "Path escapes extraction directory".to_owned(),
            SecurityError::FileTooLarge(size) => {
                let d = decimal_string(*size / GIB);
                join3("File too large: ", d.as_str(), " GB (max: 50 GB)")
            },
            SecurityError::SizeOverflow => "Integer overflow in size calculation".to_owned(),
            SecurityError::TotalSizeExceeded(_, _) => return None,
            SecurityError::CompressedSizeTooLarge => "Compressed size too large for safe processing".to_owned(),
            SecurityError::SuspiciousCompressionRatio(_, _) => return None,
            SecurityError::FileSizeTooLarge => "File size too large for safe processing".to_owned(),
            SecurityError::DestinationNotWritable => {
                "Cannot write to destination (insufficient permissions or space)".to_owned()
            },
            SecurityError::OutputLimitExceeded(total) => {
                let d = decimal_string(*total);
                join3("Decompressed size would exceed limit: ", d.as_str(), " bytes")
            },
            SecurityError::ReadFailed => "Decompression error".to_owned(),
            SecurityError::ExtractPathNotDirectory => "Extraction path exists but is not a directory".to_owned(),
            SecurityError::ExtractDirReadOnly => "Cannot write to extraction directory".to_owned(),
        };
        proof {
            reveal_strlit("");
            assert(fault_text(self@) is Some);
            let t = fault_text(self@)->0;
            assert(text@ =~= t);
        }
        Some(text)
    }
}

/// The fault a check reports, if any.
pub open spec fn outcome(r: Result<(), SecurityError>) -> Option<SecurityFault> {
    match r {
        Ok(()) => None,
        Err(e) => Some(e@),
    }
}

// ---------------------------------------------------------------------------
// Passwords
// ---------------------------------------------------------------------------

/// The fault of a password of `len` bytes, if any.
pub open spec fn password_fault(len: nat) -> Option<SecurityFault> {
    if len < MIN_PASSWORD_LENGTH {
        Some(SecurityFault::PasswordTooShort)
    } else if len > MAX_PASSWORD_LENGTH {
        Some(SecurityFault::PasswordTooLong)
    } else {
        None
    }
}

/// Accepts passwords of 1 to 1024 bytes.
pub fn validate_password(password: &str) -> (r: Result<(), SecurityError>)
    ensures
        outcome(r) == password_fault(password.len() as nat),
{
    if password.len() < MIN_PASSWORD_LENGTH {
        return Err(SecurityError::PasswordTooShort);
    }
    if password.len() > MAX_PASSWORD_LENGTH {
        return Err(SecurityError::PasswordTooLong);
    }
    Ok(())
}

// ---------------------------------------------------------------------------
// Entry names
// ---------------------------------------------------------------------------

/// `c` is a control character: general category Cc, which Unicode fixes as
/// U+0000..=U+001F and U+007F..=U+009F.
pub open spec fn is_control_char(c: char) -> bool {
    (c as u32) <= 0x1f || (0x7f <= (c as u32) && (c as u32) <= 0x9f)
}

/// `c` is one of the characters Windows forbids in file names.
pub open spec fn is_dangerous_char(c: char) -> bool {
    c == '<' || c == '>' || c == ':' || c == '"' || c == '|' || c == '?' || c == '*'
}

/// The part of `n` before its first dot (all of `n` when it has none).
pub open spec fn before_first_dot(n: Seq<char>) -> Seq<char>
    decreases n.len(),
{
    if n.len() == 0 {
        n
    } else if n[0] == '.' {
        Seq::empty()
    } else {
        seq![n[0]] + before_first_dot(n.drop_first())
    }
}

/// `b` is a device name that Windows reserves, compared without regard to
/// ASCII case. (Unicode lower-casing maps onto an ASCII letter only ASCII
/// letters and the Kelvin sign, and none of these names holds a `k`.)
pub open spec fn is_reserved_word(b: Seq<char>) -> bool {
    ||| eq_ignore_ascii_case(b, "con"@)
    ||| eq_ignore_ascii_case(b, "prn"@)
    ||| eq_ignore_ascii_case(b, "aux"@)
    ||| eq_ignore_ascii_case(b, "nul"@)
    ||| eq_ignore_ascii_case(b, "com1"@)
    ||| eq_ignore_ascii_case(b, "com2"@)
    ||| eq_ignore_ascii_case(b, "com3"@)
    ||| eq_ignore_ascii_case(b, "com4"@)
    ||| eq_ignore_ascii_case(b, "com5"@)
    ||| eq_ignore_ascii_case(b, "com6"@)
    ||| eq_ignore_ascii_case(b, "com7"@)
    ||| eq_ignore_ascii_case(b, "com8"@)
    ||| eq_ignore_ascii_case(b, "com9"@)
    ||| eq_ignore_ascii_case(b, "lpt1"@)
    ||| eq_ignore_ascii_case(b, "lpt2"@)
    ||| eq_ignore_ascii_case(b, "lpt3"@)
    ||| eq_ignore_ascii_case(b, "lpt4"@)
    ||| eq_ignore_ascii_case(b, "lpt5"@)
    ||| eq_ignore_ascii_case(b, "lpt6"@)
    ||| eq_ignore_ascii_case(b, "lpt7"@)
    ||| eq_ignore_ascii_case(b, "lpt8"@)
    ||| eq_ignore_ascii_case(b, "lpt9"@)
}

/// The first fault of a single entry-name component, checked in this order:
/// null byte, control character, reserved device name, forbidden character,
/// trailing space or dot.
pub open spec fn filename_fault(n: Seq<char>) -> Option<SecurityFault> {
    if contains_char(n, '\0') {
        Some(SecurityFault::NullByte)
    } else if exists|i: int| 0 <= i < n.len() && is_control_char(#[trigger] n[i]) {
        Some(SecurityFault::ControlCharacter)
    } else if is_reserved_word(before_first_dot(n)) {
        Some(SecurityFault::ReservedName(n))
    } else if exists|i: int| 0 <= i < n.len() && is_dangerous_char(#[trigger] n[i]) {
        Some(SecurityFault::DangerousCharacter(n))
    } else if n.len() > 0 && (n.last() == ' ' || n.last() == '.') {
        Some(SecurityFault::TrailingSpaceOrDot)
    } else {
        None
    }
}

/// `before_first_dot` is the text up to the first dot.
proof fn lemma_before_first_dot(n: Seq<char>, k: int)
    requires
        0 <= k <= n.len(),
        k < n.len() ==> n[k] == '.',
        forall|j: int| 0 <= j < k ==> n[j] != '.',
    ensures
        before_first_dot(n) == n.subrange(0, k),
    decreases n.len(),
{
    if n.len() > 0 && n[0] != '.' {
        let m = n.drop_first();
        assert forall|j: int| 0 <= j < k - 1 implies m[j] != '.' by {
            assert(m[j] == n[j + 1]);
        }
        if k - 1 < m.len() {
            assert(m[k - 1] == n[k]);
        }
        lemma_before_first_dot(m, k - 1);
        assert(seq![n[0]] + m.subrange(0, k - 1) =~= n.subrange(0, k));
    } else if n.len() > 0 {
        assert(k == 0);
        assert(n.subrange(0, 0) =~= Seq::<char>::empty());
    } else {
        assert(n.subrange(0, k) =~= n);
    }
}

/// `n` holds no null byte, no control character (U+0000..=U+001F,
/// U+007F..=U+009F) and none of the characters `< > : " | ? *`.
pub open spec fn has_only_allowed_chars(n: Seq<char>) -> bool {
    forall|i: int| 0 <= i < n.len() ==> {
        let c = #[trigger] n[i];
        &&& c != '\0'
        &&& (c as u32) > 0x1f
        &&& !(0x7f <= (c as u32) && (c as u32) <= 0x9f)
        &&& c != '<' && c != '>' && c != ':' && c != '"' && c != '|' && c != '?' && c != '*'
    }
}

/// An entry-name component is accepted exactly when it holds only allowed
/// characters, is no reserved device name before its first dot, and does
/// not end in a space or a dot. Nothing else is asked of it: a leading dot,
/// as in `.gitignore`, and dots inside a name are fine.
pub proof fn lemma_filename_accepted_iff(n: Seq<char>)
    ensures
        filename_fault(n) is None <==> {
            &&& has_only_allowed_chars(n)
            &&& !is_reserved_word(before_first_dot(n))
            &&& !(n.len() > 0 && (n[n.len() - 1] == ' ' || n[n.len() - 1] == '.'))
        },
        filename_fault(n) == Some(SecurityFault::TrailingSpaceOrDot)
            ==> n.len() > 0 && (n[n.len() - 1] == ' ' || n[n.len() - 1] == '.'),
{
    if has_only_allowed_chars(n) {
        assert(!contains_char(n, '\0'));
        assert(!(exists|i: int| 0 <= i < n.len() && is_control_char(#[trigger] n[i])));
        assert(!(exists|i: int| 0 <= i < n.len() && is_dangerous_char(#[trigger] n[i])));
    }
    if filename_fault(n) is None {
        assert forall|i: int| 0 <= i < n.len() implies {
            let c = #[trigger] n[i];
            &&& c != '\0'
            &&& (c as u32) > 0x1f
            &&& !(0x7f <= (c as u32) && (c as u32) <= 0x9f)
            &&& c != '<' && c != '>' && c != ':' && c != '"' && c != '|' && c != '?' && c != '*'
        } by {
            if n[i] == '\0' {
                assert(contains_char(n, '\0'));
            }
            if is_control_char(n[i]) {
                assert(exists|j: int| 0 <= j < n.len() && is_control_char(#[trigger] n[j]));
            }
            if is_dangerous_char(n[i]) {
                assert(exists|j: int| 0 <= j < n.len() && is_dangerous_char(#[trigger] n[j]));
            }
        }
    }
}

/// The text of `name` before its first dot.
fn base_name(name: &str) -> (r: &str)
    ensures
        r@ == before_first_dot(name@),
{
    let chars = chars_of(name);
    let mut i: usize = 0;
    while i < chars.len() && chars[i] != '.'
        invariant
            chars@ == name@,
            i <= chars.len(),
            forall|j: int| 0 <= j < i ==> chars@[j] != '.',
        decreases chars.len() - i,
    {
        i = i + 1;
    }
    proof {
        lemma_before_first_dot(name@, i as int);
    }
    name.substring_char(0, i)
}

/// Whether `base` is a reserved device name.
fn is_reserved_base(base: &str) -> (r: bool)
    ensures
        r == is_reserved_word(base@),
{
    str_eq_ignore_ascii_case(base, "con") || str_eq_ignore_ascii_case(base, "prn")
        || str_eq_ignore_ascii_case(base, "aux") || str_eq_ignore_ascii_case(base, "nul")
        || str_eq_ignore_ascii_case(base, "com1") || str_eq_ignore_ascii_case(base, "com2")
        || str_eq_ignore_ascii_case(base, "com3") || str_eq_ignore_ascii_case(base, "com4")
        || str_eq_ignore_ascii_case(base, "com5") || str_eq_ignore_ascii_case(base, "com6")
        || str_eq_ignore_ascii_case(base, "com7") || str_eq_ignore_ascii_case(base, "com8")
        || str_eq_ignore_ascii_case(base, "com9") || str_eq_ignore_ascii_case(base, "lpt1")
        || str_eq_ignore_ascii_case(base, "lpt2") || str_eq_ignore_ascii_case(base, "lpt3")
        || str_eq_ignore_ascii_case(base, "lpt4") || str_eq_ignore_ascii_case(base, "lpt5")
        || str_eq_ignore_ascii_case(base, "lpt6") || str_eq_ignore_ascii_case(base, "lpt7")
        || str_eq_ignore_ascii_case(base, "lpt8") || str_eq_ignore_ascii_case(base, "lpt9")
}

fn is_control(c: char) -> (r: bool)
    ensures
        r == is_control_char(c),
{
    let code = c as u32;
    code <= 0x1f || (0x7f <= code && code <= 0x9f)
}

fn is_dangerous(c: char) -> (r: bool)
    ensures
        r == is_dangerous_char(c),
{
    c == '<' || c == '>' || c == ':' || c == '"' || c == '|' || c == '?' || c == '*'
}

/// Checks one component of an entry name.
pub fn validate_filename(filename: &str) -> (r: Result<(), SecurityError>)
    ensures
        outcome(r) == filename_fault(filename@),
        r is Ok <==> {
            &&& has_only_allowed_chars(filename@)
            &&& !is_reserved_word(before_first_dot(filename@))
            &&& !(filename@.len() > 0 && (filename@[filename@.len() - 1] == ' ' || filename@[filename@.len() - 1] == '.'))
        },
{
    proof {
        lemma_filename_accepted_iff(filename@);
    }
    let chars = chars_of(filename);
    let mut i: usize = 0;
    while i < chars.len()
        invariant
            chars@ == filename@,
            i <= chars.len(),
            forall|j: int| 0 <= j < i ==> chars@[j] != '\0',
        decreases chars.len() - i,
    {
        if chars[i] == '\0' {
            return Err(SecurityError::NullByte);
        }
        i = i + 1;
    }
    let mut i: usize = 0;
    while i < chars.len()
        invariant
            chars@ == filename@,
            i <= chars.len(),
            !contains_char(filename@, '\0'),
            forall|j: int| 0 <= j < i ==> !is_control_char(#[trigger] chars@[j]),
        decreases chars.len() - i,
    {
        if is_control(chars[i]) {
            return Err(SecurityError::ControlCharacter);
        }
        i = i + 1;
    }
    if is_reserved_base(base_name(filename)) {
        return Err(SecurityError::ReservedName(filename.to_owned()));
    }
    let mut i: usize = 0;
    while i < chars.len()
        invariant
            chars@ == filename@,
            i <= chars.len(),
            !contains_char(filename@, '\0'),
            forall|j: int| 0 <= j < chars.len() ==> !is_control_char(#[trigger] chars@[j]),
            !is_reserved_word(before_first_dot(filename@)),
            forall|j: int| 0 <= j < i ==> !is_dangerous_char(#[trigger] chars@[j]),
        decreases chars.len() - i,
    {
        if is_dangerous(chars[i]) {
            return Err(SecurityError::DangerousCharacter(filename.to_owned()));
        }
        i = i + 1;
    }
    if chars.len() > 0 && (chars[chars.len() - 1] == ' ' || chars[chars.len() - 1] == '.') {
        return Err(SecurityError::TrailingSpaceOrDot);
    }
    Ok(())
}

// ---------------------------------------------------------------------------
// Entry paths
// ---------------------------------------------------------------------------

/// The fault of one path component, if any.
pub open spec fn part_fault(p: PartView) -> Option<SecurityFault> {
    match p {
        PartView::ParentDir => Some(SecurityFault::ParentDirectory),
        PartView::RootDir => Some(SecurityFault::AbsolutePath),
        PartView::Prefix(_) => Some(SecurityFault::DrivePrefix),
        PartView::Normal(n) => filename_fault(n),
        PartView::CurDir => None,
    }
}

/// The first fault among `parts[i..]`, where `parts[i]` is component number
/// `i + 1`: a component past the hundredth is refused before it is looked
/// at.
pub open spec fn components_fault_from(parts: Seq<PartView>, i: int) -> Option<SecurityFault>
    decreases parts.len() - i,
{
    if i < 0 || i >= parts.len() {
        None
    } else if i + 1 > MAX_PATH_DEPTH {
        Some(SecurityFault::PathTooDeep)
    } else {
        match part_fault(parts[i]) {
            Some(f) => Some(f),
            None => components_fault_from(parts, i + 1),
        }
    }
}

/// The first fault among all components of a path.
pub open spec fn components_fault(parts: Seq<PartView>) -> Option<SecurityFault> {
    components_fault_from(parts, 0)
}

/// No component of an accepted path climbs out of, or escapes, the
/// extraction directory: none is `..`, a root or a prefix, and there are at
/// most 100 of them.
pub proof fn lemma_accepted_components_stay_inside(parts: Seq<PartView>, i: int)
    requires
        0 <= i,
        components_fault_from(parts, i) is None,
    ensures
        parts.len() <= MAX_PATH_DEPTH || i >= parts.len(),
        forall|j: int| i <= j < parts.len() ==> !(#[trigger] parts[j] is ParentDir),
        forall|j: int| i <= j < parts.len() ==> !(#[trigger] parts[j] is RootDir),
        forall|j: int| i <= j < parts.len() ==> !(#[trigger] parts[j] is Prefix),
        forall|j: int| i <= j < parts.len() ==> (#[trigger] parts[j] matches PartView::Normal(n) ==> filename_fault(n) is None),
    decreases parts.len() - i,
{
    if i < parts.len() {
        lemma_accepted_components_stay_inside(parts, i + 1);
    }
}

/// A path with a refused component is refused, at that component or before.
proof fn lemma_faulty_component_refused(parts: Seq<PartView>, i: int, k: int)
    requires
        0 <= i <= k < parts.len(),
        part_fault(parts[k]) is Some,
    ensures
        components_fault_from(parts, i) is Some,
    decreases k - i,
{
    if i + 1 <= MAX_PATH_DEPTH && part_fault(parts[i]) is None {
        lemma_faulty_component_refused(parts, i + 1, k);
    }
}

/// `e` is an extension of a file type that can run code, compared without
/// regard to ASCII case (none of these holds a `k`).
pub open spec fn is_risky_extension(e: Seq<char>) -> bool {
    ||| eq_ignore_ascii_case(e, "exe"@)
    ||| eq_ignore_ascii_case(e, "bat"@)
    ||| eq_ignore_ascii_case(e, "cmd"@)
    ||| eq_ignore_ascii_case(e, "com"@)
    ||| eq_ignore_ascii_case(e, "scr"@)
    ||| eq_ignore_ascii_case(e, "pif"@)
    ||| eq_ignore_ascii_case(e, "vbs"@)
    ||| eq_ignore_ascii_case(e, "js"@)
    ||| eq_ignore_ascii_case(e, "jar"@)
    ||| eq_ignore_ascii_case(e, "ps1"@)
    ||| eq_ignore_ascii_case(e, "sh"@)
    ||| eq_ignore_ascii_case(e, "msi"@)
    ||| eq_ignore_ascii_case(e, "dll"@)
    ||| eq_ignore_ascii_case(e, "app"@)
    ||| eq_ignore_ascii_case(e, "deb"@)
    ||| eq_ignore_ascii_case(e, "rpm"@)
}

/// A file name whose extension is risky: it is extracted, with a warning.
pub open spec fn is_risky_file_type(n: Seq<char>) -> bool {
    name_extension(n) matches Some(e) && is_risky_extension(e)
}

/// Whether the file name `name` has a risky extension.
pub fn risky_file_type(name: &str) -> (r: bool)
    ensures
        r == is_risky_file_type(name@),
{
    match extension_of_name(name) {
        Some(e) => {
            str_eq_ignore_ascii_case(e, "exe") || str_eq_ignore_ascii_case(e, "bat")
                || str_eq_ignore_ascii_case(e, "cmd") || str_eq_ignore_ascii_case(e, "com")
                || str_eq_ignore_ascii_case(e, "scr") || str_eq_ignore_ascii_case(e, "pif")
                || str_eq_ignore_ascii_case(e, "vbs") || str_eq_ignore_ascii_case(e, "js")
                || str_eq_ignore_ascii_case(e, "jar") || str_eq_ignore_ascii_case(e, "ps1")
                || str_eq_ignore_ascii_case(e, "sh") || str_eq_ignore_ascii_case(e, "msi")
                || str_eq_ignore_ascii_case(e, "dll") || str_eq_ignore_ascii_case(e, "app")
                || str_eq_ignore_ascii_case(e, "deb") || str_eq_ignore_ascii_case(e, "rpm")
        },
        None => false,
    }
}

/// The names that the component check warns about, from `parts[i]` on: each
/// name with a risky extension that passes its own check, up to the first
/// component that is refused.
pub open spec fn warned_names_from(parts: Seq<PartView>, i: int) -> Seq<Seq<char>>
    decreases parts.len() - i,
{
    if i < 0 || i >= parts.len() || i + 1 > MAX_PATH_DEPTH {
        Seq::empty()
    } else {
        match parts[i] {
            PartView::Normal(n) => if filename_fault(n) is None {
                (if is_risky_file_type(n) { seq![n] } else { Seq::empty() }) + warned_names_from(parts, i + 1)
            } else {
                Seq::empty()
            },
            PartView::CurDir => warned_names_from(parts, i + 1),
            _ => Seq::empty(),
        }
    }
}

/// The names of the components of `path` whose file type is risky and that
/// pass the entry-name check before the first refused component, in order.
/// The path's length is not looked at.
pub fn risky_file_types(path: &str) -> (r: Vec<String>)
    ensures
        is_portable_path(path@) ==> r@.map_values(|n: String| n@) == warned_names_from(portable_components(path@), 0),
{
    let parts = components_of(path);
    let ghost pv = parts_view(parts@);
    let mut found: Vec<String> = Vec::new();
    let mut i: usize = 0;
    while i < parts.len()
        invariant
            pv == parts_view(parts@),
            i <= parts.len(),
            found@.map_values(|n: String| n@) + warned_names_from(pv, i as int) == warned_names_from(pv, 0),
        ensures
            found@.map_values(|n: String| n@) == warned_names_from(pv, 0),
        decreases parts.len() - i,
    {
        if i + 1 > MAX_PATH_DEPTH {
            proof {
                let fv = found@.map_values(|n: String| n@);
                assert(fv + Seq::<Seq<char>>::empty() =~= fv);
            }
            break;
        }
        match &parts[i] {
            PathPart::Normal(name) => {
                if validate_filename(name.as_str()).is_err() {
                    proof {
                        let fv = found@.map_values(|n: String| n@);
                        assert(fv + Seq::<Seq<char>>::empty() =~= fv);
                    }
                    break;
                }
                if risky_file_type(name.as_str()) {
                    let ghost before = found@.map_values(|n: String| n@);
                    found.push(name.clone());
                    assert(found@.map_values(|n: String| n@) =~= before.push(name@));
                    assert(before.push(name@) + warned_names_from(pv, i + 1) =~= before + (seq![name@] + warned_names_from(pv, i + 1)));
                }
            },
            PathPart::CurDir => {},
            _ => {
                proof {
                    let fv = found@.map_values(|n: String| n@);
                    assert(fv + Seq::<Seq<char>>::empty() =~= fv);
                }
                break;
            },
        }
        i = i + 1;
        proof {
            if i == parts.len() {
                let fv = found@.map_values(|n: String| n@);
                assert(fv + Seq::<Seq<char>>::empty() =~= fv);
            }
        }
    }
    found
}

/// Checks the components of an entry path in order, counting depth.
pub fn check_path_components(parts: &Vec<PathPart>) -> (r: Result<(), SecurityError>)
    ensures
        outcome(r) == components_fault(parts_view(parts@)),
{
    let mut i: usize = 0;
    while i < parts.len()
        invariant
            i <= parts.len(),
            components_fault(parts_view(parts@)) == components_fault_from(parts_view(parts@), i as int),
        decreases parts.len() - i,
    {
        if i + 1 > MAX_PATH_DEPTH {
            return Err(SecurityError::PathTooDeep);
        }
        match &parts[i] {
            PathPart::ParentDir => {
                return Err(SecurityError::ParentDirectory);
            },
            PathPart::RootDir => {
                return Err(SecurityError::AbsolutePath);
            },
            PathPart::Prefix(_) => {
                return Err(SecurityError::DrivePrefix);
            },
            PathPart::Normal(name) => {
                let checked = validate_filename(name.as_str());
                if checked.is_err() {
                    return checked;
                }
            },
            PathPart::CurDir => {},
        }
        i = i + 1;
    }
    Ok(())
}

/// The fault of an entry path before its components are looked at: empty,
/// or longer than 255 bytes.
pub open spec fn path_length_fault(char_len: nat, byte_len: usize) -> Option<SecurityFault> {
    if char_len == 0 {
        Some(SecurityFault::EmptyFilePath)
    } else if byte_len > MAX_FILENAME_LENGTH {
        Some(SecurityFault::FileNameTooLong(byte_len))
    } else {
        None
    }
}

/// The components of an accepted path keep it inside the directory it is
/// joined to: there are at most 100 of them, and none is `..`, a root or a
/// prefix.
pub open spec fn stays_inside(parts: Seq<PartView>) -> bool {
    &&& parts.len() <= MAX_PATH_DEPTH
    &&& forall|j: int| 0 <= j < parts.len() ==> !(#[trigger] parts[j] is ParentDir)
    &&& forall|j: int| 0 <= j < parts.len() ==> !(#[trigger] parts[j] is RootDir)
    &&& forall|j: int| 0 <= j < parts.len() ==> !(#[trigger] parts[j] is Prefix)
}

/// Checks an entry path from an archive before it is joined to the
/// extraction directory (see `sanitize_path`): it must be nonempty, at most
/// 255 bytes, and its components must pass `check_path_components`.
///
/// The components come from `std::path::Path`. For a portable path (see
/// `is_portable_path`) they are `portable_components`, so an accepted
/// portable path stays inside the extraction directory, and one with a `..`
/// piece or a leading `/` is refused; a path holding a `:` is refused on
/// every platform. For a path that is one plain name, the check is exactly
/// `validate_filename` on it.
pub fn check_entry_path(path: &str) -> (r: Result<(), SecurityError>)
    ensures
        path_length_fault(path@.len(), path.len()) is Some
            ==> outcome(r) == path_length_fault(path@.len(), path.len()),
        path_length_fault(path@.len(), path.len()) is None
            ==> exists|parts: Seq<PartView>| outcome(r) == components_fault(parts),
        path_length_fault(path@.len(), path.len()) is None && is_portable_path(path@)
            ==> outcome(r) == components_fault(portable_components(path@)),
        r is Ok && is_portable_path(path@) ==> stays_inside(portable_components(path@)),
        path_length_fault(path@.len(), path.len()) is None && is_plain_name(path@)
            ==> outcome(r) == filename_fault(path@),
        contains_char(path@, ':') ==> r is Err,
        is_portable_path(path@) && (exists|i: int| segment_at(path@, i, seq!['.', '.'])) ==> r is Err,
        is_portable_path(path@) && path@.len() > 0 && path@[0] == '/' ==> r is Err,
{
    if path.is_empty() {
        return Err(SecurityError::EmptyFilePath);
    }
    if path.len() > MAX_FILENAME_LENGTH {
        return Err(SecurityError::FileNameTooLong(path.len()));
    }
    let parts = components_of(path);
    let r = check_path_components(&parts);
    proof {
        let pv = parts_view(parts@);
        if is_portable_path(path@) && (exists|i: int| segment_at(path@, i, seq!['.', '.'])) {
            let i = choose|i: int| segment_at(path@, i, seq!['.', '.']);
            lemma_dot_dot_is_parent(path@, i);
            let pc = portable_components(path@);
            let k = choose|k: int| 0 <= k < pc.len() && #[trigger] pc[k] == PartView::ParentDir;
            lemma_faulty_component_refused(pv, 0, k);
        }
        if is_portable_path(path@) && path@.len() > 0 && path@[0] == '/' {
            assert(pv[0] == PartView::RootDir);
            lemma_faulty_component_refused(pv, 0, 0);
        }
        if contains_char(path@, ':') {
            let k = choose|k: int| 0 <= k < parts@.len() && (#[trigger] parts@[k]@ is Prefix || (
                parts@[k]@ is Normal && contains_char(parts@[k]@->Normal_0, ':')));
            assert(pv[k] == parts@[k]@);
            if pv[k] is Normal {
                let n = pv[k]->Normal_0;
                let c = choose|c: int| 0 <= c < n.len() && n[c] == ':';
                assert(is_dangerous_char(n[c]));
            }
            lemma_faulty_component_refused(pv, 0, k);
        }
        if r is Ok {
            lemma_accepted_components_stay_inside(pv, 0);
        }
        if is_plain_name(path@) {
            lemma_plain_name_components(path@);
            assert(pv.len() == 1);
            assert(components_fault_from(pv, 1) is None);
        }
    }
    r
}

/// The fault a checked result reports, if any.
pub open spec fn err_fault<T>(r: Result<T, SecurityError>) -> Option<SecurityFault> {
    match r {
        Ok(_) => None,
        Err(e) => Some(e@),
    }
}

/// Checks an entry path from an archive (as `check_entry_path`) and joins it
/// to the extraction directory `extract_to`.
///
/// An accepted portable path, joined to a portable `extract_to`, is
/// `extract_to` followed by the path, after a separator when needed (see
/// `is_join_of`); so the result begins with `extract_to`. Whether the
/// resolved location stays inside `extract_to` depends on the file system
/// (links), and is checked with `check_within_extraction_dir` on the
/// resolved paths.
pub fn sanitize_path(path: &str, extract_to: &str) -> (r: Result<String, SecurityError>)
    ensures
        path_length_fault(path@.len(), path.len()) is Some
            ==> err_fault(r) == path_length_fault(path@.len(), path.len()),
        path_length_fault(path@.len(), path.len()) is None
            ==> exists|parts: Seq<PartView>| err_fault(r) == components_fault(parts),
        path_length_fault(path@.len(), path.len()) is None && is_portable_path(path@)
            ==> err_fault(r) == components_fault(portable_components(path@)),
        r is Ok && is_portable_path(path@) ==> stays_inside(portable_components(path@)),
        path_length_fault(path@.len(), path.len()) is None && is_plain_name(path@)
            ==> err_fault(r) == filename_fault(path@),
        contains_char(path@, ':') ==> r is Err,
        is_portable_path(path@) && (exists|i: int| segment_at(path@, i, seq!['.', '.'])) ==> r is Err,
        is_portable_path(path@) && path@.len() > 0 && path@[0] == '/' ==> r is Err,
        r is Ok && is_portable_path(path@) && is_portable_path(extract_to@) ==> {
            &&& is_join_of(r->Ok_0@, extract_to@, path@)
            &&& has_prefix(r->Ok_0@, extract_to@)
        },
{
    match check_entry_path(path) {
        Err(e) => Err(e),
        Ok(()) => {
            let joined = join_path(extract_to, path);
            proof {
                if is_portable_path(path@) && is_portable_path(extract_to@) {
                    lemma_join_extends(joined@, extract_to@, path@);
                }
            }
            Ok(joined)
        },
    }
}

/// Whether `parts` begins with all of `base`.
pub open spec fn components_start_with(parts: Seq<PartView>, base: Seq<PartView>) -> bool {
    &&& base.len() <= parts.len()
    &&& forall|i: int| 0 <= i < base.len() ==> #[trigger] parts[i] == base[i]
}

fn part_eq(a: &PathPart, b: &PathPart) -> (r: bool)
    ensures
        r == (a@ == b@),
{
    match (a, b) {
        (PathPart::Prefix(x), PathPart::Prefix(y)) => str_eq(x.as_str(), y.as_str()),
        (PathPart::RootDir, PathPart::RootDir) => true,
        (PathPart::CurDir, PathPart::CurDir) => true,
        (PathPart::ParentDir, PathPart::ParentDir) => true,
        (PathPart::Normal(x), PathPart::Normal(y)) => str_eq(x.as_str(), y.as_str()),
        _ => false,
    }
}

/// Whether `parts` begins with all of `base`, component by component.
pub fn parts_start_with(parts: &Vec<PathPart>, base: &Vec<PathPart>) -> (r: bool)
    ensures
        r == components_start_with(parts_view(parts@), parts_view(base@)),
{
    if base.len() > parts.len() {
        return false;
    }
    let mut i: usize = 0;
    while i < base.len()
        invariant
            base.len() <= parts.len(),
            i <= base.len(),
            forall|j: int| 0 <= j < i ==> #[trigger] parts_view(parts@)[j] == parts_view(base@)[j],
        decreases base.len() - i,
    {
        if !part_eq(&parts[i], &base[i]) {
            assert(parts_view(parts@)[i as int] != parts_view(base@)[i as int]);
            return false;
        }
        i = i + 1;
    }
    true
}

/// Whether the path `candidate` lies within the directory `base`, comparing
/// whole components as `std::path::Path` splits them: an entry whose
/// (resolved) parent does not lie within the (resolved) extraction directory
/// escapes it.
pub fn check_within_extraction_dir(candidate: &str, base: &str) -> (r: Result<(), SecurityError>)
    ensures
        r is Err ==> outcome(r) == Some(SecurityFault::EscapesExtractionDir),
        is_portable_path(candidate@) && is_portable_path(base@) ==> (r is Ok <==> components_start_with(
            portable_components(candidate@),
            portable_components(base@),
        )),
        is_plain_name(candidate@) && is_plain_name(base@) ==> (r is Ok <==> candidate@ == base@),
{
    let parts = components_of(candidate);
    let base_parts = components_of(base);
    proof {
        if is_plain_name(candidate@) && is_plain_name(base@) {
            lemma_plain_name_components(candidate@);
            lemma_plain_name_components(base@);
            assert(portable_components(candidate@)[0] == PartView::Normal(candidate@));
            assert(portable_components(base@)[0] == PartView::Normal(base@));
        }
    }
    if parts_start_with(&parts, &base_parts) {
        Ok(())
    } else {
        Err(SecurityError::EscapesExtractionDir)
    }
}

// ---------------------------------------------------------------------------
// Archives
// ---------------------------------------------------------------------------

/// `e` is the extension of an archive format the extractor accepts,
/// compared without regard to ASCII case.
pub open spec fn is_allowed_extension(e: Seq<char>) -> bool {
    ||| eq_ignore_ascii_case(e, "zip"@)
    ||| eq_ignore_ascii_case(e, "7z"@)
    ||| eq_ignore_ascii_case(e, "tar"@)
    ||| eq_ignore_ascii_case(e, "gz"@)
    ||| eq_ignore_ascii_case(e, "bz2"@)
    ||| eq_ignore_ascii_case(e, "xz"@)
    ||| eq_ignore_ascii_case(e, "rar"@)
}

/// The fault of an archive file, from what the file system reports about it
/// and its file name, checked in this order: existence, readable metadata,
/// size, extension.
pub open spec fn archive_fault(facts: ArchiveFacts, name: Option<Seq<char>>) -> Option<SecurityFault> {
    if !facts.exists {
        Some(SecurityFault::ArchiveNotFound)
    } else if facts.size is None {
        Some(SecurityFault::ArchiveMetadataUnavailable)
    } else if facts.size->0 > MAX_ARCHIVE_SIZE {
        Some(SecurityFault::ArchiveTooLarge(facts.size->0))
    } else {
        match name {
            None => Some(SecurityFault::MissingExtension),
            Some(n) => match name_extension(n) {
                None => Some(SecurityFault::MissingExtension),
                Some(e) => if is_allowed_extension(e) {
                    None
                } else {
                    Some(SecurityFault::UnsupportedArchiveType(e))
                },
            },
        }
    }
}

/// The archive check accepts exactly the extensions whose format archive
/// detection recognises: an extension is allowed if and only if
/// `archive_type_for_extension` gives a type other than `Unknown` for it
/// (whatever the stem).
pub proof fn lemma_allowed_extensions_are_recognised(e: Seq<char>, stem: Seq<char>)
    ensures
        is_allowed_extension(e) <==> archive_type_for_extension(e, stem) != ArchiveType::Unknown,
{
}

/// Each of the seven supported formats is allowed, in any ASCII case: `zip`,
/// `7z`, `tar`, `gz`, `bz2`, `xz` and `rar`.
pub proof fn lemma_supported_extensions_allowed(e: Seq<char>)
    ensures
        letters_ignoring_case(e, seq!['z', 'i', 'p']) ==> is_allowed_extension(e),
        letters_ignoring_case(e, seq!['7', 'z']) ==> is_allowed_extension(e),
        letters_ignoring_case(e, seq!['t', 'a', 'r']) ==> is_allowed_extension(e),
        letters_ignoring_case(e, seq!['g', 'z']) ==> is_allowed_extension(e),
        letters_ignoring_case(e, seq!['b', 'z', '2']) ==> is_allowed_extension(e),
        letters_ignoring_case(e, seq!['x', 'z']) ==> is_allowed_extension(e),
        letters_ignoring_case(e, seq!['r', 'a', 'r']) ==> is_allowed_extension(e),
{
    reveal_strlit("zip");
    reveal_strlit("7z");
    reveal_strlit("tar");
    reveal_strlit("gz");
    reveal_strlit("bz2");
    reveal_strlit("xz");
    reveal_strlit("rar");
    assert forall|l: Seq<char>| letters_ignoring_case(e, l) implies eq_ignore_ascii_case(e, l) by {
        assert forall|i: int| 0 <= i < e.len() implies ascii_fold(#[trigger] e[i]) == ascii_fold(l[i]) by {
            assert(e[i] == l[i] || ('a' <= l[i] <= 'z' && e[i] as int == l[i] as int - 32));
        }
    }
    assert("zip"@ =~= seq!['z', 'i', 'p']);
    assert("7z"@ =~= seq!['7', 'z']);
    assert("tar"@ =~= seq!['t', 'a', 'r']);
    assert("gz"@ =~= seq!['g', 'z']);
    assert("bz2"@ =~= seq!['b', 'z', '2']);
    assert("xz"@ =~= seq!['x', 'z']);
    assert("rar"@ =~= seq!['r', 'a', 'r']);
}

/// An archive that exists, whose metadata is readable, that is at most
/// 250 GiB, and whose file name has an extension that archive detection
/// recognises, passes the archive check.
pub proof fn lemma_recognised_archives_accepted(facts: ArchiveFacts, name: Seq<char>)
    requires
        facts.exists,
        facts.size matches Some(n) && n <= MAX_ARCHIVE_SIZE,
        crate::utils::archive_type_of_name(Some(name)) != ArchiveType::Unknown,
    ensures
        archive_fault(facts, Some(name)) is None,
{
}

fn is_allowed_ext(e: &str) -> (r: bool)
    ensures
        r == is_allowed_extension(e@),
{
    str_eq_ignore_ascii_case(e, "zip") || str_eq_ignore_ascii_case(e, "7z")
        || str_eq_ignore_ascii_case(e, "tar") || str_eq_ignore_ascii_case(e, "gz")
        || str_eq_ignore_ascii_case(e, "bz2") || str_eq_ignore_ascii_case(e, "xz")
        || str_eq_ignore_ascii_case(e, "rar")
}

/// Checks an archive before extraction: it exists, its metadata is
/// readable, it is at most 250 GiB, and its extension names a supported
/// format.
///
/// The file name comes from `std::path::Path`; for a path that is one plain
/// name, the check is exactly `archive_fault` of that name.
pub fn validate_archive_file(path: &str, facts: ArchiveFacts) -> (r: Result<(), SecurityError>)
    ensures
        exists|name: Option<Seq<char>>| outcome(r) == archive_fault(facts, name),
        is_portable_path(path@) ==> outcome(r) == archive_fault(facts, portable_file_name(path@)),
        is_plain_name(path@) ==> outcome(r) == archive_fault(facts, Some(path@)),
        path@.len() == 0 ==> outcome(r) == archive_fault(facts, None),
        facts.exists && (facts.size matches Some(n) && n <= MAX_ARCHIVE_SIZE) && is_portable_path(path@)
            && crate::utils::archive_type_of_name(portable_file_name(path@)) != ArchiveType::Unknown ==> r is Ok,
{
    proof {
        if facts.exists && (facts.size matches Some(n) && n <= MAX_ARCHIVE_SIZE) && is_portable_path(path@)
            && crate::utils::archive_type_of_name(portable_file_name(path@)) != ArchiveType::Unknown {
            lemma_recognised_archives_accepted(facts, portable_file_name(path@)->0);
        }
    }
    proof {
        if is_plain_name(path@) {
            lemma_plain_name_components(path@);
        }
        if path@.len() == 0 {
            lemma_empty_path_components();
            assert(path@ =~= Seq::<char>::empty());
        }
    }
    if !facts.exists {
        return Err(SecurityError::ArchiveNotFound);
    }
    let size = match facts.size {
        Some(s) => s,
        None => return Err(SecurityError::ArchiveMetadataUnavailable),
    };
    if size > MAX_ARCHIVE_SIZE {
        return Err(SecurityError::ArchiveTooLarge(size));
    }
    let name = file_name_of(path);
    let r = match &name {
        None => Err(SecurityError::MissingExtension),
        Some(n) => match extension_of_name(n.as_str()) {
            None => Err(SecurityError::MissingExtension),
            Some(e) => if is_allowed_ext(e) {
                Ok(())
            } else {
                Err(SecurityError::UnsupportedArchiveType(e.to_owned()))
            },
        },
    };
    proof {
        let witness = match name {
            Some(n) => Some(n@),
            None => None,
        };
        assert(outcome(r) == archive_fault(facts, witness));
    }
    r
}

/// Refuses a destination whose file system reports it read-only.
/// `destination_readonly` is `None` when that could not be determined.
pub fn check_available_disk_space(destination_readonly: Option<bool>) -> (r: Result<(), SecurityError>)
    ensures
        destination_readonly == Some(true) ==> outcome(r) == Some(SecurityFault::DestinationNotWritable),
        destination_readonly != Some(true) ==> r is Ok,
{
    match destination_readonly {
        Some(true) => Err(SecurityError::DestinationNotWritable),
        _ => Ok(()),
    }
}

// ---------------------------------------------------------------------------
// Sizes
// ---------------------------------------------------------------------------

/// The fault of extracting an entry of `file_size` bytes, compressed to
/// `compressed_size` bytes, after `current_size` bytes have been extracted,
/// checked in this order: entry size, overflow of the total, total size,
/// compressed size, compression ratio, entry size again.
///
/// The ratio is refused when it exceeds 1000, that is when
/// `file_size > 1000 * compressed_size`.
pub open spec fn extraction_size_fault(current_size: u64, file_size: u64, compressed_size: u64) -> Option<SecurityFault> {
    if file_size > MAX_INDIVIDUAL_FILE_SIZE {
        Some(SecurityFault::FileTooLarge(file_size))
    } else if current_size + file_size > u64::MAX {
        Some(SecurityFault::SizeOverflow)
    } else if current_size + file_size > MAX_EXTRACTED_SIZE {
        Some(SecurityFault::TotalSizeExceeded(current_size, file_size))
    } else if compressed_size > 0 {
        if compressed_size > MAX_RATIO_CHECKED_COMPRESSED_SIZE {
            Some(SecurityFault::CompressedSizeTooLarge)
        } else if file_size > MAX_COMPRESSION_RATIO * compressed_size {
            Some(SecurityFault::SuspiciousCompressionRatio(file_size, compressed_size))
        } else if file_size > MAX_SAFE_FILE_SIZE {
            Some(SecurityFault::FileSizeTooLarge)
        } else {
            None
        }
    } else {
        None
    }
}

/// Checks the size limits and the compression ratio of one entry.
pub fn validate_extraction_size(current_size: u64, file_size: u64, compressed_size: u64) -> (r: Result<(), SecurityError>)
    ensures
        outcome(r) == extraction_size_fault(current_size, file_size, compressed_size),
{
    if file_size > MAX_INDIVIDUAL_FILE_SIZE {
        return Err(SecurityError::FileTooLarge(file_size));
    }
    let total_size = match safe_add_u64(current_size, file_size) {
        Ok(t) => t,
        Err(_) => return Err(SecurityError::SizeOverflow),
    };
    if total_size > MAX_EXTRACTED_SIZE {
        return Err(SecurityError::TotalSizeExceeded(current_size, file_size));
    }
    if compressed_size > 0 {
        if compressed_size > MAX_RATIO_CHECKED_COMPRESSED_SIZE {
            return Err(SecurityError::CompressedSizeTooLarge);
        }
        if file_size > MAX_COMPRESSION_RATIO * compressed_size {
            return Err(SecurityError::SuspiciousCompressionRatio(file_size, compressed_size));
        }
        if file_size > MAX_SAFE_FILE_SIZE {
            return Err(SecurityError::FileSizeTooLarge);
        }
    }
    Ok(())
}

/// Entries accepted one after another, each checked against the total of
/// those before it, never extract to more than 200 GiB in all, and none to
/// more than 50 GiB.
pub proof fn lemma_accepted_entries_within_limits(sizes: Seq<u64>, compressed: Seq<u64>)
    requires
        sizes.len() == compressed.len(),
        forall|i: int| 0 <= i < sizes.len() ==> running_total(sizes, i) <= u64::MAX
            && extraction_size_fault(running_total(sizes, i) as u64, #[trigger] sizes[i], compressed[i]) is None,
    ensures
        running_total(sizes, sizes.len() as int) <= MAX_EXTRACTED_SIZE,
        forall|i: int| 0 <= i < sizes.len() ==> #[trigger] sizes[i] <= MAX_INDIVIDUAL_FILE_SIZE,
    decreases sizes.len(),
{
    if sizes.len() > 0 {
        let k = sizes.len() - 1;
        assert(extraction_size_fault(running_total(sizes, k) as u64, sizes[k], compressed[k]) is None);
    }
}

/// The total size of the first `n` entries.
pub open spec fn running_total(sizes: Seq<u64>, n: int) -> int
    decreases n,
{
    if n <= 0 || sizes.len() == 0 {
        0
    } else {
        running_total(sizes, n - 1) + sizes[n - 1]
    }
}

// ---------------------------------------------------------------------------
// Decompression limit
// ---------------------------------------------------------------------------

/// What one read from a decompressing reader gave.
#[derive(Debug, Clone, Copy, PartialEq, Eq, Structural)]
pub enum ReadEvent {
    /// `n` bytes were read; 0 means the end of the data.
    Data(usize),
    /// The read failed.
    Failed,
}

/// What the decompression loop does next.
#[derive(Debug)]
pub enum DecompressStep {
    /// The data has ended; this many bytes were written in all.
    Finished(u64),
    /// Write the bytes just read; afterwards this many have been written.
    Write(u64),
    /// Stop with an error.
    Stop(SecurityError),
}

/// The next step of the decompression loop, as a mathematical value.
pub enum DecompressMove {
    Finished(u64),
    Write(u64),
    Stop(SecurityFault),
}

/// The step that follows `event` when `total_written` bytes have been
/// written and at most `max_output_size` may be.
pub open spec fn decompress_move(total_written: u64, event: ReadEvent, max_output_size: u64) -> DecompressMove {
    match event {
        ReadEvent::Failed => DecompressMove::Stop(SecurityFault::ReadFailed),
        ReadEvent::Data(n) => if n == 0 {
            DecompressMove::Finished(total_written)
        } else if total_written + n > u64::MAX {
            DecompressMove::Stop(SecurityFault::SizeOverflow)
        } else if total_written + n > max_output_size {
            DecompressMove::Stop(SecurityFault::OutputLimitExceeded((total_written + n) as u64))
        } else {
            DecompressMove::Write((total_written + n) as u64)
        },
    }
}

impl DecompressStep {
    /// This step as a mathematical value.
    pub open spec fn to_move(self) -> DecompressMove {
        match self {
            DecompressStep::Finished(t) => DecompressMove::Finished(t),
            DecompressStep::Write(t) => DecompressMove::Write(t),
            DecompressStep::Stop(e) => DecompressMove::Stop(e@),
        }
    }
}

/// One step of a decompression loop that never writes more than
/// `max_output_size` bytes: given the bytes written so far and what the
/// last read gave, decide whether to finish, write, or stop with an error.
pub fn safe_decompress_with_limits(total_written: u64, event: ReadEvent, max_output_size: u64) -> (r: DecompressStep)
    ensures
        r.to_move() == decompress_move(total_written, event, max_output_size),
{
    match event {
        ReadEvent::Failed => DecompressStep::Stop(SecurityError::ReadFailed),
        ReadEvent::Data(n) => {
            if n == 0 {
                return DecompressStep::Finished(total_written);
            }
            let bytes = match crate::safe_ops::safe_cast_usize_to_u64(n) {
                Ok(b) => b,
                Err(_) => return DecompressStep::Stop(SecurityError::SizeOverflow),
            };
            let new_total = match safe_add_u64(total_written, bytes) {
                Ok(t) => t,
                Err(_) => return DecompressStep::Stop(SecurityError::SizeOverflow),
            };
            if new_total > max_output_size {
                return DecompressStep::Stop(SecurityError::OutputLimitExceeded(new_total));
            }
            DecompressStep::Write(new_total)
        },
    }
}

/// The outcome of running the decompression loop over reads of the given
/// sizes, starting with `total` bytes written: the final total once a read
/// of 0 bytes ends the data, or `None` if the loop stops first or the reads
/// run out.
pub open spec fn decompress_run(total: u64, reads: Seq<usize>, max_output_size: u64) -> Option<u64>
    decreases reads.len(),
{
    if reads.len() == 0 {
        None
    } else {
        match decompress_move(total, ReadEvent::Data(reads[0]), max_output_size) {
            DecompressMove::Finished(t) => Some(t),
            DecompressMove::Write(t) => decompress_run(t, reads.drop_first(), max_output_size),
            DecompressMove::Stop(_) => None,
        }
    }
}

/// The sum of the read sizes before the first read of 0 bytes.
pub open spec fn sum_until_end(reads: Seq<usize>) -> int
    decreases reads.len(),
{
    if reads.len() == 0 || reads[0] == 0 {
        0
    } else {
        reads[0] + sum_until_end(reads.drop_first())
    }
}

/// A decompression loop driven by `safe_decompress_with_limits` that
/// finishes has written exactly the bytes it read, and never more than the
/// limit.
pub proof fn lemma_decompress_run_within_limit(total: u64, reads: Seq<usize>, max_output_size: u64)
    requires
        total <= max_output_size,
        decompress_run(total, reads, max_output_size) is Some,
    ensures
        decompress_run(total, reads, max_output_size)->0 == total + sum_until_end(reads),
        decompress_run(total, reads, max_output_size)->0 <= max_output_size,
    decreases reads.len(),
{
    if reads[0] != 0 {
        let t = (total + reads[0]) as u64;
        lemma_decompress_run_within_limit(t, reads.drop_first(), max_output_size);
    }
}

/// Some read gives 0 bytes: the data ends.
pub open spec fn reads_end(reads: Seq<usize>) -> bool {
    exists|i: int| 0 <= i < reads.len() && reads[i] == 0
}

/// Reads whose data ends make the decompression loop finish exactly when
/// everything read stays within the limit, and then with that total; when
/// the data would exceed the limit, the loop stops with an error instead.
pub proof fn lemma_decompress_run_finishes(total: u64, reads: Seq<usize>, max_output_size: u64)
    requires
        total <= max_output_size,
        reads_end(reads),
    ensures
        decompress_run(total, reads, max_output_size) is Some <==> total + sum_until_end(reads) <= max_output_size,
        total + sum_until_end(reads) <= max_output_size
            ==> decompress_run(total, reads, max_output_size) == Some((total + sum_until_end(reads)) as u64),
    decreases reads.len(),
{
    if reads[0] != 0 {
        let rest = reads.drop_first();
        if total + reads[0] <= max_output_size {
            let i = choose|i: int| 0 <= i < reads.len() && reads[i] == 0;
            assert(rest[i - 1] == 0);
            lemma_decompress_run_finishes((total + reads[0]) as u64, rest, max_output_size);
        } else {
            lemma_sum_until_end_nonneg(rest);
        }
    }
}

/// The sum of read sizes is never negative.
proof fn lemma_sum_until_end_nonneg(reads: Seq<usize>)
    ensures
        sum_until_end(reads) >= 0,
    decreases reads.len(),
{
    if reads.len() > 0 && reads[0] != 0 {
        lemma_sum_until_end_nonneg(reads.drop_first());
    }
}

// ---------------------------------------------------------------------------
// Before extraction
// ---------------------------------------------------------------------------

/// The factor by which an archive's size is multiplied to estimate the space
/// its extraction needs.
pub const EXTRACTION_SIZE_FACTOR: u64 = 5;

/// The fault of a destination: something that exists there but is not a
/// directory.
pub open spec fn target_fault(target_exists: bool, target_is_dir: bool) -> Option<SecurityFault> {
    if target_exists && !target_is_dir {
        Some(SecurityFault::ExtractPathNotDirectory)
    } else {
        None
    }
}

/// The first fault of an extraction request before its destination is
/// created: the archive, then the destination, then the password if one was
/// given.
pub open spec fn request_fault(
    archive_fault: Option<SecurityFault>,
    target_exists: bool,
    target_is_dir: bool,
    password_len: Option<nat>,
) -> Option<SecurityFault> {
    if archive_fault is Some {
        archive_fault
    } else if target_fault(target_exists, target_is_dir) is Some {
        target_fault(target_exists, target_is_dir)
    } else {
        match password_len {
            Some(n) => password_fault(n),
            None => None,
        }
    }
}

/// Checks an extraction request before its destination is created: the
/// archive (as `validate_archive_file`), that the destination is not an
/// existing non-directory, and the password when one is given.
pub fn check_extraction_request(
    archive_path: &str,
    facts: ArchiveFacts,
    target_exists: bool,
    target_is_dir: bool,
    password: Option<&str>,
) -> (r: Result<(), SecurityError>)
    ensures
        exists|name: Option<Seq<char>>| outcome(r) == request_fault(
            archive_fault(facts, name),
            target_exists,
            target_is_dir,
            match password { Some(p) => Some(p.len() as nat), None => None },
        ),
        is_portable_path(archive_path@) ==> outcome(r) == request_fault(
            archive_fault(facts, portable_file_name(archive_path@)),
            target_exists,
            target_is_dir,
            match password { Some(p) => Some(p.len() as nat), None => None },
        ),
        is_plain_name(archive_path@) ==> outcome(r) == request_fault(
            archive_fault(facts, Some(archive_path@)),
            target_exists,
            target_is_dir,
            match password { Some(p) => Some(p.len() as nat), None => None },
        ),
        r is Ok ==> facts.exists,
        r is Ok ==> (facts.size matches Some(n) && n <= MAX_ARCHIVE_SIZE),
{
    let checked = validate_archive_file(archive_path, facts);
    if checked.is_err() {
        return checked;
    }
    if target_exists && !target_is_dir {
        return Err(SecurityError::ExtractPathNotDirectory);
    }
    match password {
        Some(p) => validate_password(p),
        None => Ok(()),
    }
}

/// Checks the created destination and estimates the space extraction needs:
/// refuses a read-only destination, then a destination whose file system
/// reports read-only (see `check_available_disk_space`); otherwise the
/// estimate is five times the archive's size.
pub fn check_destination(
    destination_readonly: bool,
    root_readonly: Option<bool>,
    archive_size: u64,
) -> (r: Result<u64, SecurityError>)
    requires
        archive_size <= MAX_ARCHIVE_SIZE,
    ensures
        destination_readonly ==> (r matches Err(e) && e@ == SecurityFault::ExtractDirReadOnly),
        !destination_readonly && root_readonly == Some(true)
            ==> (r matches Err(e) && e@ == SecurityFault::DestinationNotWritable),
        !destination_readonly && root_readonly != Some(true)
            ==> r == Ok::<u64, SecurityError>((archive_size * EXTRACTION_SIZE_FACTOR) as u64),
{
    if destination_readonly {
        return Err(SecurityError::ExtractDirReadOnly);
    }
    let estimate = archive_size * EXTRACTION_SIZE_FACTOR;
    match check_available_disk_space(root_readonly) {
        Ok(()) => Ok(estimate),
        Err(e) => Err(e),
    }
}

} // verus!
