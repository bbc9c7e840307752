//! Archive type detection, buffer sizing and memory-mapping heuristics.

use vstd::prelude::*;
use crate::ArchiveType;
use crate::paths::{
    extension_of_name, file_name_of, is_plain_name, is_portable_path, lemma_empty_path_components,
    lemma_plain_name_components, name_extension, name_stem, portable_file_name, stem_of_name,
};
use crate::text::{ascii_fold, eq_ignore_ascii_case, has_suffix, str_ends_with, str_eq_ignore_ascii_case};

verus! {

/// The archive type that an extension names, given the stem of the file name
/// it came from. Extensions compare without regard to ASCII case; the
/// compressed tar forms need a stem ending in `.tar`.
///
/// Unicode lower-casing maps onto an ASCII letter only the ASCII letters and
/// the Kelvin sign (onto `k`), and no extension here holds a `k`, so this
/// decides exactly what comparing the lower-cased extension decides.
pub open spec fn archive_type_for_extension(ext: Seq<char>, stem: Seq<char>) -> ArchiveType {
    if eq_ignore_ascii_case(ext, "zip"@) {
        ArchiveType::Zip
    } else if eq_ignore_ascii_case(ext, "7z"@) {
        ArchiveType::SevenZ
    } else if eq_ignore_ascii_case(ext, "tar"@) {
        ArchiveType::Tar
    } else if eq_ignore_ascii_case(ext, "gz"@) {
        if has_suffix(stem, ".tar"@) { ArchiveType::TarGz } else { ArchiveType::Gz }
    } else if eq_ignore_ascii_case(ext, "bz2"@) {
        if has_suffix(stem, ".tar"@) { ArchiveType::TarBz2 } else { ArchiveType::Bz2 }
    } else if eq_ignore_ascii_case(ext, "xz"@) {
        if has_suffix(stem, ".tar"@) { ArchiveType::TarXz } else { ArchiveType::Xz }
    } else if eq_ignore_ascii_case(ext, "rar"@) {
        ArchiveType::Rar
    } else {
        ArchiveType::Unknown
    }
}

/// The archive type of a file with the given file name (none: `Unknown`).
pub open spec fn archive_type_of_name(name: Option<Seq<char>>) -> ArchiveType {
    match name {
        None => ArchiveType::Unknown,
        Some(n) => match name_extension(n) {
            None => ArchiveType::Unknown,
            Some(e) => archive_type_for_extension(e, name_stem(n)),
        },
    }
}

/// Determine the archive type from a file name (the final component of a
/// path), by its extension.
pub fn archive_type_from_file_name(file_name: Option<&str>) -> (r: ArchiveType)
    ensures
        r == archive_type_of_name(match file_name { Some(n) => Some(n@), None => None }),
{
    let name = match file_name {
        Some(n) => n,
        None => return ArchiveType::Unknown,
    };
    let ext = match extension_of_name(name) {
        Some(e) => e,
        None => return ArchiveType::Unknown,
    };
    let stem = stem_of_name(name);
    if str_eq_ignore_ascii_case(ext, "zip") {
        ArchiveType::Zip
    } else if str_eq_ignore_ascii_case(ext, "7z") {
        ArchiveType::SevenZ
    } else if str_eq_ignore_ascii_case(ext, "tar") {
        ArchiveType::Tar
    } else if str_eq_ignore_ascii_case(ext, "gz") {
        if str_ends_with(stem, ".tar") { ArchiveType::TarGz } else { ArchiveType::Gz }
    } else if str_eq_ignore_ascii_case(ext, "bz2") {
        if str_ends_with(stem, ".tar") { ArchiveType::TarBz2 } else { ArchiveType::Bz2 }
    } else if str_eq_ignore_ascii_case(ext, "xz") {
        if str_ends_with(stem, ".tar") { ArchiveType::TarXz } else { ArchiveType::Xz }
    } else if str_eq_ignore_ascii_case(ext, "rar") {
        ArchiveType::Rar
    } else {
        ArchiveType::Unknown
    }
}

/// Determine archive type based on file extension.
///
/// The file name is taken from the path as `std::path::Path` splits it: for
/// a portable path it is `portable_file_name`, and for a path that is one
/// plain name it is that name.
pub fn get_archive_type(path: &str) -> (r: ArchiveType)
    ensures
        is_portable_path(path@) ==> r == archive_type_of_name(portable_file_name(path@)),
        path@.len() == 0 ==> r == ArchiveType::Unknown,
        is_plain_name(path@) ==> r == archive_type_of_name(Some(path@)),
{
    proof {
        if is_plain_name(path@) {
            lemma_plain_name_components(path@);
        }
        if path@.len() == 0 {
            lemma_empty_path_components();
            assert(path@ =~= Seq::<char>::empty());
        }
    }
    match file_name_of(path) {
        Some(name) => archive_type_from_file_name(Some(name.as_str())),
        None => archive_type_from_file_name(None),
    }
}

/// Files above this size get the largest buffer.
pub const LARGE_FILE_THRESHOLD: u64 = 104857600;

/// Files above this size get a medium buffer and may be memory-mapped.
pub const MEDIUM_FILE_THRESHOLD: u64 = 10485760;

/// Buffer size used for files above `LARGE_FILE_THRESHOLD`.
pub const LARGE_BUFFER: usize = 1048576;

/// Buffer size used for files above `MEDIUM_FILE_THRESHOLD`.
pub const MEDIUM_BUFFER: usize = 262144;

/// The buffer size chosen for a file of `file_size` bytes before it is
/// raised to the caller's default.
pub open spec fn size_tier(file_size: u64, default_buffer_size: usize) -> usize {
    if file_size > LARGE_FILE_THRESHOLD {
        LARGE_BUFFER
    } else if file_size > MEDIUM_FILE_THRESHOLD {
        MEDIUM_BUFFER
    } else {
        default_buffer_size
    }
}

/// The buffer size for a file of `file_size` bytes: the size tier, but never
/// less than `default_buffer_size`.
pub open spec fn optimal_buffer_size(file_size: u64, default_buffer_size: usize) -> usize {
    let tier = size_tier(file_size, default_buffer_size);
    if tier >= default_buffer_size { tier } else { default_buffer_size }
}

/// Get optimal buffer size based on file size
pub fn get_optimal_buffer_size(file_size: u64, default_buffer_size: usize) -> (r: usize)
    ensures
        r == optimal_buffer_size(file_size, default_buffer_size),
{
    let optimal: usize = if file_size > LARGE_FILE_THRESHOLD {
        LARGE_BUFFER
    } else if file_size > MEDIUM_FILE_THRESHOLD {
        MEDIUM_BUFFER
    } else {
        default_buffer_size
    };
    if optimal >= default_buffer_size {
        optimal
    } else {
        default_buffer_size
    }
}

/// Check if file should use memory mapping based on size
pub fn should_use_mmap(file_size: u64, use_mmap_config: bool) -> (r: bool)
    ensures
        r == (use_mmap_config && file_size > MEDIUM_FILE_THRESHOLD),
{
    use_mmap_config && file_size > MEDIUM_FILE_THRESHOLD
}

/// Whether an extraction shows a progress bar: when progress is wanted and
/// the number of files is known to be positive.
pub fn progress_bar_shown(total_files: u64, show_progress: bool) -> (r: bool)
    ensures
        r == (show_progress && total_files > 0),
{
    show_progress && total_files > 0
}

/// Two texts equal up to ASCII case compare alike, up to ASCII case, with
/// any third text.
proof fn lemma_ignore_case_same_class(a: Seq<char>, b: Seq<char>, c: Seq<char>)
    requires
        eq_ignore_ascii_case(a, b),
    ensures
        eq_ignore_ascii_case(a, c) <==> eq_ignore_ascii_case(b, c),
{
    if eq_ignore_ascii_case(a, c) {
        assert forall|i: int| 0 <= i < b.len() implies ascii_fold(#[trigger] b[i]) == ascii_fold(c[i]) by {
            assert(ascii_fold(a[i]) == ascii_fold(b[i]));
            assert(ascii_fold(a[i]) == ascii_fold(c[i]));
        }
    }
    if eq_ignore_ascii_case(b, c) {
        assert forall|i: int| 0 <= i < a.len() implies ascii_fold(#[trigger] a[i]) == ascii_fold(c[i]) by {
            assert(ascii_fold(a[i]) == ascii_fold(b[i]));
            assert(ascii_fold(b[i]) == ascii_fold(c[i]));
        }
    }
}

/// Format detection does not depend on the case of ASCII letters in the
/// extension: `ZIP`, `Zip` and `zip` name the same format.
pub proof fn lemma_archive_type_ignores_extension_case(ext: Seq<char>, other: Seq<char>, stem: Seq<char>)
    requires
        eq_ignore_ascii_case(ext, other),
    ensures
        archive_type_for_extension(ext, stem) == archive_type_for_extension(other, stem),
{
    lemma_ignore_case_same_class(ext, other, "zip"@);
    lemma_ignore_case_same_class(ext, other, "7z"@);
    lemma_ignore_case_same_class(ext, other, "tar"@);
    lemma_ignore_case_same_class(ext, other, "gz"@);
    lemma_ignore_case_same_class(ext, other, "bz2"@);
    lemma_ignore_case_same_class(ext, other, "xz"@);
    lemma_ignore_case_same_class(ext, other, "rar"@);
}

/// `s` ends in the four characters `.tar`.
pub open spec fn ends_in_dot_tar(s: Seq<char>) -> bool {
    &&& s.len() >= 4
    &&& s[s.len() - 4] == '.'
    &&& s[s.len() - 3] == 't'
    &&& s[s.len() - 2] == 'a'
    &&& s[s.len() - 1] == 'r'
}

/// `e` is the lower-case text `l`, with any of its ASCII letters possibly
/// written in upper case.
pub open spec fn letters_ignoring_case(e: Seq<char>, l: Seq<char>) -> bool {
    &&& e.len() == l.len()
    &&& forall|i: int| 0 <= i < e.len() ==> (#[trigger] e[i] == l[i]
        || ('a' <= l[i] <= 'z' && e[i] as int == l[i] as int - 32))
}

/// A stem ending in `.tar` is needed, and enough, for a compressed tar
/// archive: for the extensions `gz`, `bz2` and `xz` (in any ASCII case) the
/// type is the compressed tar form exactly when the stem ends in the four
/// characters `.tar` (so `calendar.gz` is a plain gzip file), and the
/// single-file form otherwise.
pub proof fn lemma_compressed_tar_needs_dot_tar(ext: Seq<char>, stem: Seq<char>)
    ensures
        letters_ignoring_case(ext, seq!['g', 'z']) ==> {
            &&& (archive_type_for_extension(ext, stem) == ArchiveType::TarGz <==> ends_in_dot_tar(stem))
            &&& (archive_type_for_extension(ext, stem) == ArchiveType::Gz <==> !ends_in_dot_tar(stem))
        },
        letters_ignoring_case(ext, seq!['b', 'z', '2']) ==> {
            &&& (archive_type_for_extension(ext, stem) == ArchiveType::TarBz2 <==> ends_in_dot_tar(stem))
            &&& (archive_type_for_extension(ext, stem) == ArchiveType::Bz2 <==> !ends_in_dot_tar(stem))
        },
        letters_ignoring_case(ext, seq!['x', 'z']) ==> {
            &&& (archive_type_for_extension(ext, stem) == ArchiveType::TarXz <==> ends_in_dot_tar(stem))
            &&& (archive_type_for_extension(ext, stem) == ArchiveType::Xz <==> !ends_in_dot_tar(stem))
        },
{
    reveal_strlit("zip");
    reveal_strlit("7z");
    reveal_strlit("tar");
    reveal_strlit("gz");
    reveal_strlit("bz2");
    reveal_strlit("xz");
    reveal_strlit(".tar");
    if stem.len() >= 4 {
        let tail = stem.subrange(stem.len() - 4, stem.len() as int);
        assert(tail[0] == stem[stem.len() - 4]);
        assert(tail[1] == stem[stem.len() - 3]);
        assert(tail[2] == stem[stem.len() - 2]);
        assert(tail[3] == stem[stem.len() - 1]);
        if ends_in_dot_tar(stem) {
            assert(tail =~= ".tar"@);
        }
    }
    if letters_ignoring_case(ext, seq!['g', 'z']) {
        assert(ascii_fold(ext[0]) == ascii_fold('g'));
        assert(ascii_fold(ext[1]) == ascii_fold('z'));
        assert(eq_ignore_ascii_case(ext, "gz"@));
        assert(!eq_ignore_ascii_case(ext, "7z"@)) by {
            assert(ascii_fold(ext[0]) != ascii_fold("7z"@[0]));
        }
    }
    if letters_ignoring_case(ext, seq!['b', 'z', '2']) {
        assert(ascii_fold(ext[0]) == ascii_fold('b'));
        assert(ascii_fold(ext[1]) == ascii_fold('z'));
        assert(ascii_fold(ext[2]) == ascii_fold('2'));
        assert(eq_ignore_ascii_case(ext, "bz2"@));
        assert(!eq_ignore_ascii_case(ext, "zip"@)) by {
            assert(ascii_fold(ext[0]) != ascii_fold("zip"@[0]));
        }
        assert(!eq_ignore_ascii_case(ext, "tar"@)) by {
            assert(ascii_fold(ext[0]) != ascii_fold("tar"@[0]));
        }
    }
    if letters_ignoring_case(ext, seq!['x', 'z']) {
        assert(ascii_fold(ext[0]) == ascii_fold('x'));
        assert(ascii_fold(ext[1]) == ascii_fold('z'));
        assert(eq_ignore_ascii_case(ext, "xz"@));
        assert(!eq_ignore_ascii_case(ext, "7z"@)) by {
            assert(ascii_fold(ext[0]) != ascii_fold("7z"@[0]));
        }
        assert(!eq_ignore_ascii_case(ext, "gz"@)) by {
            assert(ascii_fold(ext[0]) != ascii_fold("gz"@[0]));
        }
    }
}

/// The single-format extensions name their formats, in any ASCII case:
/// `zip` a ZIP archive, `7z` a 7-Zip archive, `tar` a tar archive and `rar`
/// a RAR archive, whatever the stem.
pub proof fn lemma_extensions_name_formats(ext: Seq<char>, stem: Seq<char>)
    ensures
        letters_ignoring_case(ext, seq!['z', 'i', 'p']) ==> archive_type_for_extension(ext, stem) == ArchiveType::Zip,
        letters_ignoring_case(ext, seq!['7', 'z']) ==> archive_type_for_extension(ext, stem) == ArchiveType::SevenZ,
        letters_ignoring_case(ext, seq!['t', 'a', 'r']) ==> archive_type_for_extension(ext, stem) == ArchiveType::Tar,
        letters_ignoring_case(ext, seq!['r', 'a', 'r']) ==> archive_type_for_extension(ext, stem) == ArchiveType::Rar,
{
    reveal_strlit("zip");
    reveal_strlit("7z");
    reveal_strlit("tar");
    reveal_strlit("gz");
    reveal_strlit("bz2");
    reveal_strlit("xz");
    reveal_strlit("rar");
    assert forall|l: Seq<char>| letters_ignoring_case(ext, l) implies eq_ignore_ascii_case(ext, l) by {
        assert forall|i: int| 0 <= i < ext.len() implies ascii_fold(#[trigger] ext[i]) == ascii_fold(l[i]) by {
            assert(ext[i] == l[i] || ('a' <= l[i] <= 'z' && ext[i] as int == l[i] as int - 32));
        }
    }
    assert("zip"@ =~= seq!['z', 'i', 'p']);
    assert("7z"@ =~= seq!['7', 'z']);
    assert("tar"@ =~= seq!['t', 'a', 'r']);
    assert("rar"@ =~= seq!['r', 'a', 'r']);
    if letters_ignoring_case(ext, seq!['7', 'z']) {
        assert(!eq_ignore_ascii_case(ext, "zip"@));
    }
    if letters_ignoring_case(ext, seq!['t', 'a', 'r']) {
        assert(!eq_ignore_ascii_case(ext, "zip"@)) by {
            assert(ascii_fold(ext[0]) != ascii_fold("zip"@[0]));
        }
        assert(!eq_ignore_ascii_case(ext, "7z"@));
    }
    if letters_ignoring_case(ext, seq!['r', 'a', 'r']) {
        assert(!eq_ignore_ascii_case(ext, "zip"@)) by {
            assert(ascii_fold(ext[0]) != ascii_fold("zip"@[0]));
        }
        assert(!eq_ignore_ascii_case(ext, "tar"@)) by {
            assert(ascii_fold(ext[0]) != ascii_fold("tar"@[0]));
        }
        assert(!eq_ignore_ascii_case(ext, "bz2"@)) by {
            assert(ascii_fold(ext[0]) != ascii_fold("bz2"@[0]));
        }
        assert(!eq_ignore_ascii_case(ext, "7z"@));
        assert(!eq_ignore_ascii_case(ext, "gz"@));
        assert(!eq_ignore_ascii_case(ext, "xz"@));
    }
}

/// The buffer size never falls below the caller's default, and grows (weakly)
/// with the file size.
pub proof fn lemma_buffer_size_monotone(small: u64, large: u64, default_buffer_size: usize)
    requires
        small <= large,
    ensures
        optimal_buffer_size(small, default_buffer_size) >= default_buffer_size,
        optimal_buffer_size(small, default_buffer_size) <= optimal_buffer_size(large, default_buffer_size),
{
}

} // verus!
