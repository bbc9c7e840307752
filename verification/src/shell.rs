//! What installing the context-menu entries writes: the Windows registry
//! entries and the Linux desktop entry.

use vstd::prelude::*;
use crate::text::{decimal, decimal_string};

verus! {

broadcast use vstd::string::group_string_axioms;

/// `a` followed by `b`.
fn join2(a: &str, b: &str) -> (r: String)
    ensures
        r@ == a@ + b@,
{
    let mut r = a.to_owned();
    r.append(b);
    r
}

/// `a`, `b`, then `c`.
fn join3(a: &str, b: &str, c: &str) -> (r: String)
    ensures
        r@ == a@ + b@ + c@,
{
    let mut r = a.to_owned();
    r.append(b);
    r.append(c);
    r
}

/// One value to set in the registry: the default value of `key` becomes
/// `data`.
#[derive(Debug)]
pub struct RegistryEntry {
    pub key: String,
    pub data: String,
}

/// Where the per-user shell entries of a file class live.
pub open spec fn classes_root() -> Seq<char> {
    "HKEY_CURRENT_USER\\Software\\Classes\\"@
}

/// The menu label on archive files.
pub open spec fn menu_label() -> Seq<char> {
    "Extract with FerrisUnzip"@
}

/// The command that opens a file with the program at `exe`.
pub open spec fn open_file_command(exe: Seq<char>) -> Seq<char> {
    "\""@ + exe + "\" \"%1\""@
}

/// The file extensions that get their own context-menu entry.
pub open spec fn menu_extensions() -> Seq<Seq<char>> {
    seq![".zip"@, ".7z"@, ".tar"@, ".gz"@, ".bz2"@, ".xz"@, ".rar"@, ".tar.gz"@, ".tar.bz2"@, ".tar.xz"@]
}

/// Every supported format gets a context-menu entry: the list holds `.`
/// followed by each of `zip`, `7z`, `tar`, `gz`, `bz2`, `xz` and `rar`, and
/// the three compressed-tar double extensions `.tar.gz`, `.tar.bz2` and
/// `.tar.xz`; and each of its entries is one of these ten.
pub proof fn lemma_menu_covers_supported_formats()
    ensures
        menu_extensions().contains(seq!['.', 'z', 'i', 'p']),
        menu_extensions().contains(seq!['.', '7', 'z']),
        menu_extensions().contains(seq!['.', 't', 'a', 'r']),
        menu_extensions().contains(seq!['.', 'g', 'z']),
        menu_extensions().contains(seq!['.', 'b', 'z', '2']),
        menu_extensions().contains(seq!['.', 'x', 'z']),
        menu_extensions().contains(seq!['.', 'r', 'a', 'r']),
        menu_extensions().contains(seq!['.', 't', 'a', 'r', '.', 'g', 'z']),
        menu_extensions().contains(seq!['.', 't', 'a', 'r', '.', 'b', 'z', '2']),
        menu_extensions().contains(seq!['.', 't', 'a', 'r', '.', 'x', 'z']),
        menu_extensions().len() == 10,
{
    reveal_strlit(".zip");
    reveal_strlit(".7z");
    reveal_strlit(".tar");
    reveal_strlit(".gz");
    reveal_strlit(".bz2");
    reveal_strlit(".xz");
    reveal_strlit(".rar");
    reveal_strlit(".tar.gz");
    reveal_strlit(".tar.bz2");
    reveal_strlit(".tar.xz");
    let m = menu_extensions();
    assert(m[0] =~= seq!['.', 'z', 'i', 'p']);
    assert(m[1] =~= seq!['.', '7', 'z']);
    assert(m[2] =~= seq!['.', 't', 'a', 'r']);
    assert(m[3] =~= seq!['.', 'g', 'z']);
    assert(m[4] =~= seq!['.', 'b', 'z', '2']);
    assert(m[5] =~= seq!['.', 'x', 'z']);
    assert(m[6] =~= seq!['.', 'r', 'a', 'r']);
    assert(m[7] =~= seq!['.', 't', 'a', 'r', '.', 'g', 'z']);
    assert(m[8] =~= seq!['.', 't', 'a', 'r', '.', 'b', 'z', '2']);
    assert(m[9] =~= seq!['.', 't', 'a', 'r', '.', 'x', 'z']);
}

/// The file extensions that get their own context-menu entry.
pub fn context_menu_extensions() -> (r: Vec<&'static str>)
    ensures
        r@.map_values(|s: &str| s@) == menu_extensions(),
{
    let mut r: Vec<&'static str> = Vec::new();
    r.push(".zip");
    r.push(".7z");
    r.push(".tar");
    r.push(".gz");
    r.push(".bz2");
    r.push(".xz");
    r.push(".rar");
    r.push(".tar.gz");
    r.push(".tar.bz2");
    r.push(".tar.xz");
    assert(r@.map_values(|s: &str| s@) =~= menu_extensions());
    r
}

/// The command that opens a file with the program at `exe_path`.
pub fn open_command(exe_path: &str) -> (r: String)
    ensures
        r@ == open_file_command(exe_path@),
{
    join3("\"", exe_path, "\" \"%1\"")
}

/// The two entries for files ending in `extension`: the menu item, then its
/// command, which runs the program at `exe_path` on the file.
pub fn extension_entries(extension: &str, exe_path: &str) -> (r: (RegistryEntry, RegistryEntry))
    ensures
        r.0.key@ == classes_root() + extension@ + "\\shell\\FerrisUnzip"@,
        r.0.data@ == menu_label(),
        r.1.key@ == classes_root() + extension@ + "\\shell\\FerrisUnzip"@ + "\\command"@,
        r.1.data@ == open_file_command(exe_path@),
{
    let key = join3("HKEY_CURRENT_USER\\Software\\Classes\\", extension, "\\shell\\FerrisUnzip");
    let command_key = join2(key.as_str(), "\\command");
    (
        RegistryEntry { key, data: "Extract with FerrisUnzip".to_owned() },
        RegistryEntry { key: command_key, data: open_command(exe_path) },
    )
}

/// The four entries every installation needs, in order: the menu item on
/// all files and its command, then the item on a folder's background and
/// its command (which starts the program without a file).
pub fn general_entries(exe_path: &str) -> (r: Vec<RegistryEntry>)
    ensures
        r@.len() == 4,
        r@[0].key@ == "HKEY_CURRENT_USER\\Software\\Classes\\*\\shell\\FerrisUnzip"@,
        r@[0].data@ == menu_label(),
        r@[1].key@ == "HKEY_CURRENT_USER\\Software\\Classes\\*\\shell\\FerrisUnzip\\command"@,
        r@[1].data@ == open_file_command(exe_path@),
        r@[2].key@ == "HKEY_CURRENT_USER\\Software\\Classes\\Directory\\Background\\shell\\FerrisUnzip"@,
        r@[2].data@ == "Extract Archive with FerrisUnzip"@,
        r@[3].key@ == "HKEY_CURRENT_USER\\Software\\Classes\\Directory\\Background\\shell\\FerrisUnzip\\command"@,
        r@[3].data@ == "\""@ + exe_path@ + "\""@,
{
    let mut r: Vec<RegistryEntry> = Vec::new();
    r.push(RegistryEntry {
        key: "HKEY_CURRENT_USER\\Software\\Classes\\*\\shell\\FerrisUnzip".to_owned(),
        data: "Extract with FerrisUnzip".to_owned(),
    });
    r.push(RegistryEntry {
        key: "HKEY_CURRENT_USER\\Software\\Classes\\*\\shell\\FerrisUnzip\\command".to_owned(),
        data: open_command(exe_path),
    });
    r.push(RegistryEntry {
        key: "HKEY_CURRENT_USER\\Software\\Classes\\Directory\\Background\\shell\\FerrisUnzip".to_owned(),
        data: "Extract Archive with FerrisUnzip".to_owned(),
    });
    r.push(RegistryEntry {
        key: "HKEY_CURRENT_USER\\Software\\Classes\\Directory\\Background\\shell\\FerrisUnzip\\command".to_owned(),
        data: join3("\"", exe_path, "\""),
    });
    r
}

/// The text of the desktop entry, up to the program's path.
pub open spec fn desktop_entry_head() -> Seq<char> {
    "[Desktop Entry]\nType=Application\nName=FerrisUnzip\nComment=Extract various archive formats\nExec="@
}

/// The text of the desktop entry, after the program's path.
pub open spec fn desktop_entry_tail() -> Seq<char> {
    " %f\nIcon=utilities-file-archiver\nTerminal=false\nCategories=Utility;Archiving;\nMimeType=application/zip;application/x-7z-compressed;application/x-tar;application/gzip;application/x-bzip2;application/x-xz;application/x-rar;\n"@
}

/// The desktop entry that offers the program at `exe_path` for archives.
pub fn desktop_entry_content(exe_path: &str) -> (r: String)
    ensures
        r@ == desktop_entry_head() + exe_path@ + desktop_entry_tail(),
{
    join3(
        "[Desktop Entry]\nType=Application\nName=FerrisUnzip\nComment=Extract various archive formats\nExec=",
        exe_path,
        " %f\nIcon=utilities-file-archiver\nTerminal=false\nCategories=Utility;Archiving;\nMimeType=application/zip;application/x-7z-compressed;application/x-tar;application/gzip;application/x-bzip2;application/x-xz;application/x-rar;\n",
    )
}

/// The directory for desktop entries under the home directory `home`.
pub fn desktop_entry_dir(home: &str) -> (r: String)
    ensures
        r@ == home@ + "/.local/share/applications"@,
{
    join2(home, "/.local/share/applications")
}

/// The desktop entry's file in the directory `dir`.
pub fn desktop_entry_path(dir: &str) -> (r: String)
    ensures
        r@ == dir@ + "/ferrisunzip.desktop"@,
{
    join2(dir, "/ferrisunzip.desktop")
}

/// What the installer reports after writing general entry number
/// `index` (counting from 0): nothing when the write succeeded; otherwise
/// the installation stops with the step, counted from 1, and what the
/// registry tool wrote to its error output.
pub fn general_entry_failure(index: usize, succeeded: bool, error_output: &str) -> (r: Option<String>)
    requires
        index < usize::MAX,
    ensures
        succeeded ==> r is None,
        !succeeded ==> (r is Some && r->0@ == "Failed to register shell integration (step "@
            + decimal((index + 1) as nat) + "): "@ + error_output@),
{
    if succeeded {
        None
    } else {
        let step = decimal_string((index + 1) as u64);
        let mut r = join3("Failed to register shell integration (step ", step.as_str(), "): ");
        r.append(error_output);
        Some(r)
    }
}

} // verus!
