//! Decisions of the command line and of the window: how the program starts,
//! when to ask for a password again, and how messages are presented.

use vstd::prelude::*;
use crate::paths::{file_name_of, is_portable_path, portable_file_name};
use crate::text::{contains_text, has_prefix, str_contains, str_eq, str_starts_with};

verus! {

broadcast use vstd::string::group_string_axioms;

/// How the program starts.
#[derive(Debug, Clone, Copy, PartialEq, Eq, Structural)]
pub enum LaunchMode {
    /// The window, with nothing selected.
    Gui,
    /// The window, with the archive named by the first argument selected.
    GuiWithFile,
    /// The command line.
    Cli,
}

/// Some argument, the program name among them, is exactly `--cli`.
pub open spec fn has_cli_flag(args: Seq<String>) -> bool {
    exists|i: int| 0 <= i < args.len() && (#[trigger] args[i])@ == "--cli"@
}

/// The launch mode for the given command-line arguments (the program name
/// first): the command line when `--cli` is given or there are two or more
/// further arguments, the window with a file for exactly one, and the
/// window alone for none.
pub open spec fn launch_mode_for(args: Seq<String>) -> LaunchMode {
    if args.len() > 1 {
        if has_cli_flag(args) || args.len() > 2 {
            LaunchMode::Cli
        } else {
            LaunchMode::GuiWithFile
        }
    } else {
        LaunchMode::Gui
    }
}

fn any_cli_flag(args: &Vec<String>) -> (r: bool)
    ensures
        r == has_cli_flag(args@),
{
    let mut i: usize = 0;
    while i < args.len()
        invariant
            i <= args.len(),
            forall|j: int| 0 <= j < i ==> (#[trigger] args@[j])@ != "--cli"@,
        decreases args.len() - i,
    {
        if str_eq(args[i].as_str(), "--cli") {
            return true;
        }
        i = i + 1;
    }
    false
}

/// Decides how the program starts from its command-line arguments.
pub fn launch_mode(args: &Vec<String>) -> (r: LaunchMode)
    ensures
        r == launch_mode_for(args@),
{
    if args.len() > 1 {
        if any_cli_flag(args) || args.len() > 2 {
            LaunchMode::Cli
        } else {
            LaunchMode::GuiWithFile
        }
    } else {
        LaunchMode::Gui
    }
}

/// Whether a crash is also shown in a dialog window: when the program runs
/// with at most one argument and without `--cli`.
pub fn show_crash_dialog(args: &Vec<String>) -> (r: bool)
    ensures
        r == (args@.len() <= 2 && !has_cli_flag(args@)),
{
    args.len() <= 2 && !any_cli_flag(args)
}

/// Whether a failed extraction is retried after asking for a password: when
/// its message mentions `Pass` or `password`.
pub fn needs_password_retry(error_message: &str) -> (r: bool)
    ensures
        r == (contains_text(error_message@, "Pass"@) || contains_text(error_message@, "password"@)),
{
    str_contains(error_message, "Pass") || str_contains(error_message, "password")
}

/// The advice added to a failed extraction's message.
pub open spec fn failure_context_for(error_message: Seq<char>) -> Seq<char> {
    if contains_text(error_message, "overflow"@) {
        "This archive may be corrupted or contain files that trigger overflow errors in the decompression library. Some files may have been extracted successfully."@
    } else if contains_text(error_message, "Partial extraction successful"@) {
        "Partial extraction completed - some files were extracted successfully despite errors."@
    } else {
        "Extraction failed - check archive integrity and available disk space."@
    }
}

/// Advice to add to the message of a failed extraction.
pub fn failure_context(error_message: &str) -> (r: &'static str)
    ensures
        r@ == failure_context_for(error_message@),
{
    if str_contains(error_message, "overflow") {
        "This archive may be corrupted or contain files that trigger overflow errors in the decompression library. Some files may have been extracted successfully."
    } else if str_contains(error_message, "Partial extraction successful") {
        "Partial extraction completed - some files were extracted successfully despite errors."
    } else {
        "Extraction failed - check archive integrity and available disk space."
    }
}

/// How a status message is coloured.
#[derive(Debug, Clone, Copy, PartialEq, Eq, Structural)]
pub enum StatusTone {
    Success,
    Failure,
    InProgress,
    Neutral,
}

/// The tone of a status message: success for a leading check mark, failure
/// for a leading cross, in progress when it mentions `Extracting`, neutral
/// otherwise.
pub open spec fn status_tone_for(message: Seq<char>) -> StatusTone {
    if has_prefix(message, "\u{2713}"@) {
        StatusTone::Success
    } else if has_prefix(message, "\u{2717}"@) {
        StatusTone::Failure
    } else if contains_text(message, "Extracting"@) {
        StatusTone::InProgress
    } else {
        StatusTone::Neutral
    }
}

/// The tone of the window's status message.
pub fn status_tone(message: &str) -> (r: StatusTone)
    ensures
        r == status_tone_for(message@),
{
    if str_starts_with(message, "\u{2713}") {
        StatusTone::Success
    } else if str_starts_with(message, "\u{2717}") {
        StatusTone::Failure
    } else if str_contains(message, "Extracting") {
        StatusTone::InProgress
    } else {
        StatusTone::Neutral
    }
}

/// The tone of the message about installing the context-menu entry: success
/// for a leading check mark, failure otherwise.
pub fn install_tone(message: &str) -> (r: StatusTone)
    ensures
        has_prefix(message@, "\u{2713}"@) ==> r == StatusTone::Success,
        !has_prefix(message@, "\u{2713}"@) ==> r == StatusTone::Failure,
{
    if str_starts_with(message, "\u{2713}") {
        StatusTone::Success
    } else {
        StatusTone::Failure
    }
}

/// A failure message mentions `CRITICAL`, `fatal` or `Security`.
pub open spec fn critical_failure(error_message: Seq<char>) -> bool {
    contains_text(error_message, "CRITICAL"@) || contains_text(error_message, "fatal"@)
        || contains_text(error_message, "Security"@)
}

/// Whether a failed extraction is also shown in an error dialog: when its
/// message mentions `CRITICAL`, `fatal` or `Security`.
pub fn is_critical_failure(error_message: &str) -> (r: bool)
    ensures
        r == critical_failure(error_message@),
{
    str_contains(error_message, "CRITICAL") || str_contains(error_message, "fatal")
        || str_contains(error_message, "Security")
}

/// Whether the extract button is enabled: both paths are filled in and no
/// extraction is running.
pub fn can_extract(archive_path: &str, extract_to: &str, is_extracting: bool) -> (r: bool)
    ensures
        r == (archive_path@.len() > 0 && extract_to@.len() > 0 && !is_extracting),
{
    !archive_path.is_empty() && !extract_to.is_empty() && !is_extracting
}

/// Whether the window was opened on an archive that loaded: an archive path
/// is set and the status says `Archive loaded`.
pub fn opened_with_archive(archive_path: &str, status_message: &str) -> (r: bool)
    ensures
        r == (archive_path@.len() > 0 && contains_text(status_message@, "Archive loaded"@)),
{
    !archive_path.is_empty() && str_contains(status_message, "Archive loaded")
}

/// What the window shows once an extraction has ended.
#[derive(Debug)]
pub struct FinishedExtraction {
    /// The new status line.
    pub status_message: String,
    /// The progress bar stands at 100% (at 0% when false).
    pub progress_complete: bool,
    /// The text beside the progress bar.
    pub progress_message: String,
    /// The text of the error dialog to open, if one is opened.
    pub error_dialog: Option<String>,
}

/// The state the window moves to when an extraction ends with `result`.
///
/// A success gets a status with a leading check mark, shown as a success;
/// a failure gets a status with a leading cross and the error, shown as a
/// failure, and opens the error dialog when the failure is critical (see
/// `is_critical_failure`).
pub fn finish_extraction(result: &Result<(), String>) -> (r: FinishedExtraction)
    ensures
        result is Ok ==> {
            &&& r.status_message@ == "\u{2713} Extraction successful!"@
            &&& r.progress_complete
            &&& r.progress_message@ == "Completed!"@
            &&& r.error_dialog is None
            &&& status_tone_for(r.status_message@) == StatusTone::Success
        },
        result is Err ==> {
            let e = result->Err_0;
            &&& r.status_message@ == "\u{2717} Extraction failed: "@ + e@
            &&& !r.progress_complete
            &&& r.progress_message@ == "Failed"@
            &&& status_tone_for(r.status_message@) == StatusTone::Failure
            &&& (r.error_dialog is Some <==> critical_failure(e@))
            &&& (r.error_dialog is Some ==> r.error_dialog->0@ == "FerrisUnzip - Extraction Error\n\n"@ + e@
                + "\n\nThe extraction was safely terminated to protect your system.\nPlease check the archive file and try again."@)
        },
{
    match result {
        Ok(()) => {
            let status = "\u{2713} Extraction successful!";
            proof {
                reveal_strlit("\u{2713} Extraction successful!");
                reveal_strlit("\u{2713}");
                assert(status@.subrange(0, 1) =~= "\u{2713}"@);
            }
            FinishedExtraction {
                status_message: status.to_owned(),
                progress_complete: true,
                progress_message: "Completed!".to_owned(),
                error_dialog: None,
            }
        },
        Err(e) => {
            let mut status = "\u{2717} Extraction failed: ".to_owned();
            status.append(e.as_str());
            let error_dialog = if is_critical_failure(e.as_str()) {
                let mut d = "FerrisUnzip - Extraction Error\n\n".to_owned();
                d.append(e.as_str());
                d.append("\n\nThe extraction was safely terminated to protect your system.\nPlease check the archive file and try again.");
                Some(d)
            } else {
                None
            };
            proof {
                reveal_strlit("\u{2717} Extraction failed: ");
                reveal_strlit("\u{2717}");
                reveal_strlit("\u{2713}");
                assert(status@.subrange(0, 1) =~= "\u{2717}"@);
                assert(!has_prefix(status@, "\u{2713}"@)) by {
                    assert(status@.subrange(0, 1)[0] == status@[0]);
                    assert("\u{2713}"@[0] == '\u{2713}');
                }
            }
            FinishedExtraction {
                status_message: status,
                progress_complete: false,
                progress_message: "Failed".to_owned(),
                error_dialog,
            }
        },
    }
}

/// The file name shown for an archive path: its file name, or nothing.
pub open spec fn shown_name(archive_path: Seq<char>) -> Seq<char> {
    match portable_file_name(archive_path) {
        Some(n) => n,
        None => Seq::empty(),
    }
}

/// The status line for the text `name` of an archive that was opened.
pub open spec fn opening_text(exists: bool, validated: bool, name: Seq<char>) -> Seq<char> {
    if !exists {
        "Error: Selected archive file does not exist"@
    } else if validated {
        "Archive loaded: "@ + name + ". Security validation passed!"@
    } else {
        "Archive loaded with warnings: "@ + name + ". Check security status!"@
    }
}

/// The status line of a window opened on the archive at `archive_path`:
/// an error when nothing exists there; otherwise the archive's file name,
/// with a note that the security checks passed (`validated`) or warned.
pub fn opening_status(archive_path: &str, exists: bool, validated: bool) -> (r: String)
    ensures
        exists|name: Seq<char>| r@ == opening_text(exists, validated, name),
        is_portable_path(archive_path@) ==> r@ == opening_text(exists, validated, shown_name(archive_path@)),
{
    if !exists {
        let r = "Error: Selected archive file does not exist".to_owned();
        assert(r@ == opening_text(exists, validated, Seq::empty()));
        return r;
    }
    let name = match file_name_of(archive_path) {
        Some(n) => n,
        None => String::new(),
    };
    let mut r = if validated { "Archive loaded: ".to_owned() } else { "Archive loaded with warnings: ".to_owned() };
    r.append(name.as_str());
    r.append(if validated { ". Security validation passed!" } else { ". Check security status!" });
    proof {
        assert(r@ == opening_text(exists, validated, name@));
    }
    r
}

} // verus!
