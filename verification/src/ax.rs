//! Decisions of the accessibility layer: what counts as a selection, when a
//! write took effect, which failures are retried, and what the clipboard
//! fallback gives back.
use vstd::prelude::*;
use crate::text::{all_ws, contains, contains_seq, decimal, int_decimal, is_blank, occurs_at, trim, trimmed};

verus! {

broadcast use vstd::string::group_string_axioms;

/// Text read from the focused field.
pub struct ReadResult {
    pub text: String,
    /// Whether the text is the selection (else the whole field).
    pub was_selected: bool,
}

/// How many times the focused element is asked for.
pub const AX_RETRY_ATTEMPTS: u32 = 3;

/// Pause between two attempts, in milliseconds.
pub const AX_RETRY_DELAY_MS: u64 = 100;

/// The accessibility error code whose failures are retried: -25212, which
/// ApplicationServices names `kAXErrorNoValue`.
pub const RETRIED_ERROR_MARK: &'static str = "-25212";

/// Whether a failure to find the focused element is worth another attempt:
/// only when its message names the error code -25212.
pub fn focus_error_is_transient(err: &str) -> (r: bool)
    ensures
        r == contains_seq(err@, RETRIED_ERROR_MARK@),
{
    contains(err, RETRIED_ERROR_MARK)
}

/// Whether to ask for the focused element again after attempt number
/// `attempt` (counting from zero) failed with `err`: only for a transient
/// failure, and at most `AX_RETRY_ATTEMPTS` attempts in all.
pub fn retry_focus(attempt: u32, err: &str) -> (r: bool)
    ensures
        r == (attempt + 1 < AX_RETRY_ATTEMPTS && contains_seq(err@, RETRIED_ERROR_MARK@)),
{
    attempt < AX_RETRY_ATTEMPTS - 1 && focus_error_is_transient(err)
}

/// The process id of the frontmost application, when it is a real one.
pub fn frontmost_pid(pid: i32) -> (r: Option<i32>)
    ensures
        r == (if pid > 0 {
            Some(pid)
        } else {
            None
        }),
{
    if pid > 0 {
        Some(pid)
    } else {
        None
    }
}

/// What reading `AXSelectedText` gave: a selection only when some text came
/// back and it is not empty.
pub fn selection_from(value: Option<String>) -> (r: Option<ReadResult>)
    ensures
        match value {
            Some(t) => if t@.len() > 0 {
                (r matches Some(rr) && rr.text@ == t@ && rr.was_selected)
            } else {
                r is None
            },
            None => r is None,
        },
{
    match value {
        Some(text) => {
            if text.as_str().unicode_len() > 0 {
                Some(ReadResult { text, was_selected: true })
            } else {
                None
            }
        },
        None => None,
    }
}

/// Whether a write shows in the field: the field's value, read back, holds
/// the written text without its surrounding white space.
pub fn write_took_effect(current: &str, written: &str) -> (r: bool)
    ensures
        r == contains_seq(current@, trimmed(written@)),
{
    contains(current, trim(written))
}

/// The message when the clipboard gave nothing back.
pub const CLIPBOARD_EMPTY: &'static str = "Clipboard fallback: no text read";

/// What the clipboard fallback of a read gives: the text, unless it is blank.
pub fn clipboard_read_outcome(text: String) -> (r: Result<String, String>)
    ensures
        all_ws(text@) ==> (r matches Err(e) && e@ == CLIPBOARD_EMPTY@),
        !all_ws(text@) ==> (r matches Ok(t) && t@ == text@),
{
    if is_blank(text.as_str()) {
        Err(String::from_str(CLIPBOARD_EMPTY))
    } else {
        Ok(text)
    }
}

/// The line that describes the output of a diagnostic AppleScript: its
/// output, else its error output, else that there was none.
pub open spec fn describe_output(stdout: Seq<char>, stderr: Seq<char>) -> Seq<char> {
    if trimmed(stdout).len() > 0 {
        trimmed(stdout)
    } else if trimmed(stderr).len() > 0 {
        "STDERR: "@ + trimmed(stderr)
    } else {
        "No output"@
    }
}

/// Describes what a diagnostic AppleScript printed.
pub fn describe_script_output(stdout: &str, stderr: &str) -> (r: String)
    ensures
        r@ == describe_output(stdout@, stderr@),
{
    let out = trim(stdout);
    let err = trim(stderr);
    if out.unicode_len() > 0 {
        out.to_string()
    } else if err.unicode_len() > 0 {
        String::from_str("STDERR: ").concat(err)
    } else {
        String::from_str("No output")
    }
}

/// Where the focused application came from, when it was asked for directly.
pub const FOCUSED_APP_SOURCE: &'static str = "AXFocusedApplication";

/// Where the focused application came from, when it was found by the process
/// id of the frontmost application.
pub fn pid_source(pid: i32) -> (r: String)
    ensures
        r@ == "NSWorkspace PID "@ + int_decimal(pid as int),
{
    String::from_str("NSWorkspace PID ").concat(decimal(pid).as_str())
}

pub const NO_APP_OPEN: &'static str = "No focused application (AXError: ";

pub const NO_APP_CLOSE: &'static str =
    "). Check Accessibility permissions in System Settings > Privacy & Security > Accessibility.";

/// The message when no application is focused, with the error code of the
/// request for it.
pub fn no_focused_app_message(app_err: i32) -> (r: String)
    ensures
        r@ == NO_APP_OPEN@ + int_decimal(app_err as int) + NO_APP_CLOSE@,
{
    String::from_str(NO_APP_OPEN).concat(decimal(app_err).as_str()).concat(NO_APP_CLOSE)
}

/// The message when no element is focused: where the application came from,
/// the error codes of the request to the application and to the whole
/// system, and whether the call ran on the main thread.
pub open spec fn no_element_text(source: Seq<char>, app_err: int, system_err: int, main_thread: int) -> Seq<
    char,
> {
    "No focused element (via "@ + source + ", app AXError: "@ + int_decimal(app_err)
        + ", system AXError: "@ + int_decimal(system_err) + ", main_thread: "@ + int_decimal(
        main_thread,
    ) + ")"@
}

/// The message when no element is focused.
pub fn no_focused_element_message(source: &str, app_err: i32, system_err: i32, main_thread: i32) -> (r:
    String)
    ensures
        r@ == no_element_text(source@, app_err as int, system_err as int, main_thread as int),
{
    String::from_str("No focused element (via ").concat(source).concat(", app AXError: ").concat(
        decimal(app_err).as_str(),
    ).concat(", system AXError: ").concat(decimal(system_err).as_str()).concat(
        ", main_thread: ",
    ).concat(decimal(main_thread).as_str()).concat(")")
}

proof fn lemma_decimal_retried_code()
    ensures
        int_decimal(-25212) == RETRIED_ERROR_MARK@,
{
    reveal_strlit("-25212");
    reveal_with_fuel(crate::text::nat_digits, 6);
    assert(int_decimal(-25212) =~= RETRIED_ERROR_MARK@);
}

proof fn lemma_occurs_in_middle(a: Seq<char>, m: Seq<char>, b: Seq<char>)
    ensures
        contains_seq(a + m + b, m),
{
    assert((a + m + b).subrange(a.len() as int, (a.len() + m.len()) as int) =~= m);
    assert(occurs_at(a + m + b, m, a.len() as int));
}

/// A failure whose error code is -25212, from the application or from the
/// whole system, is retried while attempts remain.
pub proof fn lemma_retried_code_is_retried(
    source: Seq<char>,
    app_err: int,
    system_err: int,
    main_thread: int,
)
    requires
        app_err == -25212 || system_err == -25212,
    ensures
        contains_seq(no_element_text(source, app_err, system_err, main_thread), RETRIED_ERROR_MARK@),
        app_err == -25212 ==> contains_seq(
            NO_APP_OPEN@ + int_decimal(app_err) + NO_APP_CLOSE@,
            RETRIED_ERROR_MARK@,
        ),
{
    lemma_decimal_retried_code();
    let m = RETRIED_ERROR_MARK@;
    if app_err == -25212 {
        let a = "No focused element (via "@ + source + ", app AXError: "@;
        let b = ", system AXError: "@ + int_decimal(system_err) + ", main_thread: "@ + int_decimal(
            main_thread,
        ) + ")"@;
        assert(no_element_text(source, app_err, system_err, main_thread) =~= a + m + b);
        lemma_occurs_in_middle(a, m, b);
        lemma_occurs_in_middle(NO_APP_OPEN@, m, NO_APP_CLOSE@);
    } else {
        let a = "No focused element (via "@ + source + ", app AXError: "@ + int_decimal(app_err)
            + ", system AXError: "@;
        let b = ", main_thread: "@ + int_decimal(main_thread) + ")"@;
        assert(no_element_text(source, app_err, system_err, main_thread) =~= a + m + b);
        lemma_occurs_in_middle(a, m, b);
    }
}

} // verus!
