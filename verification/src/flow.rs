//! One run of an action on the focused text field, as a sequence of steps.
//! The library decides the next step from what the last one gave; the
//! application reads and writes the field and calls the model.
use vstd::prelude::*;
use crate::ax::ReadResult;
use crate::config::{active_key_of, FennecConfig, NO_API_KEY};
use crate::prompt::{build_prompt, prompt_for};
use crate::session::{check_read, NO_TEXT_SELECTED};
use crate::text::all_ws;

verus! {

broadcast use vstd::string::group_string_axioms;

/// What the application does next for an action.
pub enum Step {
    /// Read the focused field: everything when `select_all`, else the selection.
    Read { select_all: bool },
    /// Send `prompt` to the model; `read` is what it was made from.
    Ask { prompt: String, read: ReadResult },
    /// Remember `original` for undo, then write `text` into the field, over
    /// the selection when `was_selected`, over everything otherwise.
    Write { text: String, was_selected: bool, original: String },
    /// The action is complete: play the done sound.
    Succeed,
    /// The action stops with this error.
    Fail(String),
}

/// What reading the field gave.
pub enum ReadAttempt {
    /// Reading everything: the field's whole text, or an error.
    All(Result<String, String>),
    /// Reading the selection: the selection if there is one, or an error.
    Selection(Result<Option<ReadResult>, String>),
}

/// The text to work on from a read: the whole text counts as not selected; a
/// missing or blank selection, or blank text, is "No text selected".
pub open spec fn settled(attempt: ReadAttempt) -> Result<(Seq<char>, bool), Seq<char>> {
    let raw: Result<(Seq<char>, bool), Seq<char>> = match attempt {
        ReadAttempt::All(Ok(t)) => Ok((t@, false)),
        ReadAttempt::All(Err(e)) => Err(e@),
        ReadAttempt::Selection(Ok(Some(r))) => Ok((r.text@, r.was_selected)),
        ReadAttempt::Selection(Ok(None)) => Err(NO_TEXT_SELECTED@),
        ReadAttempt::Selection(Err(e)) => Err(e@),
    };
    match raw {
        Ok((t, sel)) => if all_ws(t) {
            Err(NO_TEXT_SELECTED@)
        } else {
            Ok((t, sel))
        },
        Err(e) => Err(e),
    }
}

/// The read result, taken by characters.
pub open spec fn read_view(r: Result<ReadResult, String>) -> Result<(Seq<char>, bool), Seq<char>> {
    match r {
        Ok(rr) => Ok((rr.text@, rr.was_selected)),
        Err(e) => Err(e@),
    }
}

/// The text to work on, from what reading the field gave.
pub fn settle_read(attempt: ReadAttempt) -> (r: Result<ReadResult, String>)
    ensures
        read_view(r) == settled(attempt),
{
    let raw = match attempt {
        ReadAttempt::All(Ok(text)) => ReadResult { text, was_selected: false },
        ReadAttempt::All(Err(e)) => return Err(e),
        ReadAttempt::Selection(Ok(Some(r))) => r,
        ReadAttempt::Selection(Ok(None)) => return Err(String::from_str(NO_TEXT_SELECTED)),
        ReadAttempt::Selection(Err(e)) => return Err(e),
    };
    check_read(raw)
}

/// The first step of action `action_id`: stop without a key; with text read
/// beforehand, ask the model at once; otherwise read the field.
pub fn begin_action(
    config: &FennecConfig,
    action_id: &str,
    select_all: bool,
    pre_read: Option<ReadResult>,
) -> (s: Step)
    ensures
        active_key_of(*config).len() == 0 ==> (s matches Step::Fail(e) && e@ == NO_API_KEY@),
        active_key_of(*config).len() > 0 ==> match pre_read {
            Some(r) => s matches Step::Ask { prompt, read } && prompt@ == prompt_for(
                config.custom_actions@,
                action_id@,
                r.text@,
            ) && read.text@ == r.text@ && read.was_selected == r.was_selected,
            None => s matches Step::Read { select_all: sa } && sa == select_all,
        },
{
    match config.require_api_key() {
        Err(e) => Step::Fail(e),
        Ok(()) => match pre_read {
            Some(read) => {
                let prompt = build_prompt(config, action_id, read.text.as_str());
                Step::Ask { prompt, read }
            },
            None => Step::Read { select_all },
        },
    }
}

/// The step after reading the field: ask the model about the text, or stop
/// with the read error.
pub fn after_read(config: &FennecConfig, action_id: &str, read: Result<ReadResult, String>) -> (s:
    Step)
    ensures
        match read {
            Ok(r) => s matches Step::Ask { prompt, read: rr } && prompt@ == prompt_for(
                config.custom_actions@,
                action_id@,
                r.text@,
            ) && rr.text@ == r.text@ && rr.was_selected == r.was_selected,
            Err(e) => s matches Step::Fail(f) && f@ == e@,
        },
{
    match read {
        Ok(r) => {
            let prompt = build_prompt(config, action_id, r.text.as_str());
            Step::Ask { prompt, read: r }
        },
        Err(e) => Step::Fail(e),
    }
}

/// The step after the model answered: write the answer where the text was
/// read, remembering the text it replaces; or stop with the model's error.
pub fn after_reply(read: ReadResult, reply: Result<String, String>) -> (s: Step)
    ensures
        match reply {
            Ok(t) => s matches Step::Write { text, was_selected, original } && text@ == t@
                && was_selected == read.was_selected && original@ == read.text@,
            Err(e) => s matches Step::Fail(f) && f@ == e@,
        },
{
    match reply {
        Ok(text) => Step::Write { text, was_selected: read.was_selected, original: read.text },
        Err(e) => Step::Fail(e),
    }
}

/// The step after writing: done, or stop with the write error.
pub fn after_write(written: Result<(), String>) -> (s: Step)
    ensures
        match written {
            Ok(()) => s is Succeed,
            Err(e) => s matches Step::Fail(f) && f@ == e@,
        },
{
    match written {
        Ok(()) => Step::Succeed,
        Err(e) => Step::Fail(e),
    }
}

} // verus!
