//! The decisions of one run of an action that involve no outside service:
//! whether read text can be sent, what undo gives back, and the frames of
//! the tray animation.
use vstd::prelude::*;
use crate::ax::ReadResult;
use crate::text::{all_ws, is_blank};

verus! {

broadcast use vstd::string::group_string_axioms;

/// The message when there is no text to work on.
pub const NO_TEXT_SELECTED: &'static str = "No text selected";

/// The message when there is nothing to undo.
pub const NOTHING_TO_UNDO: &'static str = "Nothing to undo";

/// Accepts read text for an action unless it is blank.
pub fn check_read(read: ReadResult) -> (r: Result<ReadResult, String>)
    ensures
        all_ws(read.text@) ==> (r matches Err(e) && e@ == NO_TEXT_SELECTED@),
        !all_ws(read.text@) ==> (r matches Ok(rr) && rr.text@ == read.text@ && rr.was_selected
            == read.was_selected),
{
    if is_blank(read.text.as_str()) {
        Err(String::from_str(NO_TEXT_SELECTED))
    } else {
        Ok(read)
    }
}

/// What undo gives for the remembered original text: the text, or an error
/// when nothing is remembered.
pub open spec fn undo_outcome(slot: Option<String>) -> Result<Seq<char>, Seq<char>> {
    match slot {
        Some(t) => Ok(t@),
        None => Err(NOTHING_TO_UNDO@),
    }
}

/// Takes the text that the last action replaced, so that it can be written
/// back; afterwards nothing is remembered.
pub fn take_undo(slot: &mut Option<String>) -> (r: Result<String, String>)
    ensures
        crate::tap::result_view(r) == undo_outcome(*old(slot)),
        *final(slot) is None,
{
    match slot.take() {
        Some(text) => Ok(text),
        None => Err(String::from_str(NOTHING_TO_UNDO)),
    }
}

/// Undo gives back what the last action replaced, and only once: a second
/// undo finds nothing.
pub proof fn lemma_undo_once(text: String)
    ensures
        undo_outcome(Some(text)) == Ok::<Seq<char>, Seq<char>>(text@),
        undo_outcome(None) == Err::<Seq<char>, Seq<char>>(NOTHING_TO_UNDO@),
{
}

/// Frames of the tray icon while the model works, shown in turn.
pub open spec fn loading_frames() -> Seq<Seq<char>> {
    seq![
        "icons/tray_anim_0.png"@,
        "icons/tray_anim_1.png"@,
        "icons/tray_anim_2.png"@,
        "icons/tray_anim_1.png"@,
    ]
}

/// The frame shown at step `i` of the animation.
pub fn loading_frame(i: usize) -> (r: &'static str)
    ensures
        r@ == loading_frames()[(i % 4) as int],
{
    let k = i % 4;
    if k == 0 {
        "icons/tray_anim_0.png"
    } else if k == 1 {
        "icons/tray_anim_1.png"
    } else if k == 2 {
        "icons/tray_anim_2.png"
    } else {
        "icons/tray_anim_1.png"
    }
}

/// The tray icon shown when the model is done: red in development builds.
pub fn idle_icon(development: bool) -> (r: &'static str)
    ensures
        r@ == (if development {
            "icons/tray_dev.png"@
        } else {
            "icons/tray_color.png"@
        }),
{
    if development {
        "icons/tray_dev.png"
    } else {
        "icons/tray_color.png"
    }
}

} // verus!
