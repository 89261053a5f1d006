//! What the entries of the record menu and the answers of the confirm dialog
//! ask for. An entry or an answer arrives as a name and a text that goes
//! with it, which for most names is the position of a record in its list.

use crate::text::{parse_index, parsed_index, same_text};
use vstd::prelude::*;

verus! {

/// What a confirmed dialog asks for.
#[derive(Debug, Clone, Copy, PartialEq, Eq, Structural)]
pub enum ConfirmedAction {
    RemoveAllCache,
    CloseWindow,
    RemoveRecord(i32),
    RemoveArchive(i32),
    GenerateRecordPlans,
    RemoveRecordPlan(i32),
    RemoveAllRecordPlans,
}

/// What an entry of the record menu asks for.
#[derive(Debug, Clone, Copy, PartialEq, Eq, Structural)]
pub enum PopupAction {
    RemoveAllCache,
    EditRecord(i32),
    /// Ask before the record is removed; the position is passed on as it
    /// came.
    ConfirmRemoveRecord,
    ArchiveRecord(i32),
    PlanRecord(i32),
    /// Ask before the archived record is removed; the position is passed on
    /// as it came.
    ConfirmRemoveArchive,
    RecoverArchive(i32),
}

/// A text that should be the position of a record and is no number.
#[derive(Debug, Clone, Copy, PartialEq, Eq, Structural)]
pub struct InvalidIndex;

/// What a confirmed dialog of the given name asks for: `Ok(None)` for a name
/// that nothing is known of, an error where the name needs a position and
/// the text is no number.
pub open spec fn confirmed(handle_type: Seq<char>, user_data: Seq<char>) -> Result<
    Option<ConfirmedAction>,
    InvalidIndex,
> {
    if handle_type == "remove-all-cache"@ {
        Ok(Some(ConfirmedAction::RemoveAllCache))
    } else if handle_type == "close-window"@ {
        Ok(Some(ConfirmedAction::CloseWindow))
    } else if handle_type == "remove-record"@ {
        match parsed_index(user_data) {
            Some(index) => Ok(Some(ConfirmedAction::RemoveRecord(index))),
            None => Err(InvalidIndex),
        }
    } else if handle_type == "remove-archive"@ {
        match parsed_index(user_data) {
            Some(index) => Ok(Some(ConfirmedAction::RemoveArchive(index))),
            None => Err(InvalidIndex),
        }
    } else if handle_type == "ai-generate-record-plans"@ {
        Ok(Some(ConfirmedAction::GenerateRecordPlans))
    } else if handle_type == "remove-record-plan"@ {
        match parsed_index(user_data) {
            Some(index) => Ok(Some(ConfirmedAction::RemoveRecordPlan(index))),
            None => Err(InvalidIndex),
        }
    } else if handle_type == "remove-all-record-plans"@ {
        Ok(Some(ConfirmedAction::RemoveAllRecordPlans))
    } else {
        Ok(None)
    }
}

/// What a menu entry of the given name asks for: `Ok(None)` for a name that
/// nothing is known of, an error where the name needs a position and the
/// text is no number.
pub open spec fn chosen(action: Seq<char>, user_data: Seq<char>) -> Result<
    Option<PopupAction>,
    InvalidIndex,
> {
    if action == "remove-all-cache"@ {
        Ok(Some(PopupAction::RemoveAllCache))
    } else if action == "edit-record"@ {
        match parsed_index(user_data) {
            Some(index) => Ok(Some(PopupAction::EditRecord(index))),
            None => Err(InvalidIndex),
        }
    } else if action == "remove-record"@ {
        Ok(Some(PopupAction::ConfirmRemoveRecord))
    } else if action == "archive-record"@ {
        match parsed_index(user_data) {
            Some(index) => Ok(Some(PopupAction::ArchiveRecord(index))),
            None => Err(InvalidIndex),
        }
    } else if action == "plan-record"@ {
        match parsed_index(user_data) {
            Some(index) => Ok(Some(PopupAction::PlanRecord(index))),
            None => Err(InvalidIndex),
        }
    } else if action == "remove-archive"@ {
        Ok(Some(PopupAction::ConfirmRemoveArchive))
    } else if action == "recover-archive"@ {
        match parsed_index(user_data) {
            Some(index) => Ok(Some(PopupAction::RecoverArchive(index))),
            None => Err(InvalidIndex),
        }
    } else {
        Ok(None)
    }
}

/// What a confirmed dialog asks for; see [`confirmed`].
pub fn handle_confirm_dialog(handle_type: &str, user_data: &str) -> (result: Result<
    Option<ConfirmedAction>,
    InvalidIndex,
>)
    ensures
        result == confirmed(handle_type@, user_data@),
{
    if same_text(handle_type, "remove-all-cache") {
        Ok(Some(ConfirmedAction::RemoveAllCache))
    } else if same_text(handle_type, "close-window") {
        Ok(Some(ConfirmedAction::CloseWindow))
    } else if same_text(handle_type, "remove-record") {
        match parse_index(user_data) {
            Some(index) => Ok(Some(ConfirmedAction::RemoveRecord(index))),
            None => Err(InvalidIndex),
        }
    } else if same_text(handle_type, "remove-archive") {
        match parse_index(user_data) {
            Some(index) => Ok(Some(ConfirmedAction::RemoveArchive(index))),
            None => Err(InvalidIndex),
        }
    } else if same_text(handle_type, "ai-generate-record-plans") {
        Ok(Some(ConfirmedAction::GenerateRecordPlans))
    } else if same_text(handle_type, "remove-record-plan") {
        match parse_index(user_data) {
            Some(index) => Ok(Some(ConfirmedAction::RemoveRecordPlan(index))),
            None => Err(InvalidIndex),
        }
    } else if same_text(handle_type, "remove-all-record-plans") {
        Ok(Some(ConfirmedAction::RemoveAllRecordPlans))
    } else {
        Ok(None)
    }
}

/// What an entry of the record menu asks for; see [`chosen`].
pub fn handle_popup_action(action: &str, user_data: &str) -> (result: Result<
    Option<PopupAction>,
    InvalidIndex,
>)
    ensures
        result == chosen(action@, user_data@),
{
    if same_text(action, "remove-all-cache") {
        Ok(Some(PopupAction::RemoveAllCache))
    } else if same_text(action, "edit-record") {
        match parse_index(user_data) {
            Some(index) => Ok(Some(PopupAction::EditRecord(index))),
            None => Err(InvalidIndex),
        }
    } else if same_text(action, "remove-record") {
        Ok(Some(PopupAction::ConfirmRemoveRecord))
    } else if same_text(action, "archive-record") {
        match parse_index(user_data) {
            Some(index) => Ok(Some(PopupAction::ArchiveRecord(index))),
            None => Err(InvalidIndex),
        }
    } else if same_text(action, "plan-record") {
        match parse_index(user_data) {
            Some(index) => Ok(Some(PopupAction::PlanRecord(index))),
            None => Err(InvalidIndex),
        }
    } else if same_text(action, "remove-archive") {
        Ok(Some(PopupAction::ConfirmRemoveArchive))
    } else if same_text(action, "recover-archive") {
        match parse_index(user_data) {
            Some(index) => Ok(Some(PopupAction::RecoverArchive(index))),
            None => Err(InvalidIndex),
        }
    } else {
        Ok(None)
    }
}

} // verus!
