use tasklog::dialog::{
    handle_confirm_dialog, handle_popup_action, ConfirmedAction, InvalidIndex, PopupAction,
};

#[test]
fn confirm_dialog_names() {
    assert_eq!(
        handle_confirm_dialog("remove-all-cache", ""),
        Ok(Some(ConfirmedAction::RemoveAllCache))
    );
    assert_eq!(
        handle_confirm_dialog("close-window", "whatever"),
        Ok(Some(ConfirmedAction::CloseWindow))
    );
    assert_eq!(
        handle_confirm_dialog("remove-record", "12"),
        Ok(Some(ConfirmedAction::RemoveRecord(12)))
    );
    assert_eq!(
        handle_confirm_dialog("remove-archive", "0"),
        Ok(Some(ConfirmedAction::RemoveArchive(0)))
    );
    assert_eq!(
        handle_confirm_dialog("ai-generate-record-plans", ""),
        Ok(Some(ConfirmedAction::GenerateRecordPlans))
    );
    assert_eq!(
        handle_confirm_dialog("remove-record-plan", "-1"),
        Ok(Some(ConfirmedAction::RemoveRecordPlan(-1)))
    );
    assert_eq!(
        handle_confirm_dialog("remove-all-record-plans", "3"),
        Ok(Some(ConfirmedAction::RemoveAllRecordPlans))
    );
}

#[test]
fn confirm_dialog_unknown_name_is_ignored() {
    assert_eq!(handle_confirm_dialog("", "1"), Ok(None));
    assert_eq!(handle_confirm_dialog("Remove-Record", "1"), Ok(None));
    assert_eq!(handle_confirm_dialog("edit-record", "1"), Ok(None));
}

#[test]
fn confirm_dialog_needs_a_number_for_a_position() {
    for name in ["remove-record", "remove-archive", "remove-record-plan"] {
        for text in ["", "x", "1.5", " 1", "99999999999"] {
            assert_eq!(handle_confirm_dialog(name, text), Err(InvalidIndex), "{} {:?}", name, text);
        }
    }
    assert_eq!(
        handle_confirm_dialog("remove-record", "+7"),
        Ok(Some(ConfirmedAction::RemoveRecord(7)))
    );
    assert_eq!(
        handle_confirm_dialog("remove-record", "2147483647"),
        Ok(Some(ConfirmedAction::RemoveRecord(i32::MAX)))
    );
}

#[test]
fn popup_action_names() {
    assert_eq!(handle_popup_action("remove-all-cache", ""), Ok(Some(PopupAction::RemoveAllCache)));
    assert_eq!(handle_popup_action("edit-record", "4"), Ok(Some(PopupAction::EditRecord(4))));
    assert_eq!(
        handle_popup_action("remove-record", "not read"),
        Ok(Some(PopupAction::ConfirmRemoveRecord))
    );
    assert_eq!(handle_popup_action("archive-record", "2"), Ok(Some(PopupAction::ArchiveRecord(2))));
    assert_eq!(handle_popup_action("plan-record", "1"), Ok(Some(PopupAction::PlanRecord(1))));
    assert_eq!(
        handle_popup_action("remove-archive", "5"),
        Ok(Some(PopupAction::ConfirmRemoveArchive))
    );
    assert_eq!(
        handle_popup_action("recover-archive", "5"),
        Ok(Some(PopupAction::RecoverArchive(5)))
    );
    assert_eq!(handle_popup_action("close-window", "5"), Ok(None));
}

#[test]
fn popup_action_needs_a_number_for_a_position() {
    for name in ["edit-record", "archive-record", "plan-record", "recover-archive"] {
        assert_eq!(handle_popup_action(name, "first"), Err(InvalidIndex));
        assert_eq!(handle_popup_action(name, ""), Err(InvalidIndex));
    }
}
