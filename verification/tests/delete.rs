use hostlist::host::Host;
use hostlist::window::delete::{
    AppKeyAction, DeletePopupWindow, OnKeyPressData, PopupKey, ShowData,
};

fn h(name: &str) -> Host {
    Host::new(name.to_string(), format!("{}.example.org", name))
}

fn abc() -> Vec<Host> {
    vec![h("a"), h("b"), h("c")]
}

#[test]
fn starts_inactive_with_confirm_preselected() {
    let mut popup: DeletePopupWindow<Host> = DeletePopupWindow::default();
    assert!(!popup.is_active());
    popup.show(ShowData::new(abc(), 1, h("b")));
    assert!(popup.is_active());
    popup.deactivate();
    assert!(!popup.is_active());
    popup.toggle();
    assert!(popup.is_active());
}

#[test]
fn confirm_deletes_exactly_the_target_and_requests_a_save() {
    let mut popup: DeletePopupWindow<Host> = DeletePopupWindow::default();
    popup.show(ShowData::new(abc(), 1, h("b")));
    let mut data = OnKeyPressData::new(abc());
    let (action, to_save) = popup.on_key_press(PopupKey::Enter, &mut data);
    assert_eq!(action, AppKeyAction::Handled);
    assert_eq!(to_save, Some(vec![h("a"), h("c")]));
    assert_eq!(data.hosts, vec![h("a"), h("c")]);
    assert!(!popup.is_active());
}

#[test]
fn cancel_at_accept_time_deletes_nothing() {
    let mut popup: DeletePopupWindow<Host> = DeletePopupWindow::default();
    popup.show(ShowData::new(abc(), 1, h("b")));
    popup.next();
    let mut data = OnKeyPressData::new(abc());
    let (action, to_save) = popup.on_key_press(PopupKey::Enter, &mut data);
    assert_eq!(action, AppKeyAction::Continue);
    assert_eq!(to_save, None);
    assert_eq!(data.hosts, abc());
    assert!(!popup.is_active());
}

#[test]
fn dismiss_leaves_the_collection_untouched() {
    for cursor_on_cancel in [false, true] {
        let mut popup: DeletePopupWindow<Host> = DeletePopupWindow::default();
        popup.show(ShowData::new(abc(), 0, h("a")));
        if cursor_on_cancel {
            popup.next();
        }
        let mut data = OnKeyPressData::new(abc());
        let (action, to_save) = popup.on_key_press(PopupKey::Esc, &mut data);
        assert_eq!(action, AppKeyAction::Handled);
        assert_eq!(to_save, None);
        assert_eq!(data.hosts, abc());
        assert!(!popup.is_active());
    }
}

#[test]
fn left_and_right_move_the_cursor_while_active() {
    let mut popup: DeletePopupWindow<Host> = DeletePopupWindow::default();
    popup.show(ShowData::new(abc(), 1, h("b")));
    let mut data = OnKeyPressData::new(abc());
    // move to cancel, then accept: nothing deleted
    let (action, to_save) = popup.on_key_press(PopupKey::Right, &mut data);
    assert_eq!(action, AppKeyAction::Handled);
    assert_eq!(to_save, None);
    let (_, to_save) = popup.on_key_press(PopupKey::Enter, &mut data);
    assert_eq!(to_save, None);
    assert_eq!(data.hosts, abc());
    // show again, move right then back left, then accept: target deleted
    popup.show(ShowData::new(abc(), 1, h("b")));
    popup.on_key_press(PopupKey::Right, &mut data);
    popup.on_key_press(PopupKey::Left, &mut data);
    let (action, to_save) = popup.on_key_press(PopupKey::Enter, &mut data);
    assert_eq!(action, AppKeyAction::Handled);
    assert_eq!(to_save, Some(vec![h("a"), h("c")]));
    assert_eq!(data.hosts, vec![h("a"), h("c")]);
}

#[test]
fn other_keys_pass_through_unchanged() {
    let mut popup: DeletePopupWindow<Host> = DeletePopupWindow::default();
    popup.show(ShowData::new(abc(), 2, h("c")));
    let mut data = OnKeyPressData::new(abc());
    let (action, to_save) = popup.on_key_press(PopupKey::Other, &mut data);
    assert_eq!(action, AppKeyAction::Continue);
    assert_eq!(to_save, None);
    assert_eq!(data.hosts, abc());
    assert!(popup.is_active());
}

#[test]
fn deleting_first_and_last_records() {
    let mut popup: DeletePopupWindow<Host> = DeletePopupWindow::default();
    popup.show(ShowData::new(abc(), 0, h("a")));
    let mut data = OnKeyPressData::new(abc());
    let (_, to_save) = popup.on_key_press(PopupKey::Enter, &mut data);
    assert_eq!(to_save, Some(vec![h("b"), h("c")]));

    popup.show(ShowData::new(abc(), 2, h("c")));
    let mut data = OnKeyPressData::new(abc());
    let (_, to_save) = popup.on_key_press(PopupKey::Enter, &mut data);
    assert_eq!(to_save, Some(vec![h("a"), h("b")]));
}

#[test]
fn confirm_commits_against_the_captured_snapshot() {
    // The live collection may drift after `show`; the workflow must commit
    // against what it captured.
    let mut popup: DeletePopupWindow<Host> = DeletePopupWindow::default();
    popup.show(ShowData::new(abc(), 1, h("b")));
    let mut data = OnKeyPressData::new(vec![h("x"), h("y")]);
    let (_, to_save) = popup.on_key_press(PopupKey::Enter, &mut data);
    assert_eq!(to_save, Some(vec![h("a"), h("c")]));
    assert_eq!(data.hosts, vec![h("a"), h("c")]);
}
