use vm_rust::cast_member::ButtonType;
use vm_rust::commands::{
    drag_position, has_executable_callback, hilite_after_mouse_down, hilite_after_mouse_up, hover_events, is_double_click,
    mouse_up_event_name, timeout_event, ScriptReceiver,
};
use vm_rust::datum::{CastMemberRef, ScriptError, ScriptErrorCode};
use vm_rust::datum_ref::DatumRef;
use vm_rust::events::{
    event_loop_defers, player_dispatch_callback_event, player_dispatch_event_to_sprite, player_dispatch_global_event,
    player_dispatch_targeted_event, player_unwrap_result, scheduled_timeout_targets, PlayerVMEvent, ScriptInstanceRef,
};

#[test]
fn global_and_callback_events() {
    let args = vec![DatumRef::Ref(4), DatumRef::Void];
    match player_dispatch_global_event("mouseUp", &args) {
        PlayerVMEvent::Global(name, a) => {
            assert_eq!(name, "mouseUp");
            assert_eq!(a.len(), 2);
        }
        _ => panic!("expected a global event"),
    }
    match player_dispatch_callback_event(DatumRef::Ref(9), "onTimer", &args) {
        PlayerVMEvent::Callback(r, name, _) => {
            assert_eq!(r.unwrap(), 9);
            assert_eq!(name, "onTimer");
        }
        _ => panic!("expected a callback event"),
    }
}

#[test]
fn targeted_events() {
    let ids = vec![ScriptInstanceRef { id: 3 }];
    match player_dispatch_targeted_event("beginSprite", &vec![], Some(&ids)) {
        PlayerVMEvent::Targeted(name, _, Some(t)) => {
            assert_eq!(name, "beginSprite");
            assert_eq!(t[0].id, 3);
        }
        _ => panic!("expected a targeted event"),
    }
    assert!(player_dispatch_event_to_sprite("mouseDown", &vec![], 5, None).is_none());
    assert!(matches!(
        player_dispatch_event_to_sprite("mouseDown", &vec![], 5, Some(ids)),
        Some(PlayerVMEvent::Targeted(_, _, Some(_)))
    ));
}

#[test]
fn unwrap_result_reports_all_but_aborts() {
    let (v, err) = player_unwrap_result(Ok(DatumRef::Ref(2)));
    assert_eq!(v.unwrap(), 2);
    assert!(err.is_none());
    let (v, err) = player_unwrap_result(Err(ScriptError::new("boom".to_string())));
    assert_eq!(v.unwrap(), 0);
    assert_eq!(err.unwrap().message, "boom");
    let abort = ScriptError { code: ScriptErrorCode::Abort, message: "abort".to_string() };
    let (_, err) = player_unwrap_result(Err(abort));
    assert!(err.is_none());
}

#[test]
fn comment_callbacks_do_not_block_events() {
    assert!(!has_executable_callback(&None));
    assert!(!has_executable_callback(&Some(ScriptReceiver::ScriptText("  --nothing ".to_string()))));
    assert!(!has_executable_callback(&Some(ScriptReceiver::ScriptText(" \t\n".to_string()))));
    assert!(has_executable_callback(&Some(ScriptReceiver::ScriptText(" beep ".to_string()))));
    assert!(has_executable_callback(&Some(ScriptReceiver::ScriptText("-x".to_string()))));
    assert!(has_executable_callback(&Some(ScriptReceiver::Script(CastMemberRef { cast_lib: 1, cast_member: 2 }))));
    assert!(has_executable_callback(&Some(ScriptReceiver::ScriptInstance(ScriptInstanceRef { id: 1 }))));
}

#[test]
fn buttons_hilite_on_press_and_release() {
    assert!(hilite_after_mouse_down(ButtonType::PushButton, false));
    assert!(!hilite_after_mouse_down(ButtonType::CheckBox, true));
    assert!(hilite_after_mouse_down(ButtonType::CheckBox, false));
    assert!(hilite_after_mouse_down(ButtonType::RadioButton, true));
    assert!(!hilite_after_mouse_up(ButtonType::PushButton, true));
    assert!(hilite_after_mouse_up(ButtonType::CheckBox, true));
}

#[test]
fn double_clicks_and_mouse_up_names() {
    assert!(is_double_click(1_000_400, 1_000_000));
    assert!(!is_double_click(1_000_500, 1_000_000));
    assert_eq!(mouse_up_event_name(Some(true)), "mouseUp");
    assert_eq!(mouse_up_event_name(None), "mouseUp");
    assert_eq!(mouse_up_event_name(Some(false)), "mouseUpOutSide");
}

#[test]
fn hovering() {
    assert_eq!(hover_events(None, Some(3)), (Some(3), vec![("mouseEnter", 3u16)]));
    assert_eq!(hover_events(Some(3), Some(3)), (Some(3), vec![("mouseWithin", 3u16)]));
    assert_eq!(hover_events(Some(3), Some(5)), (Some(5), vec![("mouseLeave", 3u16), ("mouseEnter", 5u16)]));
    assert_eq!(hover_events(Some(3), None), (Some(3), vec![]));
}

#[test]
fn dragging_stays_in_bounds() {
    assert_eq!(drag_position(10, 10, (5, -5), (0, 0, 100, 100)), (15, 5));
    assert_eq!(drag_position(200, -50, (0, 0), (0, 0, 100, 100)), (100, 0));
}

#[test]
fn fired_timeouts() {
    let args = vec![DatumRef::Ref(12)];
    assert!(timeout_event(false, true, false, DatumRef::Void, "tick", &args).is_none());
    assert!(timeout_event(true, false, false, DatumRef::Void, "tick", &args).is_none());
    assert!(timeout_event(true, true, true, DatumRef::Void, "tick", &args).is_none());
    assert!(matches!(timeout_event(true, true, false, DatumRef::Void, "tick", &args), Some(PlayerVMEvent::Global(_, _))));
    assert!(matches!(
        timeout_event(true, true, false, DatumRef::Ref(4), "tick", &args),
        Some(PlayerVMEvent::Callback(_, _, _))
    ));
    // A reference to id 0 is VOID.
    assert!(matches!(timeout_event(true, true, false, DatumRef::Ref(0), "tick", &args), Some(PlayerVMEvent::Global(_, _))));
}

#[test]
fn system_events_go_to_scheduled_timeouts_only() {
    let timeouts = vec![(true, DatumRef::Ref(3)), (false, DatumRef::Ref(4)), (true, DatumRef::Void)];
    let targets: Vec<usize> = scheduled_timeout_targets(&timeouts).iter().map(|r| r.unwrap()).collect();
    assert_eq!(targets, vec![3, 0]);
    assert!(event_loop_defers(true, false, false));
    assert!(event_loop_defers(false, false, true));
    assert!(!event_loop_defers(false, false, false));
}
