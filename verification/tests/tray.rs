use teams_usb_fix::tray::{
    got_message, menu_items, relay_action, status_text, tray_action, RelayAction, RelayEvent,
    TrayAction, TrayError, TrayStep,
};
use teams_usb_fix::watcher::WatcherState;

#[test]
fn window_messages() {
    assert_eq!(tray_action(0x401, 0, 0x205), TrayAction::ShowMenu);
    assert_eq!(tray_action(0x401, 0, 0x7_0205), TrayAction::ShowMenu);
    assert_eq!(tray_action(0x401, 0, 0x204), TrayAction::Nothing);
    assert_eq!(tray_action(0x111, 1001, 0), TrayAction::ShowStatus);
    assert_eq!(tray_action(0x111, 0x5_0000 + 1002, 0), TrayAction::OpenLog);
    assert_eq!(tray_action(0x111, 1003, 0), TrayAction::Exit);
    assert_eq!(tray_action(0x111, 1004, 0), TrayAction::Nothing);
    assert_eq!(tray_action(0x402, 0, 0), TrayAction::ShowBalloon);
    assert_eq!(tray_action(2, 0, 0), TrayAction::Quit);
    assert_eq!(tray_action(0x400, 0, 0), TrayAction::Default);
}

#[test]
fn mouse_event_of_a_negative_parameter() {
    for lparam in [-1isize, -65536 + 0x205, isize::MIN + 0x205] {
        let right_button = (lparam as u32 & 0xFFFF) == 0x205;
        assert_eq!(tray_action(0x401, 0, lparam) == TrayAction::ShowMenu, right_button);
    }
    assert_eq!(tray_action(0x401, 0, -65536 + 0x205), TrayAction::ShowMenu);
}

#[test]
fn menu_leads_to_its_actions() {
    let items = menu_items();
    assert_eq!(items, vec![(1001usize, "Status"), (1002, "Open Log"), (1003, "Exit")]);
    let actions: Vec<TrayAction> = items.iter().map(|item| tray_action(0x111, item.0, 0)).collect();
    assert_eq!(actions, vec![TrayAction::ShowStatus, TrayAction::OpenLog, TrayAction::Exit]);
}

#[test]
fn status_display() {
    let state = WatcherState {
        injected_count: 2,
        last_injection: Some("PID 1234 at 16:30".to_string()),
        broken_devices: 1,
    };
    assert_eq!(
        status_text(Some(&state), true),
        "Teams USB Fix \u{2014} Status\n\nInjections: 2\nLast injection: PID 1234 at 16:30\nBroken USB devices: 1\nTeams running: Yes"
    );
    assert_eq!(
        status_text(Some(&WatcherState::new()), false),
        "Teams USB Fix \u{2014} Status\n\nInjections: 0\nLast injection: (none yet)\nBroken USB devices: 0\nTeams running: No"
    );
    assert_eq!(status_text(None, true), status_text(Some(&WatcherState::new()), false));
}

fn run(failing: Option<TrayStep>) -> Vec<TrayStep> {
    let mut step = TrayStep::RegisterClass;
    let mut steps = vec![step];
    while !matches!(step, TrayStep::Exited | TrayStep::Failed(_)) {
        step = step.next(Some(step) != failing);
        steps.push(step);
    }
    steps
}

#[test]
fn steps_of_the_tray() {
    let all = vec![
        TrayStep::RegisterClass,
        TrayStep::CreateWindow,
        TrayStep::AddIcon,
        TrayStep::StartWatch,
        TrayStep::HandleMessages,
        TrayStep::RemoveIcon,
        TrayStep::Exited,
    ];
    assert_eq!(run(None), all);
    assert_eq!(run(Some(TrayStep::AddIcon)), all);
    assert_eq!(run(Some(TrayStep::RegisterClass)).last(), Some(&TrayStep::Failed(TrayError::RegisterClass)));
    assert_eq!(run(Some(TrayStep::CreateWindow)).last(), Some(&TrayStep::Failed(TrayError::CreateWindow)));
}

#[test]
fn notes_of_the_tray() {
    assert_eq!(
        TrayStep::RegisterClass.note(false, "x"),
        Some("ERROR: RegisterClassExW failed for tray window".to_string())
    );
    assert_eq!(
        TrayStep::CreateWindow.note(false, "x"),
        Some("ERROR: CreateWindowExW failed for tray window: x".to_string())
    );
    assert_eq!(
        TrayStep::AddIcon.note(false, "x"),
        Some("WARNING: Shell_NotifyIconW NIM_ADD failed (tray icon may not appear)".to_string())
    );
    assert_eq!(TrayStep::RemoveIcon.note(true, ""), Some("Tray mode exited".to_string()));
    assert_eq!(TrayStep::AddIcon.note(true, "x"), None);
    assert_eq!(TrayStep::StartWatch.note(false, "x"), None);
}

#[test]
fn relay_between_watch_and_tray() {
    assert_eq!(relay_action(RelayEvent::Notice, false), RelayAction::Post);
    assert_eq!(relay_action(RelayEvent::Timeout, true), RelayAction::Continue);
    assert_eq!(relay_action(RelayEvent::Timeout, false), RelayAction::StopWatch);
    assert_eq!(relay_action(RelayEvent::Disconnected, true), RelayAction::Stop);
}

#[test]
fn end_of_the_message_loop() {
    assert!(got_message(1));
    assert!(!got_message(0));
    assert!(!got_message(-1));
}
