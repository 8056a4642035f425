use teams_usb_fix::logging::LocalTime;
use teams_usb_fix::preflight::BrokenDevice;
use teams_usb_fix::watcher::{
    injection_notice, preflight_lines, started_message, Watch, WatchAction, WatchNote, WatchReply,
    WatcherState,
};

fn bare(yes: bool) -> WatchReply {
    WatchReply { yes, pids: vec![] }
}

fn look(watch: Watch, pids: &[u32]) -> (Watch, WatchNote) {
    assert_eq!(watch.action(), WatchAction::CheckRunning);
    let (watch, _) = watch.advance(&bare(true));
    assert_eq!(watch.action(), WatchAction::FindProcesses);
    watch.advance(&WatchReply { yes: false, pids: pids.to_vec() })
}

fn rest(watch: Watch) -> Watch {
    assert_eq!(watch.action(), WatchAction::Rest);
    watch.advance(&bare(false)).0
}

#[test]
fn new_processes_are_fixed_once() {
    let (watch, note) = look(Watch::new(), &[5, 6, 7]);
    assert_eq!(note, WatchNote::NewProcesses);
    assert_eq!(watch.message(note, ""), Some("New Teams process(es) detected: [5, 6, 7]".to_string()));
    assert_eq!(watch.action(), WatchAction::Settle);
    let (watch, _) = watch.advance(&bare(false));
    assert_eq!(watch.action(), WatchAction::CheckLoaded(5));
    let (watch, note) = watch.advance(&bare(true));
    assert_eq!(note, WatchNote::AlreadyInjected(5));
    assert_eq!(watch.action(), WatchAction::CheckLoaded(6));
    let (watch, note) = watch.advance(&bare(false));
    assert_eq!(note, WatchNote::Quiet);
    assert_eq!(watch.action(), WatchAction::Inject(6));
    let (watch, note) = watch.advance(&bare(true));
    assert_eq!(note, WatchNote::Injected(6));
    let (watch, _) = watch.advance(&bare(false));
    assert_eq!(watch.action(), WatchAction::Inject(7));
    let (watch, note) = watch.advance(&bare(false));
    assert_eq!(note, WatchNote::Failed(7));
    let watch = rest(watch);

    let (watch, note) = look(watch, &[5, 6, 7]);
    assert_eq!(note, WatchNote::NewProcesses);
    assert_eq!(watch.message(note, ""), Some("New Teams process(es) detected: [7]".to_string()));
}

#[test]
fn restarted_process_is_new_again() {
    let (watch, _) = look(Watch::new(), &[5]);
    let (watch, _) = watch.advance(&bare(false));
    let (watch, note) = watch.advance(&bare(true));
    assert_eq!(note, WatchNote::AlreadyInjected(5));
    let (watch, note) = look(rest(watch), &[5]);
    assert_eq!(note, WatchNote::Quiet);
    let (watch, note) = look(rest(watch), &[]);
    assert_eq!(note, WatchNote::Quiet);
    let (watch, note) = look(rest(watch), &[5]);
    assert_eq!(note, WatchNote::NewProcesses);
    assert_eq!(watch.action(), WatchAction::Settle);
}

#[test]
fn only_processes_of_the_latest_look_are_touched() {
    let looks: [&[u32]; 4] = [&[1, 2], &[2, 3], &[], &[4]];
    let mut watch = Watch::new();
    let mut touched = Vec::new();
    for look_at in looks {
        let mut next = look(watch, look_at).0;
        while next.action() != WatchAction::Rest {
            if let WatchAction::CheckLoaded(pid) | WatchAction::Inject(pid) = next.action() {
                assert!(look_at.contains(&pid));
                touched.push(pid);
            }
            let yes = matches!(next.action(), WatchAction::Inject(1));
            next = next.advance(&bare(yes)).0;
        }
        watch = rest(next);
    }
    assert_eq!(touched, vec![1u32, 1, 2, 2, 2, 2, 3, 3, 4, 4]);
}

#[test]
fn watch_needs_the_library() {
    let (watch, message) = Watch::begin(&None);
    assert!(watch.is_none());
    assert_eq!(message, "ERROR: teams_usb_fix.dll not found next to this executable. Exiting.");
    let (watch, message) = Watch::begin(&Some("C:\\x.dll".to_string()));
    assert_eq!(watch.unwrap().action(), WatchAction::CheckRunning);
    assert_eq!(message, "Started watching for ms-teams.exe (DLL: C:\\x.dll)");
}

fn batch(watch: Watch, pids: &[u32], loaded: &[u32], injected: &[u32]) -> (Watch, Vec<WatchNote>) {
    let mut notes = Vec::new();
    let mut watch = look(watch, pids).0;
    while watch.action() != WatchAction::Rest {
        let yes = match watch.action() {
            WatchAction::CheckLoaded(pid) => loaded.contains(&pid),
            WatchAction::Inject(pid) => injected.contains(&pid),
            _ => false,
        };
        let (next, note) = watch.advance(&bare(yes));
        watch = next;
        if note != WatchNote::Quiet {
            notes.push(note);
        }
    }
    (rest(watch), notes)
}

#[test]
fn processes_over_several_looks() {
    let (watch, notes) = batch(Watch::new(), &[1, 2, 3], &[3], &[1]);
    assert_eq!(
        notes,
        vec![WatchNote::Injected(1), WatchNote::Failed(2), WatchNote::AlreadyInjected(3)]
    );
    // A fixed process is left alone, a failed one is tried again.
    let (watch, notes) = batch(watch, &[1, 2, 3], &[], &[1, 2, 3]);
    assert_eq!(notes, vec![WatchNote::Injected(2)]);
    let (watch, notes) = batch(watch, &[1, 3, 4], &[], &[4]);
    assert_eq!(notes, vec![WatchNote::Injected(4)]);
    // One that was missed by a look is fixed again.
    let (_, notes) = batch(watch, &[1, 2, 4], &[], &[1, 2, 4]);
    assert_eq!(notes, vec![WatchNote::Injected(2)]);
}

#[test]
fn injections_are_counted_and_nothing_else() {
    let time = LocalTime { year: 2026, month: 3, day: 1, hour: 16, minute: 30, second: 5, millis: 42 };
    let (watch, mut notes) = batch(Watch::new(), &[1, 2, 3], &[3], &[1]);
    notes.extend(batch(watch, &[1, 2, 3], &[], &[2]).1);
    let mut state = WatcherState::new();
    let mut notices = Vec::new();
    for note in notes {
        state.record(note, &time);
        notices.extend(injection_notice(note));
    }
    assert_eq!(state.injected_count, 2);
    assert_eq!(state.last_injection, Some("PID 2 at 16:30".to_string()));
    assert_eq!(state.broken_devices, 0);
    assert_eq!(
        notices,
        vec!["Injected into Teams (PID 1)".to_string(), "Injected into Teams (PID 2)".to_string()]
    );
}

#[test]
fn watch_stops_when_told_to() {
    let (watch, note) = Watch::new().advance(&bare(false));
    assert_eq!(note, WatchNote::Stopped);
    assert_eq!(watch.action(), WatchAction::Stop);
    let (watch, note) = watch.advance(&bare(true));
    assert_eq!(note, WatchNote::Quiet);
    assert_eq!(watch.action(), WatchAction::Stop);
}

#[test]
fn watch_messages() {
    let watch = Watch::new();
    assert_eq!(watch.message(WatchNote::Quiet, "x"), None);
    assert_eq!(
        watch.message(WatchNote::AlreadyInjected(5), "x"),
        Some("PID 5: already injected, skipping".to_string())
    );
    assert_eq!(
        watch.message(WatchNote::Injected(5), "x"),
        Some("PID 5: injected successfully".to_string())
    );
    assert_eq!(
        watch.message(WatchNote::Failed(5), "VirtualAllocEx failed"),
        Some("PID 5: injection failed: VirtualAllocEx failed".to_string())
    );
    assert_eq!(watch.message(WatchNote::Stopped, "x"), Some("Watcher stopped".to_string()));
    assert_eq!(started_message("C:\\x.dll"), "Started watching for ms-teams.exe (DLL: C:\\x.dll)");
    assert_eq!(
        injection_notice(WatchNote::Injected(1234)),
        Some("Injected into Teams (PID 1234)".to_string())
    );
    assert_eq!(injection_notice(WatchNote::Failed(1234)), None);
    assert_eq!(injection_notice(WatchNote::AlreadyInjected(1234)), None);
}

#[test]
fn state_for_display() {
    let mut state = WatcherState::new();
    assert_eq!(state.injected_count, 0);
    assert_eq!(state.last_injection, None);
    assert_eq!(state.broken_devices, 0);
    let time = LocalTime { year: 2026, month: 3, day: 1, hour: 16, minute: 30, second: 5, millis: 42 };
    state.record(WatchNote::Injected(1234), &time);
    assert_eq!(state.injected_count, 1);
    assert_eq!(state.last_injection, Some("PID 1234 at 16:30".to_string()));
    let broken = vec![BrokenDevice {
        vid: 1,
        pid: 2,
        hub_path: "h".to_string(),
        port: 1,
        failed_string_indices: vec![2],
    }];
    state.record_broken(&broken);
    assert_eq!(state.broken_devices, 1);
    assert_eq!(state.injected_count, 1);
}

#[test]
fn report_before_the_watch() {
    assert_eq!(
        preflight_lines(&vec![]),
        vec!["Preflight: no USB devices with broken string descriptors detected".to_string()]
    );
    let broken = vec![BrokenDevice {
        vid: 1,
        pid: 2,
        hub_path: "h".to_string(),
        port: 3,
        failed_string_indices: vec![2],
    }];
    assert_eq!(
        preflight_lines(&broken),
        vec![
            "Preflight: 1 device(s) with broken string descriptors:".to_string(),
            "  Preflight: VID:0001 PID:0002  port 3  hub: h  failed indices: [2]".to_string(),
        ]
    );
}
