use teams_usb_fix::injector::{
    check_lines, found_text, outcome_text, progress_text, refusal_lines, require_dll, InjectorRun,
    Refusal, RunAction, RunNote,
};
use teams_usb_fix::preflight::BrokenDevice;

fn run(pids: &[u32], loaded: &[u32], failing: &[u32]) -> (Vec<RunNote>, bool) {
    let mut run = InjectorRun::new(pids.to_vec());
    let mut notes = Vec::new();
    loop {
        let yes = match run.action() {
            RunAction::CheckLoaded(pid) => loaded.contains(&pid),
            RunAction::Inject(pid) => {
                assert!(!loaded.contains(&pid));
                !failing.contains(&pid)
            }
            RunAction::Finish => break,
        };
        let (next, note) = run.advance(yes);
        if note != RunNote::Pending {
            notes.push(note);
        }
        run = next;
    }
    (notes, run.nothing_to_do())
}

#[test]
fn every_process_is_seen_to() {
    let (notes, nothing) = run(&[1, 2, 3], &[2], &[3]);
    assert_eq!(notes, vec![RunNote::Injected, RunNote::Skipped, RunNote::Failed]);
    assert!(!nothing);
}

#[test]
fn nothing_to_do_if_all_have_the_fix() {
    assert_eq!(run(&[1, 2], &[1, 2], &[]), (vec![RunNote::Skipped, RunNote::Skipped], true));
    assert_eq!(run(&[1, 2], &[1], &[]).1, false);
    assert_eq!(run(&[], &[], &[]), (vec![], true));
}

#[test]
fn run_texts() {
    assert_eq!(progress_text(12), "PID 12... ");
    assert_eq!(outcome_text(RunNote::Pending, "x"), "");
    assert_eq!(outcome_text(RunNote::Skipped, "x"), "SKIP (already injected)");
    assert_eq!(outcome_text(RunNote::Injected, "x"), "OK");
    assert_eq!(outcome_text(RunNote::Failed, "x"), "FAILED: x");
    assert_eq!(found_text(&vec![10, 2]), "Found 2 ms-teams.exe process(es): [10, 2]");
}

#[test]
fn report_before_the_run() {
    assert_eq!(
        check_lines(&vec![]),
        vec!["No USB devices with broken string descriptors detected. Injection may not be necessary.".to_string()]
    );
    let broken = vec![BrokenDevice {
        vid: 0xABCD,
        pid: 2,
        hub_path: "h".to_string(),
        port: 3,
        failed_string_indices: vec![1, 2, 3],
    }];
    assert_eq!(
        check_lines(&broken),
        vec![
            "Found 1 device(s) with broken string descriptors:".to_string(),
            "  VID:ABCD PID:0002  port 3  hub: h  failed indices: [1, 2, 3]".to_string(),
        ]
    );
}

#[test]
fn nothing_is_done_without_the_library() {
    assert_eq!(require_dll(Some("x.dll".to_string())), Ok("x.dll".to_string()));
    assert_eq!(require_dll(None), Err(Refusal::NoLibrary));
    assert_eq!(
        refusal_lines(Refusal::NoLibrary),
        vec![
            "ERROR: teams_usb_fix.dll not found.",
            "Place teams_usb_fix.dll next to this executable.",
        ]
    );
}

#[test]
fn there_is_no_run_without_processes() {
    assert!(matches!(InjectorRun::begin(vec![]), Err(Refusal::NotRunning)));
    assert_eq!(refusal_lines(Refusal::NotRunning), vec!["ERROR: ms-teams.exe is not running."]);
    match InjectorRun::begin(vec![8, 9]) {
        Ok(run) => assert_eq!(run.action(), RunAction::CheckLoaded(8)),
        Err(_) => panic!("refused"),
    }
}
