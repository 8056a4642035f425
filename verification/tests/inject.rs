use teams_usb_fix::inject::{
    dll_candidate, find_teams_pids, inject_error_message, is_dll_loaded, leak_warning, remote_path,
    resolve_dll_path, thread_finished, InjectError, InjectStep, ProcessEntry,
};
use teams_usb_fix::wide::to_wide;

fn entry(name: &str, pid: u32) -> ProcessEntry {
    let mut exe_file = to_wide(name);
    exe_file.resize(260, 0);
    ProcessEntry { exe_file, pid }
}

fn trace(failing: &[InjectStep]) -> Vec<InjectStep> {
    let mut step = InjectStep::OpenProcess;
    let mut steps = vec![step];
    while !matches!(step, InjectStep::Done | InjectStep::Failed(_)) {
        step = step.next(!failing.contains(&step));
        steps.push(step);
    }
    steps
}

#[test]
fn processes_are_found_by_name() {
    let entries = vec![
        entry("explorer.exe", 1),
        entry("ms-teams.exe", 20),
        entry("MS-TEAMS.exe", 30),
        entry("ms-teams.exe.bak", 4),
        entry("", 5),
        entry("ms-teams.exe", 10),
    ];
    assert_eq!(find_teams_pids(&entries), vec![20u32, 30, 10]);
    assert_eq!(find_teams_pids(&vec![]), Vec::<u32>::new());
}

#[test]
fn process_names_end_at_the_null() {
    let mut exe_file = to_wide("ms-teams.exe");
    exe_file.extend(to_wide("rest"));
    assert_eq!(find_teams_pids(&vec![ProcessEntry { exe_file, pid: 9 }]), vec![9u32]);
}

#[test]
fn modules_are_found_by_name() {
    let modules = vec![to_wide("kernel32.dll"), to_wide("Teams_USB_Fix.DLL")];
    assert!(is_dll_loaded(&modules, "teams_usb_fix.dll"));
    assert!(!is_dll_loaded(&modules, "teams_usb_fix"));
    assert!(!is_dll_loaded(&vec![], "teams_usb_fix.dll"));
}

#[test]
fn names_are_compared_whole() {
    let entries = vec![
        entry("\u{16d}s-teams.exe", 5),
        entry("MS-Teams.EXE", 7),
        entry("ms-teams.exe.bak", 9),
        entry("\u{1f600}", 11),
    ];
    assert_eq!(find_teams_pids(&entries), vec![7u32]);
    let modules = vec![to_wide("\u{174}eams_usb_fix.dll")];
    assert!(!is_dll_loaded(&modules, "teams_usb_fix.dll"));
}

#[test]
fn library_is_looked_for_beside_the_program() {
    assert_eq!(dll_candidate("C:\\fix"), "C:\\fix\\teams_usb_fix.dll");
    assert_eq!(dll_candidate("C:\\"), "C:\\teams_usb_fix.dll");
    assert_eq!(dll_candidate("//host/share/"), "//host/share/teams_usb_fix.dll");
    assert_eq!(dll_candidate("C:"), "C:teams_usb_fix.dll");
    assert_eq!(dll_candidate("\u{e9}:"), "\u{e9}:\\teams_usb_fix.dll");
    assert_eq!(dll_candidate(""), "teams_usb_fix.dll");
}

#[test]
fn library_path_needs_the_file() {
    let dir = Some("C:\\fix".to_string());
    assert_eq!(
        resolve_dll_path(dir.clone(), true),
        Some("C:\\fix\\teams_usb_fix.dll".to_string())
    );
    assert_eq!(resolve_dll_path(dir, false), None);
    assert_eq!(resolve_dll_path(None, true), None);
}

#[test]
fn path_is_handed_over_with_its_terminator() {
    assert_eq!(remote_path("C:"), vec![b'C', 0, b':', 0, 0, 0]);
}

#[test]
fn injection_that_goes_well() {
    assert_eq!(
        trace(&[]),
        vec![
            InjectStep::OpenProcess,
            InjectStep::Allocate,
            InjectStep::WritePath,
            InjectStep::FindKernel32,
            InjectStep::FindLoadLibrary,
            InjectStep::StartThread,
            InjectStep::Wait,
            InjectStep::Free,
            InjectStep::CloseThread,
            InjectStep::CloseProcess,
            InjectStep::Done,
        ]
    );
}

#[test]
fn memory_is_left_to_a_thread_that_has_not_finished() {
    let steps = trace(&[InjectStep::Wait]);
    assert!(steps.contains(&InjectStep::Leak));
    assert!(!steps.contains(&InjectStep::Free));
    assert_eq!(steps.last(), Some(&InjectStep::Done));
    assert!(thread_finished(0));
    assert!(!thread_finished(0x102));
}

#[test]
fn failed_injections_clean_up() {
    assert_eq!(
        trace(&[InjectStep::Allocate])[2..],
        [InjectStep::Abandon(InjectError::Allocate), InjectStep::Failed(InjectError::Allocate)]
    );
    assert_eq!(
        trace(&[InjectStep::WritePath])[3..],
        [
            InjectStep::FreeUnwritten,
            InjectStep::Abandon(InjectError::WritePath),
            InjectStep::Failed(InjectError::WritePath),
        ]
    );
}

#[test]
fn injections_fail_at_the_first_failure() {
    let cases = [
        (InjectStep::OpenProcess, InjectError::OpenProcess),
        (InjectStep::Allocate, InjectError::Allocate),
        (InjectStep::WritePath, InjectError::WritePath),
        (InjectStep::FindKernel32, InjectError::FindKernel32),
        (InjectStep::FindLoadLibrary, InjectError::FindLoadLibrary),
        (InjectStep::StartThread, InjectError::StartThread),
    ];
    for (step, error) in cases {
        assert_eq!(trace(&[step]).last(), Some(&InjectStep::Failed(error)));
    }
}

#[test]
fn injection_messages() {
    assert_eq!(inject_error_message(InjectError::OpenProcess, 12, "denied"), "OpenProcess(12): denied");
    assert_eq!(inject_error_message(InjectError::Allocate, 12, "x"), "VirtualAllocEx failed");
    assert_eq!(inject_error_message(InjectError::WritePath, 12, "x"), "WriteProcessMemory failed");
    assert_eq!(inject_error_message(InjectError::FindKernel32, 12, "x"), "GetModuleHandle(kernel32): x");
    assert_eq!(inject_error_message(InjectError::FindLoadLibrary, 12, "x"), "GetProcAddress(LoadLibraryW) failed");
    assert_eq!(inject_error_message(InjectError::StartThread, 12, "x"), "CreateRemoteThread: x");
    assert_eq!(
        leak_warning(77),
        "  WARN: LoadLibraryW timed out in PID 77, leaking remote allocation to avoid corruption"
    );
}
