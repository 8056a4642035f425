//! Finding the processes to fix and loading the fix into one of them.

use vstd::prelude::*;
use crate::text::{chars_of, eq_ignore_ascii_case, push_decimal};
use crate::text::{ascii_lower, decimal, same_ignoring_case};
use crate::wide::{read_text, to_wide, wide_bytes};
use crate::wide::{law_utf16_decodes_exactly, law_utf16_round_trip};
use crate::wide::{nul_index, text_before_nul, unit_bytes, utf16, utf16_lossy};
use crate::usb::opt_text;

verus! {

/// Name of the program that is fixed.
pub const TEAMS_EXE: &'static str = "ms-teams.exe";

/// Name of the library that is loaded into it.
pub const DLL_NAME: &'static str = "teams_usb_fix.dll";

/// How long to wait for the library to be loaded, in milliseconds.
pub const LOAD_TIMEOUT_MS: u32 = 10000;

/// A running process: the name of its program, in a null-terminated buffer,
/// and its ID.
#[derive(Debug)]
pub struct ProcessEntry {
    pub exe_file: Vec<u16>,
    pub pid: u32,
}

/// Whether a process runs the program that is fixed.
pub open spec fn is_teams(entry: ProcessEntry) -> bool {
    same_ignoring_case(text_before_nul(entry.exe_file@), "ms-teams.exe"@)
}

/// The IDs of the processes that run the program, in their order.
pub open spec fn teams_pids(entries: Seq<ProcessEntry>) -> Seq<u32> {
    entries.filter(|entry: ProcessEntry| is_teams(entry)).map_values(
        |entry: ProcessEntry| entry.pid,
    )
}

/// Finds the processes that run the program. Its name counts whatever the case
/// of its letters.
pub fn find_teams_pids(entries: &Vec<ProcessEntry>) -> (pids: Vec<u32>)
    ensures
        pids@ == teams_pids(entries@),
{
    let mut pids: Vec<u32> = Vec::new();
    let mut i: usize = 0;
    proof {
        reveal(Seq::filter);
    }
    while i < entries.len()
        invariant
            i <= entries.len(),
            pids@ == teams_pids(entries@.take(i as int)),
        decreases entries.len() - i,
    {
        let name: String = read_text(&entries[i].exe_file);
        if eq_ignore_ascii_case(&name, TEAMS_EXE) {
            pids.push(entries[i].pid);
        }
        proof {
            reveal(Seq::filter);
            let longer = entries@.take(i + 1);
            assert(longer.drop_last() == entries@.take(i as int));
            assert(longer.last() == entries@[i as int]);
            assert(pids@ =~= teams_pids(longer));
        }
        i = i + 1;
    }
    assert(entries@.take(i as int) == entries@);
    pids
}

/// The processes found are exactly those that run the program.
pub proof fn law_only_teams_is_found(entries: Seq<ProcessEntry>, pid: u32)
    ensures
        teams_pids(entries).contains(pid) <==> exists|i: int|
            0 <= i < entries.len() && is_teams(#[trigger] entries[i]) && entries[i].pid == pid,
    decreases entries.len(),
{
    reveal(Seq::filter);
    let found = teams_pids(entries);
    if entries.len() > 0 {
        let shorter = entries.drop_last();
        let last = entries.last();
        law_only_teams_is_found(shorter, pid);
        let before = teams_pids(shorter);
        if is_teams(last) {
            assert(found =~= before.push(last.pid));
            assert(found[before.len() as int] == last.pid);
        } else {
            assert(found =~= before);
        }
        if before.contains(pid) {
            let k = choose|k: int| 0 <= k < before.len() && before[k] == pid;
            assert(found[k] == pid);
            let i = choose|i: int|
                0 <= i < shorter.len() && is_teams(#[trigger] shorter[i]) && shorter[i].pid == pid;
            assert(entries[i] == shorter[i]);
        }
        assert(entries[entries.len() - 1] == last);
        if exists|i: int|
            0 <= i < entries.len() && is_teams(#[trigger] entries[i]) && entries[i].pid == pid {
            let i = choose|i: int|
                0 <= i < entries.len() && is_teams(#[trigger] entries[i]) && entries[i].pid == pid;
            if i < shorter.len() {
                assert(shorter[i] == entries[i]);
            }
        }
    }
}

/// A process counts as running the program exactly if the name of its program,
/// as far as the first null, is that name letter for letter, whatever the case
/// of its letters.
pub proof fn law_teams_goes_by_its_whole_name(entry: ProcessEntry)
    ensures
        is_teams(entry) <==> exists|name: Seq<char>|
            same_ignoring_case(name, "ms-teams.exe"@) && entry.exe_file@.take(
                nul_index(entry.exe_file@) as int,
            ) == #[trigger] utf16(name),
{
    let units = entry.exe_file@.take(nul_index(entry.exe_file@) as int);
    if is_teams(entry) {
        let name = utf16_lossy(units);
        reveal_strlit("ms-teams.exe");
        assert forall|k: int| 0 <= k < name.len() implies name[k] != '\u{FFFD}' by {
            assert(ascii_lower(name[k]) == ascii_lower("ms-teams.exe"@[k]));
        }
        law_utf16_decodes_exactly(units);
        assert(units == utf16(name));
    }
    if exists|name: Seq<char>|
        same_ignoring_case(name, "ms-teams.exe"@) && units == #[trigger] utf16(name) {
        let name = choose|name: Seq<char>|
            same_ignoring_case(name, "ms-teams.exe"@) && units == #[trigger] utf16(name);
        law_utf16_round_trip(name);
    }
}

/// Whether one of the modules has the given name, whatever the case of its
/// letters.
pub open spec fn has_module(modules: Seq<Vec<u16>>, name: Seq<char>) -> bool {
    exists|i: int| 0 <= i < modules.len() && same_ignoring_case(text_before_nul(#[trigger] modules[i]@), name)
}

/// Finds out whether a library is among the modules of a process.
pub fn is_dll_loaded(modules: &Vec<Vec<u16>>, dll_name: &str) -> (loaded: bool)
    ensures
        loaded == has_module(modules@, dll_name@),
{
    let mut i: usize = 0;
    while i < modules.len()
        invariant
            i <= modules.len(),
            forall|k: int|
                0 <= k < i ==> !same_ignoring_case(text_before_nul(#[trigger] modules@[k]@), dll_name@),
        decreases modules.len() - i,
    {
        let name: String = read_text(&modules[i]);
        if eq_ignore_ascii_case(&name, dll_name) {
            assert(same_ignoring_case(text_before_nul(modules@[i as int]@), dll_name@));
            return true;
        }
        i = i + 1;
    }
    false
}

/// Whether a path ends in a separator.
pub open spec fn ends_in_separator(dir: Seq<char>) -> bool {
    dir.len() > 0 && (dir.last() == '\\' || dir.last() == '/')
}

/// Whether a path is nothing but a drive, such as `C:`.
pub open spec fn is_drive(dir: Seq<char>) -> bool {
    dir.len() == 2 && ('A' <= dir[0] <= 'Z' || 'a' <= dir[0] <= 'z') && dir[1] == ':'
}

/// The path of the file `name` in the directory `dir`: a separator stands
/// between them unless one ends the directory already, or there is no directory
/// or nothing but a drive to separate the name from.
pub open spec fn path_in(dir: Seq<char>, name: Seq<char>) -> Seq<char> {
    if dir.len() == 0 || ends_in_separator(dir) || is_drive(dir) {
        dir + name
    } else {
        dir + "\\"@ + name
    }
}

/// The path at which the library is looked for: in the given directory.
pub fn dll_candidate(dir: &str) -> (path: String)
    ensures
        path@ == path_in(dir@, DLL_NAME@),
{
    let chars: Vec<char> = chars_of(dir);
    let n: usize = chars.len();
    let mut path: String = String::new();
    path.append(dir);
    if n > 0 && chars[n - 1] != '\\' && chars[n - 1] != '/' {
        let drive: bool = n == 2 && (('A' <= chars[0] && chars[0] <= 'Z') || ('a' <= chars[0]
            && chars[0] <= 'z')) && chars[1] == ':';
        if !drive {
            path.append("\\");
        }
    }
    path.append(DLL_NAME);
    path
}

/// Settles the path of the library. It is looked for in the directory of the
/// running program and nowhere else: there is a path if that directory is known
/// and `exists` says that the library lies in it.
pub fn resolve_dll_path(program_dir: Option<String>, exists: bool) -> (path: Option<String>)
    ensures
        opt_text(path) == (match program_dir {
            Some(dir) => if exists {
                Some(path_in(dir@, DLL_NAME@))
            } else {
                None
            },
            None => None,
        }),
{
    match program_dir {
        Some(dir) => if exists {
            Some(dll_candidate(&dir))
        } else {
            None
        },
        None => None,
    }
}

/// The bytes of the library's path that the loader is to read: null-terminated
/// UTF-16.
pub fn remote_path(dll_path: &str) -> (bytes: Vec<u8>)
    ensures
        bytes@ == unit_bytes(utf16(dll_path@).push(0)),
{
    wide_bytes(&to_wide(dll_path))
}

/// The step at which an injection failed.
#[derive(Clone, Copy, Debug, PartialEq, Eq, Structural)]
pub enum InjectError {
    OpenProcess,
    Allocate,
    WritePath,
    FindKernel32,
    FindLoadLibrary,
    StartThread,
}

/// The steps of an injection. Each but the last two is work to do; the last two
/// say how it ended.
#[derive(Clone, Copy, Debug, PartialEq, Eq, Structural)]
pub enum InjectStep {
    /// Open the process.
    OpenProcess,
    /// Allocate memory in it for the path.
    Allocate,
    /// Write the path there.
    WritePath,
    /// Free the memory that the path could not be written to.
    FreeUnwritten,
    /// Close the process and give up.
    Abandon(InjectError),
    /// Find the module of the system's loader.
    FindKernel32,
    /// Find the loader in it.
    FindLoadLibrary,
    /// Start a thread that runs the loader on the path.
    StartThread,
    /// Wait for the thread.
    Wait,
    /// Free the memory that the thread is done with.
    Free,
    /// Warn that the memory is left to the thread, which may still use it.
    Leak,
    /// Close the thread.
    CloseThread,
    /// Close the process.
    CloseProcess,
    /// The library is loaded, or may still be loading.
    Done,
    /// The library was not loaded.
    Failed(InjectError),
}

/// Whether no work is left at a step.
pub open spec fn inject_over(step: InjectStep) -> bool {
    step is Done || step is Failed
}

/// The step after one that succeeded or failed.
pub open spec fn inject_next(step: InjectStep, ok: bool) -> InjectStep {
    match step {
        InjectStep::OpenProcess => if ok {
            InjectStep::Allocate
        } else {
            InjectStep::Failed(InjectError::OpenProcess)
        },
        InjectStep::Allocate => if ok {
            InjectStep::WritePath
        } else {
            InjectStep::Abandon(InjectError::Allocate)
        },
        InjectStep::WritePath => if ok {
            InjectStep::FindKernel32
        } else {
            InjectStep::FreeUnwritten
        },
        InjectStep::FreeUnwritten => InjectStep::Abandon(InjectError::WritePath),
        InjectStep::Abandon(error) => InjectStep::Failed(error),
        InjectStep::FindKernel32 => if ok {
            InjectStep::FindLoadLibrary
        } else {
            InjectStep::Failed(InjectError::FindKernel32)
        },
        InjectStep::FindLoadLibrary => if ok {
            InjectStep::StartThread
        } else {
            InjectStep::Failed(InjectError::FindLoadLibrary)
        },
        InjectStep::StartThread => if ok {
            InjectStep::Wait
        } else {
            InjectStep::Failed(InjectError::StartThread)
        },
        InjectStep::Wait => if ok {
            InjectStep::Free
        } else {
            InjectStep::Leak
        },
        InjectStep::Free => InjectStep::CloseThread,
        InjectStep::Leak => InjectStep::CloseThread,
        InjectStep::CloseThread => InjectStep::CloseProcess,
        InjectStep::CloseProcess => InjectStep::Done,
        InjectStep::Done => InjectStep::Done,
        InjectStep::Failed(error) => InjectStep::Failed(error),
    }
}

impl InjectStep {
    /// Takes the outcome of a step. Whether memory was freed or a handle closed
    /// makes no difference.
    pub fn next(self, ok: bool) -> (step: InjectStep)
        ensures
            step == inject_next(self, ok),
    {
        match self {
            InjectStep::OpenProcess => if ok {
                InjectStep::Allocate
            } else {
                InjectStep::Failed(InjectError::OpenProcess)
            },
            InjectStep::Allocate => if ok {
                InjectStep::WritePath
            } else {
                InjectStep::Abandon(InjectError::Allocate)
            },
            InjectStep::WritePath => if ok {
                InjectStep::FindKernel32
            } else {
                InjectStep::FreeUnwritten
            },
            InjectStep::FreeUnwritten => InjectStep::Abandon(InjectError::WritePath),
            InjectStep::Abandon(error) => InjectStep::Failed(error),
            InjectStep::FindKernel32 => if ok {
                InjectStep::FindLoadLibrary
            } else {
                InjectStep::Failed(InjectError::FindKernel32)
            },
            InjectStep::FindLoadLibrary => if ok {
                InjectStep::StartThread
            } else {
                InjectStep::Failed(InjectError::FindLoadLibrary)
            },
            InjectStep::StartThread => if ok {
                InjectStep::Wait
            } else {
                InjectStep::Failed(InjectError::StartThread)
            },
            InjectStep::Wait => if ok {
                InjectStep::Free
            } else {
                InjectStep::Leak
            },
            InjectStep::Free => InjectStep::CloseThread,
            InjectStep::Leak => InjectStep::CloseThread,
            InjectStep::CloseThread => InjectStep::CloseProcess,
            InjectStep::CloseProcess => InjectStep::Done,
            InjectStep::Done => InjectStep::Done,
            InjectStep::Failed(error) => InjectStep::Failed(error),
        }
    }
}

/// Reads the outcome of waiting for the thread: whether it finished in time.
pub fn thread_finished(wait_result: u32) -> (finished: bool)
    ensures
        finished == (wait_result == 0),
{
    wait_result == 0
}

/// The steps from `step` on if each goes as `ok` says, at most `fuel` of them.
pub open spec fn inject_run(step: InjectStep, ok: spec_fn(InjectStep) -> bool, fuel: nat) -> Seq<
    InjectStep,
>
    decreases fuel,
{
    if fuel == 0 {
        Seq::empty()
    } else if inject_over(step) {
        seq![step]
    } else {
        seq![step] + inject_run(inject_next(step, ok(step)), ok, (fuel - 1) as nat)
    }
}

/// The steps of an injection if each goes as `ok` says.
pub open spec fn inject_trace(ok: spec_fn(InjectStep) -> bool) -> Seq<InjectStep> {
    let start = seq![InjectStep::OpenProcess];
    let allocated = start.push(InjectStep::Allocate);
    let written = allocated.push(InjectStep::WritePath);
    let module = written.push(InjectStep::FindKernel32);
    let function = module.push(InjectStep::FindLoadLibrary);
    let started = function.push(InjectStep::StartThread);
    if !ok(InjectStep::OpenProcess) {
        start.push(InjectStep::Failed(InjectError::OpenProcess))
    } else if !ok(InjectStep::Allocate) {
        allocated + seq![
            InjectStep::Abandon(InjectError::Allocate),
            InjectStep::Failed(InjectError::Allocate),
        ]
    } else if !ok(InjectStep::WritePath) {
        written + seq![
            InjectStep::FreeUnwritten,
            InjectStep::Abandon(InjectError::WritePath),
            InjectStep::Failed(InjectError::WritePath),
        ]
    } else if !ok(InjectStep::FindKernel32) {
        module.push(InjectStep::Failed(InjectError::FindKernel32))
    } else if !ok(InjectStep::FindLoadLibrary) {
        function.push(InjectStep::Failed(InjectError::FindLoadLibrary))
    } else if !ok(InjectStep::StartThread) {
        started.push(InjectStep::Failed(InjectError::StartThread))
    } else {
        started + seq![
            InjectStep::Wait,
            if ok(InjectStep::Wait) {
                InjectStep::Free
            } else {
                InjectStep::Leak
            },
            InjectStep::CloseThread,
            InjectStep::CloseProcess,
            InjectStep::Done,
        ]
    }
}

/// An injection takes exactly the steps of its trace, at most eleven, and is
/// over at the last of them.
pub proof fn law_inject_trace(ok: spec_fn(InjectStep) -> bool)
    ensures
        inject_run(InjectStep::OpenProcess, ok, 11) =~= inject_trace(ok),
        inject_over(inject_trace(ok).last()),
{
    reveal_with_fuel(inject_run, 12);
}

/// Memory that a thread was started on is freed if and only if the thread
/// finished in time; otherwise it is left to the thread.
pub proof fn law_memory_is_left_to_a_running_thread(ok: spec_fn(InjectStep) -> bool)
    requires
        inject_trace(ok).contains(InjectStep::Wait),
    ensures
        inject_trace(ok).contains(InjectStep::Free) <==> ok(InjectStep::Wait),
        inject_trace(ok).contains(InjectStep::Leak) <==> !ok(InjectStep::Wait),
        !inject_trace(ok).contains(InjectStep::FreeUnwritten),
{
    let trace = inject_trace(ok);
    if trace.len() == 11 {
        assert(trace[7] == if ok(InjectStep::Wait) {
            InjectStep::Free
        } else {
            InjectStep::Leak
        });
    }
}

/// An injection that ends well, or that fails to allocate the memory or to
/// write the path, has closed the process, and freed the memory unless a thread
/// may still use it.
pub proof fn law_injection_cleans_up(ok: spec_fn(InjectStep) -> bool)
    ensures
        ({
            let trace = inject_trace(ok);
            &&& trace.last() == InjectStep::Done ==> trace.contains(InjectStep::CloseThread)
                && trace.contains(InjectStep::CloseProcess) && (trace.contains(InjectStep::Free)
                || !ok(InjectStep::Wait))
            &&& trace.last() == InjectStep::Failed(InjectError::Allocate) ==> trace.contains(
                InjectStep::Abandon(InjectError::Allocate),
            )
            &&& trace.last() == InjectStep::Failed(InjectError::WritePath) ==> trace.contains(
                InjectStep::FreeUnwritten,
            ) && trace.contains(InjectStep::Abandon(InjectError::WritePath))
        }),
{
    let trace = inject_trace(ok);
    if trace.len() == 11 {
        assert(trace[7] == if ok(InjectStep::Wait) {
            InjectStep::Free
        } else {
            InjectStep::Leak
        });
        assert(trace[8] == InjectStep::CloseThread);
        assert(trace[9] == InjectStep::CloseProcess);
    }
    if trace.last() == InjectStep::Failed(InjectError::Allocate) {
        assert(trace[2] == InjectStep::Abandon(InjectError::Allocate));
    }
    if trace.last() == InjectStep::Failed(InjectError::WritePath) {
        assert(trace[3] == InjectStep::FreeUnwritten);
        assert(trace[4] == InjectStep::Abandon(InjectError::WritePath));
    }
}

/// Why an injection failed.
pub open spec fn inject_error_text(error: InjectError, pid: u32, detail: Seq<char>) -> Seq<char> {
    match error {
        InjectError::OpenProcess => "OpenProcess("@ + decimal(pid as nat) + "): "@ + detail,
        InjectError::Allocate => "VirtualAllocEx failed"@,
        InjectError::WritePath => "WriteProcessMemory failed"@,
        InjectError::FindKernel32 => "GetModuleHandle(kernel32): "@ + detail,
        InjectError::FindLoadLibrary => "GetProcAddress(LoadLibraryW) failed"@,
        InjectError::StartThread => "CreateRemoteThread: "@ + detail,
    }
}

/// Says why an injection failed; `detail` is what the failed step reported.
pub fn inject_error_message(error: InjectError, pid: u32, detail: &str) -> (message: String)
    ensures
        message@ == inject_error_text(error, pid, detail@),
{
    let mut message: String = String::new();
    match error {
        InjectError::OpenProcess => {
            message.append("OpenProcess(");
            push_decimal(&mut message, pid as u64);
            message.append("): ");
            message.append(detail);
        },
        InjectError::Allocate => {
            message.append("VirtualAllocEx failed");
        },
        InjectError::WritePath => {
            message.append("WriteProcessMemory failed");
        },
        InjectError::FindKernel32 => {
            message.append("GetModuleHandle(kernel32): ");
            message.append(detail);
        },
        InjectError::FindLoadLibrary => {
            message.append("GetProcAddress(LoadLibraryW) failed");
        },
        InjectError::StartThread => {
            message.append("CreateRemoteThread: ");
            message.append(detail);
        },
    }
    message
}

/// Warns that memory is left to a thread that has not finished.
pub fn leak_warning(pid: u32) -> (message: String)
    ensures
        message@ == "  WARN: LoadLibraryW timed out in PID "@ + decimal(pid as nat)
            + ", leaking remote allocation to avoid corruption"@,
{
    let mut message: String = String::new();
    message.append("  WARN: LoadLibraryW timed out in PID ");
    push_decimal(&mut message, pid as u64);
    message.append(", leaking remote allocation to avoid corruption");
    message
}

/// The processes of two lists are found as those of the one and then those of the
/// other: each that runs the program is found once, in its place.
pub proof fn law_processes_are_found_in_order(entries: Seq<ProcessEntry>, entry: ProcessEntry)
    ensures
        teams_pids(Seq::empty()).len() == 0,
        is_teams(entry) ==> teams_pids(entries.push(entry)) == teams_pids(entries).push(entry.pid),
        !is_teams(entry) ==> teams_pids(entries.push(entry)) == teams_pids(entries),
{
    reveal(Seq::filter);
    assert(entries.push(entry).drop_last() == entries);
    assert(teams_pids(Seq::empty()) =~= Seq::<u32>::empty());
    if is_teams(entry) {
        assert(teams_pids(entries.push(entry)) =~= teams_pids(entries).push(entry.pid));
    } else {
        assert(teams_pids(entries.push(entry)) =~= teams_pids(entries));
    }
}

/// One more module makes a difference if and only if it has the name.
pub proof fn law_any_module_counts(modules: Seq<Vec<u16>>, module: Vec<u16>, name: Seq<char>)
    ensures
        !has_module(Seq::empty(), name),
        has_module(modules.push(module), name) <==> has_module(modules, name)
            || same_ignoring_case(text_before_nul(module@), name),
{
    let more = modules.push(module);
    if has_module(modules, name) {
        let i = choose|i: int|
            0 <= i < modules.len() && same_ignoring_case(
                text_before_nul(#[trigger] modules[i]@),
                name,
            );
        assert(more[i] == modules[i]);
    }
    if same_ignoring_case(text_before_nul(module@), name) {
        assert(more[modules.len() as int] == module);
    }
    if has_module(more, name) {
        let i = choose|i: int|
            0 <= i < more.len() && same_ignoring_case(text_before_nul(#[trigger] more[i]@), name);
        if i < modules.len() {
            assert(more[i] == modules[i]);
        }
    }
}

/// The path of a file in a directory starts with the directory and ends in the
/// name. Between them stands one backslash, or nothing: nothing behind a slash or
/// a backslash, behind a bare drive, and where there is no directory.
pub proof fn law_file_lies_in_its_directory(dir: Seq<char>, name: Seq<char>)
    ensures
        ({
            let path = path_in(dir, name);
            let bare = dir.len() == 0 || dir.last() == '\\' || dir.last() == '/' || (dir.len() == 2
                && dir[1] == ':' && (65 <= dir[0] as int <= 90 || 97 <= dir[0] as int <= 122));
            &&& path.take(dir.len() as int) == dir
            &&& bare ==> path.skip(dir.len() as int) == name
            &&& !bare ==> path.skip(dir.len() as int) == seq!['\\'] + name
        }),
{
    reveal_strlit("\\");
    let path = path_in(dir, name);
    assert(path.take(dir.len() as int) =~= dir);
    if path.len() == dir.len() + name.len() {
        assert(path.skip(dir.len() as int) =~= name);
    } else {
        assert(path.skip(dir.len() as int) =~= seq!['\\'] + name);
    }
}

/// An injection that goes well opens the process, gets memory, writes the path,
/// finds the loader, starts the thread, waits for it, and closes what it opened,
/// in this order, however closing and freeing go.
pub proof fn law_injection_goes_step_by_step(a: bool, b: bool, c: bool)
    ensures
        inject_next(InjectStep::OpenProcess, true) == InjectStep::Allocate,
        inject_next(InjectStep::Allocate, true) == InjectStep::WritePath,
        inject_next(InjectStep::WritePath, true) == InjectStep::FindKernel32,
        inject_next(InjectStep::FindKernel32, true) == InjectStep::FindLoadLibrary,
        inject_next(InjectStep::FindLoadLibrary, true) == InjectStep::StartThread,
        inject_next(InjectStep::StartThread, true) == InjectStep::Wait,
        inject_next(InjectStep::Wait, true) == InjectStep::Free,
        inject_next(InjectStep::Wait, false) == InjectStep::Leak,
        inject_next(inject_next(inject_next(InjectStep::Free, a), b), c) == InjectStep::Done,
        inject_next(inject_next(inject_next(InjectStep::Leak, a), b), c) == InjectStep::Done,
        inject_next(InjectStep::Free, a) == InjectStep::CloseThread,
        inject_next(InjectStep::Leak, a) == InjectStep::CloseThread,
        inject_next(InjectStep::CloseThread, a) == InjectStep::CloseProcess,
        inject_next(InjectStep::Done, a) == InjectStep::Done,
{
}

/// An injection that fails says at which step; before that it frees the memory
/// that it could not write to, and closes the process that it has no memory in.
pub proof fn law_injection_fails_with_its_step(a: bool, b: bool, error: InjectError)
    ensures
        inject_next(InjectStep::OpenProcess, false) == InjectStep::Failed(InjectError::OpenProcess),
        inject_next(InjectStep::Allocate, false) == InjectStep::Abandon(InjectError::Allocate),
        inject_next(InjectStep::WritePath, false) == InjectStep::FreeUnwritten,
        inject_next(InjectStep::FreeUnwritten, a) == InjectStep::Abandon(InjectError::WritePath),
        inject_next(InjectStep::Abandon(error), b) == InjectStep::Failed(error),
        inject_next(InjectStep::FindKernel32, false) == InjectStep::Failed(
            InjectError::FindKernel32,
        ),
        inject_next(InjectStep::FindLoadLibrary, false) == InjectStep::Failed(
            InjectError::FindLoadLibrary,
        ),
        inject_next(InjectStep::StartThread, false) == InjectStep::Failed(InjectError::StartThread),
        inject_next(InjectStep::Failed(error), a) == InjectStep::Failed(error),
{
}

/// What is said of a failed injection names the step, and what it reported where
/// it did.
pub proof fn law_failure_of_an_injection_is_named(pid: u32, detail: Seq<char>)
    ensures
        inject_error_text(InjectError::OpenProcess, pid, detail) == "OpenProcess("@ + decimal(
            pid as nat,
        ) + "): "@ + detail,
        inject_error_text(InjectError::Allocate, pid, detail) == "VirtualAllocEx failed"@,
        inject_error_text(InjectError::WritePath, pid, detail) == "WriteProcessMemory failed"@,
        inject_error_text(InjectError::FindKernel32, pid, detail) == "GetModuleHandle(kernel32): "@
            + detail,
        inject_error_text(InjectError::FindLoadLibrary, pid, detail)
            == "GetProcAddress(LoadLibraryW) failed"@,
        inject_error_text(InjectError::StartThread, pid, detail) == "CreateRemoteThread: "@ + detail,
{
}

/// The program that is fixed, the library that fixes it, and the ten seconds that
/// it is given to load.
pub proof fn law_program_and_library()
    ensures
        TEAMS_EXE@ == "ms-teams.exe"@,
        DLL_NAME@ == "teams_usb_fix.dll"@,
        LOAD_TIMEOUT_MS == 10 * 1000,
{
}

} // verus!
