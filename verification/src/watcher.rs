//! Watching for new processes and fixing each of them once.

use vstd::prelude::*;
use std::collections::HashSet;
use crate::inject::ProcessEntry;
use crate::inject::{is_teams, law_only_teams_is_found, teams_pids};
use crate::logging::LocalTime;
use crate::logging::injection_label;
use crate::logging::injection_text;
use crate::preflight::{BrokenDevice, device_line};
use crate::preflight::device_text;
use crate::text::{push_decimal, push_list};
use crate::text::{decimal, list_text};
use crate::usb::opt_text;

verus! {

/// Seconds between two looks at the running processes.
pub const POLL_INTERVAL_SECS: u64 = 2;

/// Seconds that a new process is given to start up.
pub const INJECT_DELAY_SECS: u64 = 2;

/// What the watcher has done so far, for display.
#[derive(Debug)]
pub struct WatcherState {
    pub injected_count: u32,
    pub last_injection: Option<String>,
    pub broken_devices: u32,
}

/// What the display says of the watcher.
#[verifier::ext_equal]
pub struct StateView {
    pub injected_count: nat,
    pub last_injection: Option<Seq<char>>,
    pub broken_devices: nat,
}

impl View for WatcherState {
    type V = StateView;

    open spec fn view(&self) -> StateView {
        StateView {
            injected_count: self.injected_count as nat,
            last_injection: opt_text(self.last_injection),
            broken_devices: self.broken_devices as nat,
        }
    }
}

/// The state after the watch told `note` at the given time.
pub open spec fn noted(state: StateView, note: WatchNote, time: LocalTime) -> StateView {
    match note {
        WatchNote::Injected(pid) => StateView {
            injected_count: state.injected_count + 1,
            last_injection: Some(injection_text(pid, time)),
            ..state
        },
        _ => state,
    }
}

impl WatcherState {
    /// The state before anything was done.
    pub fn new() -> (state: WatcherState)
        ensures
            state@ == (StateView { injected_count: 0, last_injection: None, broken_devices: 0 }),
    {
        WatcherState { injected_count: 0, last_injection: None, broken_devices: 0 }
    }

    /// Takes note of the devices found before the watch began.
    pub fn record_broken(&mut self, broken: &Vec<BrokenDevice>)
        ensures
            final(self)@ == (StateView {
                broken_devices: broken@.len() % 0x1_0000_0000,
                ..old(self)@
            }),
    {
        self.broken_devices = (broken.len() as u64 % 0x1_0000_0000) as u32;
    }

    /// Takes note of what the watch has to tell. Nothing counts but that the fix
    /// was loaded into a process.
    pub fn record(&mut self, note: WatchNote, time: &LocalTime)
        requires
            note is Injected ==> old(self).injected_count < u32::MAX,
        ensures
            final(self)@ == noted(old(self)@, note, *time),
    {
        if let WatchNote::Injected(pid) = note {
            self.injected_count = self.injected_count + 1;
            self.last_injection = Some(injection_label(pid, time));
        }
    }
}

/// What the watch does next. An index is that of a new process.
#[derive(Clone, Copy, Debug, PartialEq, Eq, Structural)]
pub enum WatchStep {
    /// See whether the watch is to go on.
    CheckRunning,
    /// Find the processes.
    FindProcesses,
    /// Give the new processes time to start up.
    Settle,
    /// See whether a new process has the fix already.
    CheckLoaded { at: usize },
    /// Load the fix into a new process.
    Inject { at: usize },
    /// Wait until the next look.
    Rest,
    /// Nothing; the watch is over.
    Stopped,
}

/// Something that the watch has to tell.
#[derive(Clone, Copy, Debug, PartialEq, Eq, Structural)]
pub enum WatchNote {
    /// Nothing to tell.
    Quiet,
    /// New processes were found.
    NewProcesses,
    /// The process has the fix already.
    AlreadyInjected(u32),
    /// The fix was loaded into the process.
    Injected(u32),
    /// The fix could not be loaded into the process.
    Failed(u32),
    /// The watch is over.
    Stopped,
}

/// Work to do outside for the watch.
#[derive(Clone, Copy, Debug, PartialEq, Eq, Structural)]
pub enum WatchAction {
    CheckRunning,
    FindProcesses,
    Settle,
    CheckLoaded(u32),
    Inject(u32),
    Rest,
    Stop,
}

/// The outcome of the work: yes or no where that was the question, and the
/// processes where they were to be found.
#[derive(Debug)]
pub struct WatchReply {
    pub yes: bool,
    pub pids: Vec<u32>,
}

/// The watch: the processes known to have the fix, the new ones at hand, and
/// the next step.
pub struct Watch {
    known: HashSet<u32>,
    pending: Vec<u32>,
    step: WatchStep,
}

/// The watch: the processes known to have the fix, the new ones at hand, and
/// the next step.
#[verifier::ext_equal]
pub struct WatchView {
    pub known: Set<u32>,
    pub pending: Seq<u32>,
    pub step: WatchStep,
}

impl View for Watch {
    type V = WatchView;

    closed spec fn view(&self) -> WatchView {
        WatchView { known: self.known@, pending: self.pending@, step: self.step }
    }
}

/// The watch before its first step.
pub open spec fn watch_start() -> WatchView {
    WatchView { known: Set::empty(), pending: Seq::empty(), step: WatchStep::CheckRunning }
}

/// The known processes that still run.
pub open spec fn still_known(known: Set<u32>, pids: Seq<u32>) -> Set<u32> {
    known.intersect(pids.to_set())
}

/// The processes that are not known, in their order.
pub open spec fn new_pids(known: Set<u32>, pids: Seq<u32>) -> Seq<u32> {
    pids.filter(|pid: u32| !known.contains(pid))
}

/// What follows the new process at `at`.
pub open spec fn past_process(pending: Seq<u32>, at: usize) -> WatchStep {
    if at + 1 < pending.len() {
        WatchStep::CheckLoaded { at: (at + 1) as usize }
    } else {
        WatchStep::Rest
    }
}

/// The watch after a step, with something to tell.
pub open spec fn watch_next(watch: WatchView, yes: bool, pids: Seq<u32>) -> (WatchView, WatchNote) {
    match watch.step {
        WatchStep::CheckRunning => if yes {
            (WatchView { step: WatchStep::FindProcesses, ..watch }, WatchNote::Quiet)
        } else {
            (WatchView { step: WatchStep::Stopped, ..watch }, WatchNote::Stopped)
        },
        WatchStep::FindProcesses => {
            let known = still_known(watch.known, pids);
            let pending = new_pids(known, pids);
            if pending.len() == 0 {
                (WatchView { known, pending, step: WatchStep::Rest }, WatchNote::Quiet)
            } else {
                (WatchView { known, pending, step: WatchStep::Settle }, WatchNote::NewProcesses)
            }
        },
        WatchStep::Settle => (
            WatchView { step: WatchStep::CheckLoaded { at: 0 }, ..watch },
            WatchNote::Quiet,
        ),
        WatchStep::CheckLoaded { at } => {
            let pid = watch.pending[at as int];
            if yes {
                (
                    WatchView {
                        known: watch.known.insert(pid),
                        step: past_process(watch.pending, at),
                        ..watch
                    },
                    WatchNote::AlreadyInjected(pid),
                )
            } else {
                (WatchView { step: WatchStep::Inject { at }, ..watch }, WatchNote::Quiet)
            }
        },
        WatchStep::Inject { at } => {
            let pid = watch.pending[at as int];
            if yes {
                (
                    WatchView {
                        known: watch.known.insert(pid),
                        step: past_process(watch.pending, at),
                        ..watch
                    },
                    WatchNote::Injected(pid),
                )
            } else {
                (
                    WatchView { step: past_process(watch.pending, at), ..watch },
                    WatchNote::Failed(pid),
                )
            }
        },
        WatchStep::Rest => (
            WatchView { step: WatchStep::CheckRunning, ..watch },
            WatchNote::Quiet,
        ),
        WatchStep::Stopped => (watch, WatchNote::Quiet),
    }
}

/// The work that a step asks for.
pub open spec fn watch_action(watch: WatchView) -> WatchAction {
    match watch.step {
        WatchStep::CheckRunning => WatchAction::CheckRunning,
        WatchStep::FindProcesses => WatchAction::FindProcesses,
        WatchStep::Settle => WatchAction::Settle,
        WatchStep::CheckLoaded { at } => WatchAction::CheckLoaded(watch.pending[at as int]),
        WatchStep::Inject { at } => WatchAction::Inject(watch.pending[at as int]),
        WatchStep::Rest => WatchAction::Rest,
        WatchStep::Stopped => WatchAction::Stop,
    }
}

/// What the watch tells.
pub open spec fn note_text(note: WatchNote, pending: Seq<u32>, detail: Seq<char>) -> Option<
    Seq<char>,
> {
    match note {
        WatchNote::Quiet => None,
        WatchNote::NewProcesses => Some(
            "New Teams process(es) detected: "@ + list_text(
                pending.map_values(|pid: u32| pid as nat),
            ),
        ),
        WatchNote::AlreadyInjected(pid) => Some(
            "PID "@ + decimal(pid as nat) + ": already injected, skipping"@,
        ),
        WatchNote::Injected(pid) => Some(
            "PID "@ + decimal(pid as nat) + ": injected successfully"@,
        ),
        WatchNote::Failed(pid) => Some(
            "PID "@ + decimal(pid as nat) + ": injection failed: "@ + detail,
        ),
        WatchNote::Stopped => Some("Watcher stopped"@),
    }
}

/// The known processes that still run.
fn keep_running(known: &HashSet<u32>, pids: &Vec<u32>) -> (kept: HashSet<u32>)
    ensures
        kept@ == still_known(known@, pids@),
{
    broadcast use vstd::std_specs::hash::group_hash_axioms;

    let mut kept: HashSet<u32> = HashSet::new();
    let mut i: usize = 0;
    while i < pids.len()
        invariant
            i <= pids.len(),
            forall|pid: u32| #[trigger]
                kept@.contains(pid) <==> known@.contains(pid) && pids@.take(i as int).contains(
                    pid,
                ),
        decreases pids.len() - i,
    {
        let ghost shorter = pids@.take(i as int);
        let ghost longer = pids@.take(i + 1);
        assert(longer == shorter.push(pids@[i as int]));
        assert forall|pid: u32|
            longer.contains(pid) <==> shorter.contains(pid) || pid == pids@[i as int] by {
            if shorter.contains(pid) {
                let k = choose|k: int| 0 <= k < shorter.len() && shorter[k] == pid;
                assert(longer[k] == pid);
            }
            if pid == pids@[i as int] {
                assert(longer[i as int] == pid);
            }
        }
        if known.contains(&pids[i]) {
            kept.insert(pids[i]);
        }
        i = i + 1;
    }
    assert(pids@.take(i as int) == pids@);
    assert(kept@ =~= still_known(known@, pids@));
    kept
}

/// The processes that are not known.
fn find_new(known: &HashSet<u32>, pids: &Vec<u32>) -> (found: Vec<u32>)
    ensures
        found@ == new_pids(known@, pids@),
{
    broadcast use vstd::std_specs::hash::group_hash_axioms;

    let mut found: Vec<u32> = Vec::new();
    let mut i: usize = 0;
    proof {
        reveal(Seq::filter);
    }
    while i < pids.len()
        invariant
            i <= pids.len(),
            found@ == new_pids(known@, pids@.take(i as int)),
        decreases pids.len() - i,
    {
        if !known.contains(&pids[i]) {
            found.push(pids[i]);
        }
        proof {
            reveal(Seq::filter);
            let longer = pids@.take(i + 1);
            assert(longer.drop_last() == pids@.take(i as int));
            assert(longer.last() == pids@[i as int]);
        }
        i = i + 1;
    }
    assert(pids@.take(i as int) == pids@);
    found
}

impl Watch {
    /// The process at hand is one of the new ones.
    #[verifier::type_invariant]
    spec fn in_range(self) -> bool {
        match self.step {
            WatchStep::Settle => self.pending.len() > 0,
            WatchStep::CheckLoaded { at } => at < self.pending.len(),
            WatchStep::Inject { at } => at < self.pending.len(),
            _ => true,
        }
    }

    /// Starts the watch.
    pub fn new() -> (watch: Watch)
        ensures
            watch@ == watch_start(),
    {
        let watch: Watch = Watch {
            known: HashSet::new(),
            pending: Vec::new(),
            step: WatchStep::CheckRunning,
        };
        assert(watch@ =~= watch_start());
        watch
    }

    /// Starts the watch if the library was found, and says so; without the
    /// library there is no watch, and that is said.
    pub fn begin(dll_path: &Option<String>) -> (begun: (Option<Watch>, String))
        ensures
            match opt_text(*dll_path) {
                Some(path) => {
                    &&& begun.0 matches Some(watch) && watch@ == watch_start()
                    &&& begun.1@ == started_text(path)
                },
                None => begun.0 is None && begun.1@ == NO_DLL_MESSAGE@,
            },
    {
        match dll_path {
            Some(path) => (Some(Watch::new()), started_message(path)),
            None => (None, NO_DLL_MESSAGE.to_owned()),
        }
    }

    /// The work that is to be done next.
    pub fn action(&self) -> (action: WatchAction)
        ensures
            action == watch_action(self@),
    {
        proof {
            use_type_invariant(self);
        }
        match self.step {
            WatchStep::CheckRunning => WatchAction::CheckRunning,
            WatchStep::FindProcesses => WatchAction::FindProcesses,
            WatchStep::Settle => WatchAction::Settle,
            WatchStep::CheckLoaded { at } => WatchAction::CheckLoaded(self.pending[at]),
            WatchStep::Inject { at } => WatchAction::Inject(self.pending[at]),
            WatchStep::Rest => WatchAction::Rest,
            WatchStep::Stopped => WatchAction::Stop,
        }
    }

    fn step_past(&self, at: usize) -> (step: WatchStep)
        requires
            at < self.pending.len(),
        ensures
            step == past_process(self@.pending, at),
    {
        if at + 1 < self.pending.len() {
            WatchStep::CheckLoaded { at: at + 1 }
        } else {
            WatchStep::Rest
        }
    }

    /// Takes the outcome of the work, and says what there is to tell.
    pub fn advance(self, reply: &WatchReply) -> (next: (Watch, WatchNote))
        ensures
            (next.0@, next.1) == watch_next(self@, reply.yes, reply.pids@),
    {
        broadcast use vstd::std_specs::hash::group_hash_axioms;

        proof {
            use_type_invariant(&self);
        }
        match self.step {
            WatchStep::CheckRunning => if reply.yes {
                (
                    Watch {
                        known: self.known,
                        pending: self.pending,
                        step: WatchStep::FindProcesses,
                    },
                    WatchNote::Quiet,
                )
            } else {
                (
                    Watch {
                        known: self.known,
                        pending: self.pending,
                        step: WatchStep::Stopped,
                    },
                    WatchNote::Stopped,
                )
            },
            WatchStep::FindProcesses => {
                let known: HashSet<u32> = keep_running(&self.known, &reply.pids);
                let pending: Vec<u32> = find_new(&known, &reply.pids);
                if pending.len() == 0 {
                    (Watch { known, pending, step: WatchStep::Rest }, WatchNote::Quiet)
                } else {
                    (
                        Watch { known, pending, step: WatchStep::Settle },
                        WatchNote::NewProcesses,
                    )
                }
            },
            WatchStep::Settle => (
                Watch {
                    known: self.known,
                    pending: self.pending,
                    step: WatchStep::CheckLoaded { at: 0 },
                },
                WatchNote::Quiet,
            ),
            WatchStep::CheckLoaded { at } => {
                let pid: u32 = self.pending[at];
                if reply.yes {
                    let step: WatchStep = self.step_past(at);
                    let mut known: HashSet<u32> = self.known;
                    known.insert(pid);
                    (
                        Watch { known, pending: self.pending, step },
                        WatchNote::AlreadyInjected(pid),
                    )
                } else {
                    (
                        Watch {
                            known: self.known,
                            pending: self.pending,
                            step: WatchStep::Inject { at },
                        },
                        WatchNote::Quiet,
                    )
                }
            },
            WatchStep::Inject { at } => {
                let pid: u32 = self.pending[at];
                let step: WatchStep = self.step_past(at);
                let mut known: HashSet<u32> = self.known;
                if reply.yes {
                    known.insert(pid);
                    (Watch { known, pending: self.pending, step }, WatchNote::Injected(pid))
                } else {
                    (Watch { known, pending: self.pending, step }, WatchNote::Failed(pid))
                }
            },
            WatchStep::Rest => (
                Watch {
                    known: self.known,
                    pending: self.pending,
                    step: WatchStep::CheckRunning,
                },
                WatchNote::Quiet,
            ),
            WatchStep::Stopped => (self, WatchNote::Quiet),
        }
    }

    /// Words what there is to tell; `detail` is why loading the fix failed.
    pub fn message(&self, note: WatchNote, detail: &str) -> (message: Option<String>)
        ensures
            opt_text(message) == note_text(note, self@.pending, detail@),
    {
        let mut text: String = String::new();
        match note {
            WatchNote::Quiet => {
                return None;
            },
            WatchNote::NewProcesses => {
                text.append("New Teams process(es) detected: ");
                push_list(&mut text, &self.pending);
            },
            WatchNote::AlreadyInjected(pid) => {
                text.append("PID ");
                push_decimal(&mut text, pid as u64);
                text.append(": already injected, skipping");
            },
            WatchNote::Injected(pid) => {
                text.append("PID ");
                push_decimal(&mut text, pid as u64);
                text.append(": injected successfully");
            },
            WatchNote::Failed(pid) => {
                text.append("PID ");
                push_decimal(&mut text, pid as u64);
                text.append(": injection failed: ");
                text.append(detail);
            },
            WatchNote::Stopped => {
                text.append("Watcher stopped");
            },
        }
        Some(text)
    }
}

/// The words that the watch has begun.
pub open spec fn started_text(dll_path: Seq<char>) -> Seq<char> {
    "Started watching for ms-teams.exe (DLL: "@ + dll_path + ")"@
}

/// Says that the watch has begun.
pub fn started_message(dll_path: &str) -> (message: String)
    ensures
        message@ == started_text(dll_path@),
{
    let mut message: String = String::new();
    message.append("Started watching for ms-teams.exe (DLL: ");
    message.append(dll_path);
    message.append(")");
    message
}

/// Says that the watch cannot begin without the library.
pub const NO_DLL_MESSAGE: &'static str = "ERROR: teams_usb_fix.dll not found next to this executable. Exiting.";

/// Sums up the check before the watch.
pub open spec fn preflight_text(count: nat) -> Seq<char> {
    if count == 0 {
        "Preflight: no USB devices with broken string descriptors detected"@
    } else {
        "Preflight: "@ + decimal(count) + " device(s) with broken string descriptors:"@
    }
}

/// The lines that report the check before the watch: a summary, and one line
/// for each device.
pub fn preflight_lines(broken: &Vec<BrokenDevice>) -> (lines: Vec<String>)
    ensures
        lines@.len() == broken@.len() + 1,
        lines@[0]@ == preflight_text(broken@.len()),
        forall|i: int|
            0 <= i < broken@.len() ==> (#[trigger] lines@[i + 1])@ == "  Preflight: "@
                + device_text(broken@[i]@),
{
    let mut summary: String = String::new();
    if broken.len() == 0 {
        summary.append("Preflight: no USB devices with broken string descriptors detected");
    } else {
        summary.append("Preflight: ");
        push_decimal(&mut summary, broken.len() as u64);
        summary.append(" device(s) with broken string descriptors:");
    }
    let mut lines: Vec<String> = Vec::new();
    lines.push(summary);
    let mut i: usize = 0;
    while i < broken.len()
        invariant
            i <= broken.len(),
            lines@.len() == i + 1,
            lines@[0]@ == preflight_text(broken@.len()),
            forall|k: int|
                0 <= k < i ==> (#[trigger] lines@[k + 1])@ == "  Preflight: "@ + device_text(
                    broken@[k]@,
                ),
        decreases broken.len() - i,
    {
        lines.push(device_line("  Preflight: ", &broken[i]));
        i = i + 1;
    }
    lines
}

/// The text of the notification that a note calls for. Only an injection does.
pub open spec fn notice_text(note: WatchNote) -> Option<Seq<char>> {
    match note {
        WatchNote::Injected(pid) => Some(
            "Injected into Teams (PID "@ + decimal(pid as nat) + ")"@,
        ),
        _ => None,
    }
}

/// Makes the notification that a note calls for, if it does.
pub fn injection_notice(note: WatchNote) -> (notice: Option<String>)
    ensures
        opt_text(notice) == notice_text(note),
{
    match note {
        WatchNote::Injected(pid) => {
            let mut notice: String = String::new();
            notice.append("Injected into Teams (PID ");
            push_decimal(&mut notice, pid as u64);
            notice.append(")");
            Some(notice)
        },
        _ => None,
    }
}

/// The watch after a look at the processes.
pub open spec fn after_look(watch: WatchView, pids: Seq<u32>) -> WatchView {
    watch_next(WatchView { step: WatchStep::FindProcesses, ..watch }, true, pids).0
}

/// A process is among the new ones if and only if it runs and is not known.
proof fn lemma_new_pids(known: Set<u32>, pids: Seq<u32>, pid: u32)
    ensures
        new_pids(known, pids).contains(pid) <==> pids.contains(pid) && !known.contains(pid),
    decreases pids.len(),
{
    reveal(Seq::filter);
    let new = new_pids(known, pids);
    if pids.len() > 0 {
        let shorter = pids.drop_last();
        lemma_new_pids(known, shorter, pid);
        let before = new_pids(known, shorter);
        if before.contains(pid) {
            let k = choose|k: int| 0 <= k < before.len() && before[k] == pid;
            assert(new[k] == pid);
        }
        if shorter.contains(pid) {
            let k = choose|k: int| 0 <= k < shorter.len() && shorter[k] == pid;
            assert(pids[k] == pid);
        }
        if !known.contains(pids.last()) {
            assert(new == before.push(pids.last()));
            assert(new[before.len() as int] == pids.last());
        } else {
            assert(new == before);
        }
        assert(pids[pids.len() - 1] == pids.last());
        if pids.contains(pid) && !shorter.contains(pid) {
            let k = choose|k: int| 0 <= k < pids.len() && pids[k] == pid;
            if k < shorter.len() {
                assert(shorter[k] == pid);
            }
            assert(pid == pids.last());
        }
    }
}

/// After each look, the processes known to have the fix all run, and the new
/// ones are exactly those that run and are not known.
pub proof fn law_look_splits_processes(watch: WatchView, pids: Seq<u32>, pid: u32)
    ensures
        after_look(watch, pids).known.contains(pid) <==> watch.known.contains(pid)
            && pids.contains(pid),
        after_look(watch, pids).pending.contains(pid) <==> pids.contains(pid)
            && !watch.known.contains(pid),
{
    let known = still_known(watch.known, pids);
    lemma_new_pids(known, pids, pid);
    assert(pids.to_set().contains(pid) <==> pids.contains(pid));
}

/// The fix is loaded only into a process that was just seen not to have it.
pub proof fn law_inject_only_where_missing(watch: WatchView, yes: bool, pids: Seq<u32>, at: usize)
    requires
        watch_next(watch, yes, pids).0.step == (WatchStep::Inject { at }),
    ensures
        watch.step == (WatchStep::CheckLoaded { at }) && !yes,
{
}

/// The watch after it was given `replies`, each the outcome of one step.
pub open spec fn watch_run(replies: Seq<(bool, Seq<u32>)>) -> WatchView
    decreases replies.len(),
{
    if replies.len() == 0 {
        watch_start()
    } else {
        watch_next(watch_run(replies.drop_last()), replies.last().0, replies.last().1).0
    }
}

/// The processes found by the latest look in a run of the watch.
pub open spec fn last_look(replies: Seq<(bool, Seq<u32>)>) -> Seq<u32>
    decreases replies.len(),
{
    if replies.len() == 0 {
        Seq::empty()
    } else if watch_run(replies.drop_last()).step == WatchStep::FindProcesses {
        replies.last().1
    } else {
        last_look(replies.drop_last())
    }
}

/// The processes that are yet to be seen to were all found by the latest look,
/// and the one at hand is among them.
proof fn lemma_pending_was_found(replies: Seq<(bool, Seq<u32>)>)
    ensures
        forall|pid: u32| #[trigger]
            watch_run(replies).pending.contains(pid) ==> last_look(replies).contains(pid),
        match watch_run(replies).step {
            WatchStep::Settle => watch_run(replies).pending.len() > 0,
            WatchStep::CheckLoaded { at } => at < watch_run(replies).pending.len(),
            WatchStep::Inject { at } => at < watch_run(replies).pending.len(),
            _ => true,
        },
    decreases replies.len(),
{
    if replies.len() > 0 {
        let before = watch_run(replies.drop_last());
        let pids = replies.last().1;
        lemma_pending_was_found(replies.drop_last());
        if before.step == WatchStep::FindProcesses {
            let known = still_known(before.known, pids);
            assert forall|pid: u32| #[trigger]
                watch_run(replies).pending.contains(pid) implies last_look(replies).contains(
                pid,
            ) by {
                lemma_new_pids(known, pids, pid);
            }
        } else {
            assert(watch_run(replies).pending == before.pending);
            assert(last_look(replies) == last_look(replies.drop_last()));
        }
    }
}

/// The watch looks into a process, or loads the fix into it, only if the latest
/// look found that process running.
pub proof fn law_only_found_processes_are_touched(replies: Seq<(bool, Seq<u32>)>, pid: u32)
    requires
        watch_action(watch_run(replies)) == WatchAction::CheckLoaded(pid) || watch_action(
            watch_run(replies),
        ) == WatchAction::Inject(pid),
    ensures
        last_look(replies).contains(pid),
{
    lemma_pending_was_found(replies);
    let watch = watch_run(replies);
    match watch.step {
        WatchStep::CheckLoaded { at } => {
            assert(watch.pending[at as int] == pid);
        },
        WatchStep::Inject { at } => {
            assert(watch.pending[at as int] == pid);
        },
        _ => {},
    }
    assert(watch_run(replies).pending.contains(pid));
}

/// Where looks are made by the name of the program, no process but one of Teams
/// is ever looked into or has the fix loaded into it.
pub proof fn law_only_teams_is_touched(
    replies: Seq<(bool, Seq<u32>)>,
    entries: Seq<ProcessEntry>,
    pid: u32,
)
    requires
        last_look(replies) == teams_pids(entries),
        watch_action(watch_run(replies)) == WatchAction::CheckLoaded(pid) || watch_action(
            watch_run(replies),
        ) == WatchAction::Inject(pid),
    ensures
        exists|i: int|
            0 <= i < entries.len() && is_teams(#[trigger] entries[i]) && entries[i].pid == pid,
{
    law_only_found_processes_are_touched(replies, pid);
    law_only_teams_is_found(entries, pid);
}

/// Whether the reply at `k` in a run of the watch is that to a look.
pub open spec fn is_look(replies: Seq<(bool, Seq<u32>)>, k: int) -> bool {
    0 <= k < replies.len() && watch_run(replies.take(k)).step == WatchStep::FindProcesses
}

/// Whether the reply at `i` says that a process has the fix: it had it already,
/// or it has just got it.
pub open spec fn got_fix(replies: Seq<(bool, Seq<u32>)>, i: int, pid: u32) -> bool {
    &&& 0 <= i < replies.len()
    &&& replies[i].0
    &&& {
        let action = watch_action(watch_run(replies.take(i)));
        action == WatchAction::CheckLoaded(pid) || action == WatchAction::Inject(pid)
    }
}

/// Whether every look after `i` found the process.
pub open spec fn listed_since(replies: Seq<(bool, Seq<u32>)>, i: int, pid: u32) -> bool {
    forall|k: int| i < k && #[trigger] is_look(replies, k) ==> replies[k].1.contains(pid)
}

/// What a run says of a step does not depend on what follows it.
proof fn lemma_prefix(replies: Seq<(bool, Seq<u32>)>, n: int, pid: u32)
    requires
        0 <= n <= replies.len(),
    ensures
        forall|k: int|
            k < n ==> #[trigger] is_look(replies.take(n), k) == is_look(replies, k),
        forall|k: int|
            k < n ==> #[trigger] got_fix(replies.take(n), k, pid) == got_fix(replies, k, pid),
        forall|k: int| 0 <= k < n ==> #[trigger] replies.take(n)[k] == replies[k],
{
    assert forall|k: int| 0 <= k < n implies replies.take(n).take(k) == replies.take(k) by {
        assert(replies.take(n).take(k) =~= replies.take(k));
    }
    assert forall|k: int| k < n implies #[trigger] is_look(replies.take(n), k) == is_look(
        replies,
        k,
    ) by {
        if 0 <= k {
            assert(replies.take(n).take(k) == replies.take(k));
        }
    }
    assert forall|k: int| k < n implies #[trigger] got_fix(replies.take(n), k, pid) == got_fix(
        replies,
        k,
        pid,
    ) by {
        if 0 <= k {
            assert(replies.take(n).take(k) == replies.take(k));
        }
    }
}

/// In every run, the watch takes a process for fixed if and only if it once
/// found that the process has the fix, and has found it running at every look
/// since.
pub proof fn law_known_by_history(replies: Seq<(bool, Seq<u32>)>, pid: u32)
    ensures
        watch_run(replies).known.contains(pid) <==> exists|i: int| #[trigger]
            got_fix(replies, i, pid) && listed_since(replies, i, pid),
    decreases replies.len(),
{
    if replies.len() > 0 {
        let n = replies.len() - 1;
        let before = replies.take(n);
        assert(before == replies.drop_last());
        law_known_by_history(before, pid);
        lemma_prefix(replies, n, pid);
        let looks = is_look(replies, n);
        let listed = replies[n].1.contains(pid);
        assert(replies[n].1.to_set().contains(pid) <==> listed);
        assert forall|i: int| i < n implies #[trigger] listed_since(replies, i, pid) == (
        listed_since(before, i, pid) && (looks ==> listed)) by {
            if listed_since(before, i, pid) && (looks ==> listed) {
                assert forall|k: int| i < k && #[trigger] is_look(replies, k) implies replies[k].1.contains(
                    pid,
                ) by {
                    if k < n {
                        assert(is_look(before, k));
                        assert(before[k] == replies[k]);
                    }
                }
            }
            if listed_since(replies, i, pid) {
                assert forall|k: int| i < k && #[trigger] is_look(before, k) implies before[k].1.contains(
                    pid,
                ) by {
                    assert(is_look(replies, k));
                    assert(before[k] == replies[k]);
                }
            }
        }
        assert(listed_since(replies, n, pid));
        if watch_run(replies).known.contains(pid) && !watch_run(before).known.contains(pid) {
            assert(got_fix(replies, n, pid));
        }
        if exists|i: int| #[trigger] got_fix(before, i, pid) && listed_since(before, i, pid) {
            let i = choose|i: int| #[trigger]
                got_fix(before, i, pid) && listed_since(before, i, pid);
            assert(got_fix(replies, i, pid));
            assert(listed_since(replies, i, pid) == (looks ==> listed));
        }
        if exists|i: int| #[trigger] got_fix(replies, i, pid) && listed_since(replies, i, pid) {
            let i = choose|i: int| #[trigger]
                got_fix(replies, i, pid) && listed_since(replies, i, pid);
            if i < n {
                assert(got_fix(before, i, pid));
                assert(listed_since(before, i, pid));
            }
        }
    }
}

/// In every run, a process is new at a look if and only if the look finds it and
/// it is not taken for fixed: it was never found to have the fix, or a look
/// since then has missed it.
pub proof fn law_new_by_history(replies: Seq<(bool, Seq<u32>)>, k: int, pid: u32)
    requires
        is_look(replies, k),
    ensures
        watch_run(replies.take(k + 1)).pending.contains(pid) <==> replies[k].1.contains(pid)
            && !exists|i: int| #[trigger]
            got_fix(replies.take(k), i, pid) && listed_since(replies.take(k), i, pid),
{
    let before = watch_run(replies.take(k));
    assert(replies.take(k + 1).drop_last() == replies.take(k));
    assert(replies.take(k + 1).last() == replies[k]);
    law_known_by_history(replies.take(k), pid);
    assert(before == WatchView { step: WatchStep::FindProcesses, ..before });
    law_look_splits_processes(before, replies[k].1, pid);
}

/// Between two looks, the new processes stay as they are.
proof fn lemma_pending_stays(replies: Seq<(bool, Seq<u32>)>, k: int)
    requires
        is_look(replies, k),
        forall|m: int| k < m ==> !#[trigger] is_look(replies, m),
    ensures
        watch_run(replies).pending == watch_run(replies.take(k + 1)).pending,
    decreases replies.len(),
{
    let n = replies.len() - 1;
    if k < n {
        let before = replies.take(n);
        assert(before == replies.drop_last());
        lemma_prefix(replies, n, 0);
        assert forall|m: int| k < m implies !#[trigger] is_look(before, m) by {
            if m < n {
                assert(!is_look(replies, m));
            }
        }
        assert(is_look(before, k));
        lemma_pending_stays(before, k);
        assert(before.take(k + 1) == replies.take(k + 1));
        assert(!is_look(replies, n));
    } else {
        assert(replies.take(k + 1) == replies);
    }
}

/// The look that a process at hand comes from.
proof fn lemma_latest_look(replies: Seq<(bool, Seq<u32>)>) -> (k: int)
    requires
        exists|m: int| is_look(replies, m),
    ensures
        is_look(replies, k),
        forall|m: int| k < m ==> !#[trigger] is_look(replies, m),
    decreases replies.len(),
{
    let n = replies.len() - 1;
    if is_look(replies, n) {
        n
    } else {
        let before = replies.take(n);
        lemma_prefix(replies, n, 0);
        let m = choose|m: int| is_look(replies, m);
        assert(m < n);
        assert(is_look(before, m));
        let k = lemma_latest_look(before);
        assert(is_look(replies, k));
        assert forall|m: int| k < m implies !#[trigger] is_look(replies, m) by {
            if m < n {
                assert(!is_look(before, m));
            }
        }
        k
    }
}

/// A process that was found to have the fix, and that every look since has
/// found, is left alone from the next look on.
pub proof fn law_fixed_process_is_left_alone(
    replies: Seq<(bool, Seq<u32>)>,
    i: int,
    k: int,
    pid: u32,
)
    requires
        got_fix(replies, i, pid),
        listed_since(replies, i, pid),
        i < k,
        is_look(replies, k),
    ensures
        watch_action(watch_run(replies)) != WatchAction::CheckLoaded(pid),
        watch_action(watch_run(replies)) != WatchAction::Inject(pid),
{
    let last = lemma_latest_look(replies);
    assert(i < last) by {
        if last < k {
            assert(!is_look(replies, k));
        }
    }
    let before = replies.take(last);
    lemma_prefix(replies, last, pid);
    assert(got_fix(before, i, pid));
    assert(listed_since(before, i, pid)) by {
        assert forall|m: int| i < m && #[trigger] is_look(before, m) implies before[m].1.contains(
            pid,
        ) by {
            assert(is_look(replies, m));
            assert(before[m] == replies[m]);
        }
    }
    law_new_by_history(replies, last, pid);
    lemma_pending_stays(replies, last);
    lemma_pending_was_found(replies);
    let watch = watch_run(replies);
    match watch.step {
        WatchStep::CheckLoaded { at } => {
            assert(watch.pending.contains(watch.pending[at as int]));
        },
        WatchStep::Inject { at } => {
            assert(watch.pending.contains(watch.pending[at as int]));
        },
        _ => {},
    }
}

/// Whether a process is seen to after the look at `k`: the watch asks whether it
/// has the fix, and if it has not, goes on to load the fix into it.
pub open spec fn seen_to(replies: Seq<(bool, Seq<u32>)>, k: int, pid: u32) -> bool {
    exists|i: int|
        {
            &&& k < i < replies.len()
            &&& #[trigger] watch_action(watch_run(replies.take(i))) == WatchAction::CheckLoaded(pid)
            &&& !replies[i].0 ==> i + 1 < replies.len() && watch_action(
                watch_run(replies.take(i + 1)),
            ) == WatchAction::Inject(pid)
        }
}

/// How many of the new processes the watch has turned to.
spec fn turned_to(watch: WatchView) -> nat {
    match watch.step {
        WatchStep::Settle => 0,
        WatchStep::CheckLoaded { at } => at as nat,
        WatchStep::Inject { at } => at as nat,
        _ => watch.pending.len(),
    }
}

/// Each new process before the one at hand was seen to.
proof fn lemma_seen_to(replies: Seq<(bool, Seq<u32>)>, k: int)
    requires
        is_look(replies, k),
        forall|m: int| k < m ==> !#[trigger] is_look(replies, m),
        watch_run(replies).pending.len() <= usize::MAX,
    ensures
        turned_to(watch_run(replies)) <= watch_run(replies).pending.len(),
        forall|a: int|
            0 <= a < turned_to(watch_run(replies)) ==> seen_to(
                replies,
                k,
                #[trigger] watch_run(replies).pending[a],
            ),
        watch_run(replies).step matches WatchStep::Inject { at } ==> k < replies.len() - 1
            && !replies.last().0 && watch_action(watch_run(replies.drop_last()))
            == WatchAction::CheckLoaded(watch_run(replies).pending[at as int]),
    decreases replies.len(),
{
    let n = replies.len() - 1;
    let before = replies.take(n);
    assert(before == replies.drop_last());
    let watch = watch_run(replies);
    lemma_pending_was_found(replies);
    lemma_prefix(replies, n, 0);
    if k < n {
        assert forall|m: int| k < m implies !#[trigger] is_look(before, m) by {
            if m < n {
                assert(!is_look(replies, m));
            }
        }
        assert(is_look(before, k));
        assert(!is_look(replies, n));
        let earlier = watch_run(before);
        assert(earlier.pending == watch.pending);
        lemma_seen_to(before, k);
        lemma_pending_was_found(before);
        assert forall|a: int| 0 <= a < turned_to(watch) implies seen_to(
            replies,
            k,
            #[trigger] watch.pending[a],
        ) by {
            let pid = watch.pending[a];
            if a < turned_to(earlier) {
                assert(seen_to(before, k, earlier.pending[a]));
                lemma_seen_to_grows(replies, k, pid);
            } else {
                match earlier.step {
                    WatchStep::CheckLoaded { at } => {
                        assert(a == at);
                        assert(watch_action(watch_run(replies.take(n))) == WatchAction::CheckLoaded(pid));
                        assert(replies.last().0);
                    },
                    WatchStep::Inject { at } => {
                        assert(a == at);
                        assert(before.drop_last() == replies.take(n - 1));
                        assert(before.last() == replies[n - 1]);
                        assert(watch_action(watch_run(replies.take(n - 1)))
                            == WatchAction::CheckLoaded(pid));
                        assert(watch_action(watch_run(replies.take(n))) == WatchAction::Inject(pid));
                    },
                    _ => {},
                }
            }
        }
    }
}

/// What was seen to stays so as the run goes on.
proof fn lemma_seen_to_grows(replies: Seq<(bool, Seq<u32>)>, k: int, pid: u32)
    requires
        0 <= k,
        replies.len() > 0,
        seen_to(replies.take(replies.len() - 1), k, pid),
    ensures
        seen_to(replies, k, pid),
{
    let n = replies.len() - 1;
    let before = replies.take(n);
    let i = choose|i: int|
        {
            &&& k < i < before.len()
            &&& #[trigger] watch_action(watch_run(before.take(i))) == WatchAction::CheckLoaded(pid)
            &&& !before[i].0 ==> i + 1 < before.len() && watch_action(
                watch_run(before.take(i + 1)),
            ) == WatchAction::Inject(pid)
        };
    assert(before.take(i) == replies.take(i));
    if i + 1 < n {
        assert(before.take(i + 1) == replies.take(i + 1));
    }
    assert(watch_action(watch_run(replies.take(i))) == WatchAction::CheckLoaded(pid));
}

/// Once the watch rests after a look, every process that was new at the look was
/// seen to.
pub proof fn law_new_process_is_seen_to(replies: Seq<(bool, Seq<u32>)>, k: int, pid: u32)
    requires
        is_look(replies, k),
        forall|m: int| k < m ==> !#[trigger] is_look(replies, m),
        watch_run(replies).step == WatchStep::Rest,
        watch_run(replies).pending.len() <= usize::MAX,
        watch_run(replies.take(k + 1)).pending.contains(pid),
    ensures
        seen_to(replies, k, pid),
{
    lemma_pending_stays(replies, k);
    lemma_seen_to(replies, k);
    let pending = watch_run(replies).pending;
    let a = choose|a: int| 0 <= a < pending.len() && pending[a] == pid;
    assert(seen_to(replies, k, pending[a]));
}

/// A process is known at a look only if it was known at the look before and
/// found by it, or was found to have the fix in between.
proof fn lemma_known_between(replies: Seq<(bool, Seq<u32>)>, k: int, m: int, pid: u32)
    requires
        k < m,
        is_look(replies, k),
        is_look(replies, m),
        forall|l: int| k < l < m ==> !#[trigger] is_look(replies, l),
        !watch_run(replies.take(k + 1)).known.contains(pid),
        forall|i: int| k < i < m ==> !#[trigger] got_fix(replies, i, pid),
    ensures
        !watch_run(replies.take(m)).known.contains(pid),
{
    let before = replies.take(m);
    let first = replies.take(k + 1);
    law_known_by_history(before, pid);
    law_known_by_history(first, pid);
    lemma_prefix(replies, m, pid);
    lemma_prefix(replies, k + 1, pid);
    if exists|i: int| #[trigger] got_fix(before, i, pid) && listed_since(before, i, pid) {
        let i = choose|i: int| #[trigger] got_fix(before, i, pid) && listed_since(before, i, pid);
        assert(got_fix(replies, i, pid));
        assert(i <= k);
        assert(got_fix(first, i, pid));
        assert(listed_since(first, i, pid)) by {
            assert forall|l: int| i < l && #[trigger] is_look(first, l) implies first[l].1.contains(
                pid,
            ) by {
                assert(is_look(replies, l));
                assert(is_look(before, l));
                assert(before[l] == replies[l]);
                assert(first[l] == replies[l]);
            }
        }
    }
}

/// A process that was new at one look and did not get the fix is seen to again
/// after the next look that finds it.
pub proof fn law_failed_process_is_tried_again(
    replies: Seq<(bool, Seq<u32>)>,
    k: int,
    m: int,
    pid: u32,
)
    requires
        k < m,
        is_look(replies, k),
        is_look(replies, m),
        forall|l: int| k < l < m ==> !#[trigger] is_look(replies, l),
        forall|l: int| m < l ==> !#[trigger] is_look(replies, l),
        watch_run(replies.take(k + 1)).pending.contains(pid),
        forall|i: int| k < i < m ==> !#[trigger] got_fix(replies, i, pid),
        replies[m].1.contains(pid),
        watch_run(replies).step == WatchStep::Rest,
        watch_run(replies).pending.len() <= usize::MAX,
    ensures
        seen_to(replies, m, pid),
{
    let before = watch_run(replies.take(k));
    assert(replies.take(k + 1).drop_last() == replies.take(k));
    assert(replies.take(k + 1).last() == replies[k]);
    assert(before == WatchView { step: WatchStep::FindProcesses, ..before });
    law_look_splits_processes(before, replies[k].1, pid);
    lemma_known_between(replies, k, m, pid);
    law_known_by_history(replies.take(m), pid);
    law_new_by_history(replies, m, pid);
    law_new_process_is_seen_to(replies, m, pid);
}

/// A process that one look misses and the next one finds was started anew: it
/// is seen to again, even if it had the fix before.
pub proof fn law_restarted_process_is_fixed_again(
    replies: Seq<(bool, Seq<u32>)>,
    k: int,
    m: int,
    pid: u32,
)
    requires
        k < m,
        is_look(replies, k),
        is_look(replies, m),
        forall|l: int| k < l < m ==> !#[trigger] is_look(replies, l),
        forall|l: int| m < l ==> !#[trigger] is_look(replies, l),
        !replies[k].1.contains(pid),
        replies[m].1.contains(pid),
        watch_run(replies).step == WatchStep::Rest,
        watch_run(replies).pending.len() <= usize::MAX,
    ensures
        seen_to(replies, m, pid),
{
    let before = watch_run(replies.take(k));
    assert(replies.take(k + 1).drop_last() == replies.take(k));
    assert(replies.take(k + 1).last() == replies[k]);
    assert(before == WatchView { step: WatchStep::FindProcesses, ..before });
    law_look_splits_processes(before, replies[k].1, pid);
    assert forall|i: int| k < i < m implies !#[trigger] got_fix(replies, i, pid) by {
        if got_fix(replies, i, pid) {
            let part = replies.take(i);
            lemma_prefix(replies, i, pid);
            assert(is_look(part, k));
            assert forall|l: int| k < l implies !#[trigger] is_look(part, l) by {
                if l < i {
                    assert(!is_look(replies, l));
                }
            }
            lemma_pending_stays(part, k);
            assert(part.take(k + 1) == replies.take(k + 1));
            lemma_pending_was_found(part);
            match watch_run(part).step {
                WatchStep::CheckLoaded { at } => {
                    assert(watch_run(part).pending[at as int] == pid);
                },
                WatchStep::Inject { at } => {
                    assert(watch_run(part).pending[at as int] == pid);
                },
                _ => {},
            }
            assert(watch_run(part).pending.contains(pid));
        }
    }
    lemma_known_between(replies, k, m, pid);
    law_known_by_history(replies.take(m), pid);
    law_new_by_history(replies, m, pid);
    law_new_process_is_seen_to(replies, m, pid);
}

/// What the watch tells at the step that the reply at `i` ends.
pub open spec fn note_at(replies: Seq<(bool, Seq<u32>)>, i: int) -> WatchNote {
    watch_next(watch_run(replies.take(i)), replies[i].0, replies[i].1).1
}

/// How many times in a run the fix was loaded into a process.
pub open spec fn injections(replies: Seq<(bool, Seq<u32>)>) -> nat
    decreases replies.len(),
{
    if replies.len() == 0 {
        0
    } else {
        let before = replies.drop_last();
        injections(before) + (if watch_action(watch_run(before)) is Inject && replies.last().0 {
            1nat
        } else {
            0nat
        })
    }
}

/// The state after a run, each note of which was recorded at its time.
pub open spec fn state_run(
    state: StateView,
    replies: Seq<(bool, Seq<u32>)>,
    times: spec_fn(int) -> LocalTime,
) -> StateView
    decreases replies.len(),
{
    if replies.len() == 0 {
        state
    } else {
        let n = replies.len() - 1;
        noted(state_run(state, replies.drop_last(), times), note_at(replies, n), times(n))
    }
}

/// The notifications that a run calls for, in their order.
pub open spec fn notices_run(replies: Seq<(bool, Seq<u32>)>) -> Seq<Seq<char>>
    decreases replies.len(),
{
    if replies.len() == 0 {
        Seq::empty()
    } else {
        match notice_text(note_at(replies, replies.len() - 1)) {
            Some(notice) => notices_run(replies.drop_last()).push(notice),
            None => notices_run(replies.drop_last()),
        }
    }
}

/// Over every run, the count grows by as many as the fix was loaded, and as many
/// notifications are made; that a process had the fix already, or that loading
/// it failed, adds to neither. The number of broken devices stays.
pub proof fn law_count_is_of_injections(
    state: StateView,
    replies: Seq<(bool, Seq<u32>)>,
    times: spec_fn(int) -> LocalTime,
)
    ensures
        state_run(state, replies, times).injected_count == state.injected_count + injections(
            replies,
        ),
        notices_run(replies).len() == injections(replies),
        state_run(state, replies, times).broken_devices == state.broken_devices,
    decreases replies.len(),
{
    if replies.len() > 0 {
        let before = replies.drop_last();
        law_count_is_of_injections(state, before, times);
        assert(replies.take(replies.len() - 1) == before);
    }
}

/// The processes known after the first `n` new ones were seen to: those known
/// before, and each new one that had the fix or got it.
pub open spec fn known_after(
    watch: WatchView,
    loaded: spec_fn(int) -> bool,
    injected: spec_fn(int) -> bool,
    n: nat,
) -> Set<u32>
    decreases n,
{
    if n == 0 {
        watch.known
    } else {
        let before = known_after(watch, loaded, injected, (n - 1) as nat);
        if loaded(n - 1) || injected(n - 1) {
            before.insert(watch.pending[n - 1])
        } else {
            before
        }
    }
}

/// The watch after at most `fuel` more steps of seeing to the new processes.
pub open spec fn batch_run(
    watch: WatchView,
    loaded: spec_fn(int) -> bool,
    injected: spec_fn(int) -> bool,
    fuel: nat,
) -> WatchView
    decreases fuel,
{
    if fuel == 0 {
        watch
    } else {
        match watch.step {
            WatchStep::CheckLoaded { at } => batch_run(
                watch_next(watch, loaded(at as int), Seq::empty()).0,
                loaded,
                injected,
                (fuel - 1) as nat,
            ),
            WatchStep::Inject { at } => batch_run(
                watch_next(watch, injected(at as int), Seq::empty()).0,
                loaded,
                injected,
                (fuel - 1) as nat,
            ),
            _ => watch,
        }
    }
}

/// Seeing to the new processes from the one at `at` on.
proof fn lemma_batch(
    start: WatchView,
    watch: WatchView,
    loaded: spec_fn(int) -> bool,
    injected: spec_fn(int) -> bool,
    at: usize,
    fuel: nat,
)
    requires
        at < start.pending.len() <= usize::MAX,
        watch == (WatchView {
            known: known_after(start, loaded, injected, at as nat),
            step: WatchStep::CheckLoaded { at },
            ..start
        }),
        fuel == 2 * (start.pending.len() - at),
    ensures
        batch_run(watch, loaded, injected, fuel) == (WatchView {
            known: known_after(start, loaded, injected, start.pending.len()),
            step: WatchStep::Rest,
            ..start
        }),
    decreases fuel,
{
    let first = watch_next(watch, loaded(at as int), Seq::empty()).0;
    let next = WatchView {
        known: known_after(start, loaded, injected, (at + 1) as nat),
        step: past_process(start.pending, at),
        ..start
    };
    reveal_with_fuel(batch_run, 3);
    if loaded(at as int) {
        assert(first == next);
        if at + 1 < start.pending.len() {
            lemma_batch(start, next, loaded, injected, (at + 1) as usize, (fuel - 2) as nat);
            lemma_batch_spare(next, loaded, injected, (fuel - 2) as nat);
        }
    } else {
        let second = watch_next(first, injected(at as int), Seq::empty()).0;
        assert(second == next);
        if at + 1 < start.pending.len() {
            lemma_batch(start, next, loaded, injected, (at + 1) as usize, (fuel - 2) as nat);
        }
    }
}

/// Once the new processes were seen to, one more step changes nothing.
proof fn lemma_batch_spare(
    watch: WatchView,
    loaded: spec_fn(int) -> bool,
    injected: spec_fn(int) -> bool,
    fuel: nat,
)
    requires
        batch_run(watch, loaded, injected, fuel).step == WatchStep::Rest,
    ensures
        batch_run(watch, loaded, injected, fuel + 1) == batch_run(watch, loaded, injected, fuel),
    decreases fuel,
{
    if fuel > 0 {
        match watch.step {
            WatchStep::CheckLoaded { at } => {
                lemma_batch_spare(
                    watch_next(watch, loaded(at as int), Seq::empty()).0,
                    loaded,
                    injected,
                    (fuel - 1) as nat,
                );
            },
            WatchStep::Inject { at } => {
                lemma_batch_spare(
                    watch_next(watch, injected(at as int), Seq::empty()).0,
                    loaded,
                    injected,
                    (fuel - 1) as nat,
                );
            },
            _ => {},
        }
    }
}

/// Every new process is seen to before the watch rests: in the end exactly those
/// are known that were known before, had the fix already, or got it.
pub proof fn law_every_new_process_is_seen_to(
    watch: WatchView,
    loaded: spec_fn(int) -> bool,
    injected: spec_fn(int) -> bool,
)
    requires
        0 < watch.pending.len() <= usize::MAX,
        watch.step == (WatchStep::CheckLoaded { at: 0 }),
    ensures
        batch_run(watch, loaded, injected, 2 * watch.pending.len()) == (WatchView {
            known: known_after(watch, loaded, injected, watch.pending.len()),
            step: WatchStep::Rest,
            ..watch
        }),
{
    lemma_batch(watch, watch, loaded, injected, 0, 2 * watch.pending.len());
}

/// In every run, a watch that is told not to go on is over: its next work is to
/// stop, and it says so, whatever processes are known or new.
pub proof fn law_watch_stops_when_told(replies: Seq<(bool, Seq<u32>)>)
    requires
        replies.len() > 0,
        watch_action(watch_run(replies.drop_last())) == WatchAction::CheckRunning,
        !replies.last().0,
    ensures
        watch_action(watch_run(replies)) == WatchAction::Stop,
        note_at(replies, replies.len() - 1) == WatchNote::Stopped,
{
    assert(replies.take(replies.len() - 1) == replies.drop_last());
}

/// A watch that is over stays so whatever it is told, and says nothing more.
pub proof fn law_stopped_watch_stays_stopped(
    replies: Seq<(bool, Seq<u32>)>,
    more: Seq<(bool, Seq<u32>)>,
)
    requires
        watch_action(watch_run(replies)) == WatchAction::Stop,
    ensures
        watch_action(watch_run(replies + more)) == WatchAction::Stop,
        more.len() > 0 ==> note_at(replies + more, replies.len() + more.len() - 1)
            == WatchNote::Quiet,
    decreases more.len(),
{
    let all = replies + more;
    if more.len() > 0 {
        law_stopped_watch_stays_stopped(replies, more.drop_last());
        assert(all.drop_last() == replies + more.drop_last());
        assert(all.take(all.len() - 1) == all.drop_last());
    } else {
        assert(all == replies);
    }
}

/// The watch is over only because it was told not to go on, and is told so only
/// when it asks; asked and told to go on, it looks for processes.
pub proof fn law_watch_goes_on_until_told(watch: WatchView, yes: bool, pids: Seq<u32>)
    ensures
        watch_start().step == WatchStep::CheckRunning,
        watch_start().known == Set::<u32>::empty(),
        watch_start().pending.len() == 0,
        ({
            let next = watch_next(watch, yes, pids);
            &&& next.0.step == WatchStep::Stopped ==> watch.step == WatchStep::Stopped
                || (watch.step == WatchStep::CheckRunning && !yes)
            &&& next.1 == WatchNote::Stopped <==> watch.step == WatchStep::CheckRunning && !yes
            &&& watch.step == WatchStep::CheckRunning ==> next.0.known == watch.known
                && next.0.pending == watch.pending
            &&& watch.step == WatchStep::CheckRunning && yes ==> next.0.step
                == WatchStep::FindProcesses && next.1 == WatchNote::Quiet
            &&& watch.step == WatchStep::CheckRunning && !yes ==> next.0.step
                == WatchStep::Stopped
            &&& watch.step == WatchStep::Rest ==> next.0.step == WatchStep::CheckRunning
                && next.0.known == watch.known && next.1 == WatchNote::Quiet
        }),
{
}

/// Whether those that do not run any more are forgotten first makes no difference
/// to which of the running processes are new.
proof fn lemma_new_of_running(known: Set<u32>, all: Seq<u32>, pids: Seq<u32>)
    requires
        forall|i: int| 0 <= i < pids.len() ==> all.contains(#[trigger] pids[i]),
    ensures
        new_pids(still_known(known, all), pids) == pids.filter(|pid: u32| !known.contains(pid)),
    decreases pids.len(),
{
    reveal(Seq::filter);
    if pids.len() > 0 {
        let shorter = pids.drop_last();
        assert forall|i: int| 0 <= i < shorter.len() implies all.contains(#[trigger] shorter[i]) by {
            assert(shorter[i] == pids[i]);
        }
        lemma_new_of_running(known, all, shorter);
        assert(all.contains(pids[pids.len() - 1]));
        assert(all.to_set().contains(pids.last()));
    }
}

/// A look forgets the processes that it does not find, and takes as new, in their
/// order, those that it finds and that are not known. If there are any, they are
/// told of and given time; if not, the watch rests.
pub proof fn law_look_finds_the_new_processes(watch: WatchView, yes: bool, pids: Seq<u32>, pid: u32)
    requires
        watch.step == WatchStep::FindProcesses,
    ensures
        ({
            let next = watch_next(watch, yes, pids);
            let new = pids.filter(|p: u32| !watch.known.contains(p));
            &&& next.0.pending == new
            &&& next.0.known.contains(pid) <==> watch.known.contains(pid) && pids.contains(pid)
            &&& new.len() > 0 ==> next.0.step == WatchStep::Settle
                && next.1 == WatchNote::NewProcesses
            &&& new.len() == 0 ==> next.0.step == WatchStep::Rest && next.1 == WatchNote::Quiet
        }),
{
    assert forall|i: int| 0 <= i < pids.len() implies pids.contains(#[trigger] pids[i]) by {}
    lemma_new_of_running(watch.known, pids, pids);
    assert(pids.to_set().contains(pid) <==> pids.contains(pid));
}

/// The new processes are seen to one by one from the first on: each is asked for
/// the fix, and given it if it has none. One that has it or gets it is known from
/// then on, one that cannot be given it is not; each outcome is told with its
/// process, and the next process, or rest, comes after it.
pub proof fn law_new_processes_are_seen_to_in_turn(
    watch: WatchView,
    yes: bool,
    pids: Seq<u32>,
    at: usize,
)
    requires
        at < watch.pending.len() <= usize::MAX,
    ensures
        ({
            let pid = watch.pending[at as int];
            let next = watch_next(watch, yes, pids);
            let past = |step: WatchStep|
                {
                    &&& at + 1 < watch.pending.len() ==> (step matches WatchStep::CheckLoaded {
                        at: after,
                    } && after == at + 1)
                    &&& at + 1 >= watch.pending.len() ==> step == WatchStep::Rest
                };
            &&& watch.step == WatchStep::Settle ==> next.0.step == (WatchStep::CheckLoaded {
                at: 0,
            }) && next.0.known == watch.known && next.0.pending == watch.pending && next.1
                == WatchNote::Quiet
            &&& watch.step == (WatchStep::CheckLoaded { at }) && !yes ==> next.0.step == (
            WatchStep::Inject { at }) && next.0.known == watch.known && next.0.pending
                == watch.pending && next.1 == WatchNote::Quiet
            &&& watch.step == (WatchStep::CheckLoaded { at }) && yes ==> past(next.0.step)
                && next.0.known == watch.known.insert(pid) && next.0.pending == watch.pending
                && next.1 == WatchNote::AlreadyInjected(pid)
            &&& watch.step == (WatchStep::Inject { at }) && yes ==> past(next.0.step)
                && next.0.known == watch.known.insert(pid) && next.0.pending == watch.pending
                && next.1 == WatchNote::Injected(pid)
            &&& watch.step == (WatchStep::Inject { at }) && !yes ==> past(next.0.step)
                && next.0.known == watch.known && next.0.pending == watch.pending && next.1
                == WatchNote::Failed(pid)
        }),
{
}

/// Each step asks for its own work, about the process at hand where it is about
/// one.
pub proof fn law_watch_asks_about_the_process(watch: WatchView, at: usize)
    ensures
        watch.step == WatchStep::CheckRunning ==> watch_action(watch) == WatchAction::CheckRunning,
        watch.step == WatchStep::FindProcesses ==> watch_action(watch)
            == WatchAction::FindProcesses,
        watch.step == WatchStep::Settle ==> watch_action(watch) == WatchAction::Settle,
        watch.step == (WatchStep::CheckLoaded { at }) ==> watch_action(watch)
            == WatchAction::CheckLoaded(watch.pending[at as int]),
        watch.step == (WatchStep::Inject { at }) ==> watch_action(watch) == WatchAction::Inject(
            watch.pending[at as int],
        ),
        watch.step == WatchStep::Rest ==> watch_action(watch) == WatchAction::Rest,
        watch.step == WatchStep::Stopped ==> watch_action(watch) == WatchAction::Stop,
{
}

/// What the watch tells is worded with the processes that it is about.
pub proof fn law_notes_name_their_processes(pid: u32, pending: Seq<u32>, detail: Seq<char>)
    ensures
        note_text(WatchNote::Quiet, pending, detail) is None,
        note_text(WatchNote::NewProcesses, pending, detail) == Some(
            "New Teams process(es) detected: "@ + list_text(
                Seq::new(pending.len(), |i: int| pending[i] as nat),
            ),
        ),
        note_text(WatchNote::AlreadyInjected(pid), pending, detail) == Some(
            "PID "@ + decimal(pid as nat) + ": already injected, skipping"@,
        ),
        note_text(WatchNote::Injected(pid), pending, detail) == Some(
            "PID "@ + decimal(pid as nat) + ": injected successfully"@,
        ),
        note_text(WatchNote::Failed(pid), pending, detail) == Some(
            "PID "@ + decimal(pid as nat) + ": injection failed: "@ + detail,
        ),
        note_text(WatchNote::Stopped, pending, detail) == Some("Watcher stopped"@),
{
    assert(pending.map_values(|p: u32| p as nat) =~= Seq::new(
        pending.len(),
        |i: int| pending[i] as nat,
    ));
}

/// Nothing but a successful injection calls for a notification, which names the
/// process, or is recorded, as the latest one and as one more.
pub proof fn law_injections_alone_are_shown(
    state: StateView,
    note: WatchNote,
    time: LocalTime,
    pid: u32,
)
    ensures
        !(note is Injected) ==> notice_text(note) is None && noted(state, note, time) == state,
        notice_text(WatchNote::Injected(pid)) == Some(
            "Injected into Teams (PID "@ + decimal(pid as nat) + ")"@,
        ),
        ({
            let after = noted(state, WatchNote::Injected(pid), time);
            &&& after.injected_count == state.injected_count + 1
            &&& after.last_injection == Some(injection_text(pid, time))
            &&& after.broken_devices == state.broken_devices
        }),
{
}

/// The start of the watch names the library, and the check before it is summed up
/// by the number of devices it found.
pub proof fn law_start_names_library_and_findings(dll_path: Seq<char>, count: nat)
    ensures
        started_text(dll_path) == "Started watching for ms-teams.exe (DLL: "@ + dll_path + ")"@,
        count > 0 ==> preflight_text(count) == "Preflight: "@ + decimal(count)
            + " device(s) with broken string descriptors:"@,
        preflight_text(0) == "Preflight: no USB devices with broken string descriptors detected"@,
{
}

/// What the display says of the watcher is what was recorded.
pub proof fn law_state_view_is_faithful(state: WatcherState)
    ensures
        state@.injected_count == state.injected_count,
        state@.broken_devices == state.broken_devices,
        state.last_injection is None ==> state@.last_injection is None,
        state.last_injection is Some ==> state@.last_injection == Some(state.last_injection->0@),
{
}

/// Looks are two seconds apart, and new processes are given two seconds.
pub proof fn law_watch_waits_two_seconds()
    ensures
        POLL_INTERVAL_SECS == 2,
        INJECT_DELAY_SECS == 2,
{
}

} // verus!
