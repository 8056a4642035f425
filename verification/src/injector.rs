//! Fixing the processes that run now, once.

use vstd::prelude::*;
use crate::preflight::{BrokenDevice, device_line};
use crate::preflight::device_text;
use crate::text::{push_decimal, push_list};
use crate::text::{decimal, list_text};

verus! {

/// Work to do outside for the run.
#[derive(Clone, Copy, Debug, PartialEq, Eq, Structural)]
pub enum RunAction {
    /// See whether the process has the fix already.
    CheckLoaded(u32),
    /// Load the fix into the process.
    Inject(u32),
    /// Nothing; every process was seen to.
    Finish,
}

/// How a process fared.
#[derive(Clone, Copy, Debug, PartialEq, Eq, Structural)]
pub enum RunNote {
    /// Nothing is decided yet.
    Pending,
    /// It had the fix already.
    Skipped,
    /// It got the fix.
    Injected,
    /// It could not be given the fix.
    Failed,
}

/// How far the run has come: the processes, the one at hand, how many had the
/// fix already, and whether the one at hand is about to get it.
pub struct InjectorRun {
    pids: Vec<u32>,
    at: usize,
    already: usize,
    injecting: bool,
}

/// How far the run has come.
#[verifier::ext_equal]
pub struct RunView {
    pub pids: Seq<u32>,
    pub at: nat,
    pub already: nat,
    pub injecting: bool,
}

impl View for InjectorRun {
    type V = RunView;

    closed spec fn view(&self) -> RunView {
        RunView {
            pids: self.pids@,
            at: self.at as nat,
            already: self.already as nat,
            injecting: self.injecting,
        }
    }
}

/// The run before its first answer.
pub open spec fn run_start(pids: Seq<u32>) -> RunView {
    RunView { pids, at: 0, already: 0, injecting: false }
}

/// The work that is to be done next.
pub open spec fn run_action(run: RunView) -> RunAction {
    if run.at >= run.pids.len() {
        RunAction::Finish
    } else if run.injecting {
        RunAction::Inject(run.pids[run.at as int])
    } else {
        RunAction::CheckLoaded(run.pids[run.at as int])
    }
}

/// The run after an answer, and how the process at hand fared.
pub open spec fn run_next(run: RunView, yes: bool) -> (RunView, RunNote) {
    if run.at >= run.pids.len() {
        (run, RunNote::Pending)
    } else if run.injecting {
        (
            RunView { at: run.at + 1, injecting: false, ..run },
            if yes {
                RunNote::Injected
            } else {
                RunNote::Failed
            },
        )
    } else if yes {
        (RunView { at: run.at + 1, already: run.already + 1, ..run }, RunNote::Skipped)
    } else {
        (RunView { injecting: true, ..run }, RunNote::Pending)
    }
}

impl InjectorRun {
    /// No more processes had the fix already than were seen to.
    #[verifier::type_invariant]
    spec fn counts_fit(self) -> bool {
        self.already <= self.at <= self.pids.len()
    }

    /// Starts the run if there are processes to see to.
    pub fn begin(pids: Vec<u32>) -> (begun: Result<InjectorRun, Refusal>)
        ensures
            match begun {
                Ok(run) => pids@.len() > 0 && run@ == run_start(pids@),
                Err(refusal) => pids@.len() == 0 && refusal == Refusal::NotRunning,
            },
    {
        if pids.len() == 0 {
            Err(Refusal::NotRunning)
        } else {
            Ok(InjectorRun::new(pids))
        }
    }

    /// Starts the run over the given processes.
    pub fn new(pids: Vec<u32>) -> (run: InjectorRun)
        ensures
            run@ == run_start(pids@),
    {
        InjectorRun { pids, at: 0, already: 0, injecting: false }
    }

    /// The work that is to be done next.
    pub fn action(&self) -> (action: RunAction)
        ensures
            action == run_action(self@),
    {
        if self.at >= self.pids.len() {
            RunAction::Finish
        } else if self.injecting {
            RunAction::Inject(self.pids[self.at])
        } else {
            RunAction::CheckLoaded(self.pids[self.at])
        }
    }

    /// Takes an answer, and says how the process at hand fared.
    pub fn advance(self, yes: bool) -> (next: (InjectorRun, RunNote))
        ensures
            (next.0@, next.1) == run_next(self@, yes),
    {
        proof {
            use_type_invariant(&self);
        }
        if self.at >= self.pids.len() {
            (self, RunNote::Pending)
        } else if self.injecting {
            let note: RunNote = if yes {
                RunNote::Injected
            } else {
                RunNote::Failed
            };
            (
                InjectorRun {
                    pids: self.pids,
                    at: self.at + 1,
                    already: self.already,
                    injecting: false,
                },
                note,
            )
        } else if yes {
            (
                InjectorRun {
                    pids: self.pids,
                    at: self.at + 1,
                    already: self.already + 1,
                    injecting: self.injecting,
                },
                RunNote::Skipped,
            )
        } else {
            (
                InjectorRun {
                    pids: self.pids,
                    at: self.at,
                    already: self.already,
                    injecting: true,
                },
                RunNote::Pending,
            )
        }
    }

    /// Whether all processes had the fix already.
    pub fn nothing_to_do(&self) -> (all: bool)
        ensures
            all == (self@.already == self@.pids.len()),
    {
        self.already == self.pids.len()
    }
}

/// How many of the first `n` processes had the fix already.
pub open spec fn loaded_count(loaded: spec_fn(int) -> bool, n: nat) -> nat
    decreases n,
{
    if n == 0 {
        0
    } else if loaded(n - 1) {
        loaded_count(loaded, (n - 1) as nat) + 1
    } else {
        loaded_count(loaded, (n - 1) as nat)
    }
}

/// The run after at most `fuel` more answers.
pub open spec fn run_on(
    run: RunView,
    loaded: spec_fn(int) -> bool,
    injected: spec_fn(int) -> bool,
    fuel: nat,
) -> RunView
    decreases fuel,
{
    if fuel == 0 || run.at >= run.pids.len() {
        run
    } else {
        let yes = if run.injecting {
            injected(run.at as int)
        } else {
            loaded(run.at as int)
        };
        run_on(run_next(run, yes).0, loaded, injected, (fuel - 1) as nat)
    }
}

/// A run that has counted right so far sees to every process.
proof fn lemma_run(
    run: RunView,
    loaded: spec_fn(int) -> bool,
    injected: spec_fn(int) -> bool,
    fuel: nat,
)
    requires
        run.at <= run.pids.len(),
        run.already == loaded_count(loaded, run.at),
        run.injecting ==> run.at < run.pids.len() && !loaded(run.at as int),
        fuel >= 2 * (run.pids.len() - run.at) - (if run.injecting {
            1int
        } else {
            0int
        }),
    ensures
        ({
            let end = run_on(run, loaded, injected, fuel);
            &&& end.pids == run.pids
            &&& end.at == run.pids.len()
            &&& end.already == loaded_count(loaded, run.pids.len())
        }),
    decreases fuel,
{
    if run.at < run.pids.len() {
        let yes = if run.injecting {
            injected(run.at as int)
        } else {
            loaded(run.at as int)
        };
        lemma_run(run_next(run, yes).0, loaded, injected, (fuel - 1) as nat);
    }
}

/// Not all are counted if one is missing.
proof fn lemma_loaded_count(loaded: spec_fn(int) -> bool, n: nat)
    ensures
        loaded_count(loaded, n) <= n,
        loaded_count(loaded, n) == n <==> forall|i: int| 0 <= i < n ==> #[trigger] loaded(i),
    decreases n,
{
    if n > 0 {
        lemma_loaded_count(loaded, (n - 1) as nat);
    }
}

/// The run sees to every process, and finds nothing to do if and only if each of
/// them had the fix already.
pub proof fn law_run_sees_to_every_process(
    pids: Seq<u32>,
    loaded: spec_fn(int) -> bool,
    injected: spec_fn(int) -> bool,
)
    ensures
        ({
            let end = run_on(run_start(pids), loaded, injected, 2 * pids.len());
            &&& run_action(end) == RunAction::Finish
            &&& end.already == pids.len() <==> forall|i: int|
                0 <= i < pids.len() ==> #[trigger] loaded(i)
        }),
{
    lemma_run(run_start(pids), loaded, injected, 2 * pids.len());
    lemma_loaded_count(loaded, pids.len());
}

/// The fix is loaded only into a process that was just seen not to have it, and
/// that is one of those the run was given.
pub proof fn law_run_injects_only_where_missing(run: RunView, yes: bool, pid: u32)
    requires
        run_action(run_next(run, yes).0) == RunAction::Inject(pid),
    ensures
        run_action(run) == RunAction::CheckLoaded(pid) && !yes,
        run.pids.contains(pid),
        run_next(run, yes).0.pids == run.pids,
{
}

/// Why there is no run.
#[derive(Clone, Copy, Debug, PartialEq, Eq, Structural)]
pub enum Refusal {
    /// The library was not found.
    NoLibrary,
    /// The program is not running.
    NotRunning,
}

/// Settles whether anything is done at all: nothing is without the library.
pub fn require_dll(dll_path: Option<String>) -> (required: Result<String, Refusal>)
    ensures
        match required {
            Ok(path) => dll_path == Some(path),
            Err(refusal) => dll_path is None && refusal == Refusal::NoLibrary,
        },
{
    match dll_path {
        Some(path) => Ok(path),
        None => Err(Refusal::NoLibrary),
    }
}

/// The lines that say why there is no run.
pub fn refusal_lines(refusal: Refusal) -> (lines: Vec<&'static str>)
    ensures
        lines@ == (match refusal {
            Refusal::NoLibrary => seq![
                "ERROR: teams_usb_fix.dll not found.",
                "Place teams_usb_fix.dll next to this executable.",
            ],
            Refusal::NotRunning => seq!["ERROR: ms-teams.exe is not running."],
        }),
{
    let mut lines: Vec<&'static str> = Vec::new();
    match refusal {
        Refusal::NoLibrary => {
            lines.push("ERROR: teams_usb_fix.dll not found.");
            lines.push("Place teams_usb_fix.dll next to this executable.");
        },
        Refusal::NotRunning => {
            lines.push("ERROR: ms-teams.exe is not running.");
        },
    }
    lines
}

/// Announces the process at hand.
pub fn progress_text(pid: u32) -> (text: String)
    ensures
        text@ == "PID "@ + decimal(pid as nat) + "... "@,
{
    let mut text: String = String::new();
    text.append("PID ");
    push_decimal(&mut text, pid as u64);
    text.append("... ");
    text
}

/// Words how a process fared; `detail` is why it could not be given the fix.
pub fn outcome_text(note: RunNote, detail: &str) -> (text: String)
    ensures
        text@ == (match note {
            RunNote::Pending => Seq::empty(),
            RunNote::Skipped => "SKIP (already injected)"@,
            RunNote::Injected => "OK"@,
            RunNote::Failed => "FAILED: "@ + detail@,
        }),
{
    let mut text: String = String::new();
    match note {
        RunNote::Pending => {},
        RunNote::Skipped => {
            text.append("SKIP (already injected)");
        },
        RunNote::Injected => {
            text.append("OK");
        },
        RunNote::Failed => {
            text.append("FAILED: ");
            text.append(detail);
        },
    }
    text
}

/// Lists the processes found.
pub fn found_text(pids: &Vec<u32>) -> (text: String)
    ensures
        text@ == "Found "@ + decimal(pids@.len()) + " ms-teams.exe process(es): "@ + list_text(
            pids@.map_values(|pid: u32| pid as nat),
        ),
{
    let mut text: String = String::new();
    text.append("Found ");
    push_decimal(&mut text, pids.len() as u64);
    text.append(" ms-teams.exe process(es): ");
    push_list(&mut text, pids);
    text
}

/// Sums up the check before the run.
pub open spec fn check_text(count: nat) -> Seq<char> {
    if count == 0 {
        "No USB devices with broken string descriptors detected. Injection may not be necessary."@
    } else {
        "Found "@ + decimal(count) + " device(s) with broken string descriptors:"@
    }
}

/// The lines that report the check before the run: a summary, and one line for
/// each device.
pub fn check_lines(broken: &Vec<BrokenDevice>) -> (lines: Vec<String>)
    ensures
        lines@.len() == broken@.len() + 1,
        lines@[0]@ == check_text(broken@.len()),
        forall|i: int|
            0 <= i < broken@.len() ==> (#[trigger] lines@[i + 1])@ == "  "@ + device_text(
                broken@[i]@,
            ),
{
    let mut summary: String = String::new();
    if broken.len() == 0 {
        summary.append(
            "No USB devices with broken string descriptors detected. Injection may not be necessary.",
        );
    } else {
        summary.append("Found ");
        push_decimal(&mut summary, broken.len() as u64);
        summary.append(" device(s) with broken string descriptors:");
    }
    let mut lines: Vec<String> = Vec::new();
    lines.push(summary);
    let mut i: usize = 0;
    while i < broken.len()
        invariant
            i <= broken.len(),
            lines@.len() == i + 1,
            lines@[0]@ == check_text(broken@.len()),
            forall|k: int|
                0 <= k < i ==> (#[trigger] lines@[k + 1])@ == "  "@ + device_text(broken@[k]@),
        decreases broken.len() - i,
    {
        lines.push(device_line("  ", &broken[i]));
        i = i + 1;
    }
    lines
}

/// A process that is found to lack the fix has it loaded next, and one that has
/// it is passed over; neither happens to any other process, and each outcome is
/// told as what it is.
pub proof fn law_run_injects_wherever_missing(run: RunView, yes: bool, pid: u32)
    ensures
        run_next(run, yes).0.pids == run.pids,
        run_action(run) == RunAction::CheckLoaded(pid) && !yes ==> ({
            let next = run_next(run, yes);
            &&& run_action(next.0) == RunAction::Inject(pid)
            &&& next.0.at == run.at && next.0.already == run.already
            &&& next.1 == RunNote::Pending
        }),
        run_action(run) == RunAction::CheckLoaded(pid) && yes ==> ({
            let next = run_next(run, yes);
            &&& next.0.at == run.at + 1 && next.0.already == run.already + 1
            &&& !next.0.injecting
            &&& next.1 == RunNote::Skipped
        }),
        run_action(run) == RunAction::Inject(pid) ==> ({
            let next = run_next(run, yes);
            &&& next.0.at == run.at + 1 && next.0.already == run.already
            &&& !next.0.injecting
            &&& yes ==> next.1 == RunNote::Injected
            &&& !yes ==> next.1 == RunNote::Failed
        }),
        run_next(run, yes).1 == RunNote::Failed || run_next(run, yes).1 == RunNote::Injected
            ==> run_action(run) is Inject,
        run_action(run) == RunAction::Finish ==> run_next(run, yes).0 == run,
{
}

/// The run is at the process that it has counted to, asks about it first, and is
/// over behind the last.
pub proof fn law_run_goes_process_by_process(run: RunView)
    ensures
        run_start(run.pids).pids == run.pids,
        run_start(run.pids).at == 0 && run_start(run.pids).already == 0,
        !run_start(run.pids).injecting,
        run.at < run.pids.len() && !run.injecting ==> run_action(run) == RunAction::CheckLoaded(
            run.pids[run.at as int],
        ),
        run.at < run.pids.len() && run.injecting ==> run_action(run) == RunAction::Inject(
            run.pids[run.at as int],
        ),
        run.at >= run.pids.len() ==> run_action(run) == RunAction::Finish,
{
}

/// The run after the given answers.
pub open spec fn run_after(pids: Seq<u32>, answers: Seq<bool>) -> RunView
    decreases answers.len(),
{
    if answers.len() == 0 {
        run_start(pids)
    } else {
        run_next(run_after(pids, answers.drop_last()), answers.last()).0
    }
}

/// How far a run has come is kept in range, and the processes stay.
proof fn lemma_run_after(pids: Seq<u32>, answers: Seq<bool>)
    ensures
        run_after(pids, answers).pids == pids,
        run_after(pids, answers).at <= pids.len(),
        run_after(pids, answers).injecting ==> run_after(pids, answers).at < pids.len(),
    decreases answers.len(),
{
    if answers.len() > 0 {
        lemma_run_after(pids, answers.drop_last());
    }
}

/// A run comes to each process: whatever was answered, if it is past the process
/// at `i`, then it has asked whether that process has the fix, and if the answer
/// was no, it has gone on to load the fix into it.
pub proof fn law_every_process_without_the_fix_gets_it(pids: Seq<u32>, answers: Seq<bool>, i: int)
    requires
        0 <= i < run_after(pids, answers).at,
    ensures
        exists|n: int|
            {
                &&& 0 <= n < answers.len()
                &&& #[trigger] run_action(run_after(pids, answers.take(n)))
                    == RunAction::CheckLoaded(pids[i])
                &&& !answers[n] ==> n + 1 < answers.len() && run_action(
                    run_after(pids, answers.take(n + 1)),
                ) == RunAction::Inject(pids[i])
            },
    decreases answers.len(),
{
    let m = answers.len() - 1;
    if answers.len() > 0 {
        let before = answers.drop_last();
        let run = run_after(pids, before);
        assert(before == answers.take(m));
        lemma_run_after(pids, before);
        if i < run.at {
            law_every_process_without_the_fix_gets_it(pids, before, i);
            let n = choose|n: int|
                {
                    &&& 0 <= n < before.len()
                    &&& #[trigger] run_action(run_after(pids, before.take(n)))
                        == RunAction::CheckLoaded(pids[i])
                    &&& !before[n] ==> n + 1 < before.len() && run_action(
                        run_after(pids, before.take(n + 1)),
                    ) == RunAction::Inject(pids[i])
                };
            assert(before.take(n) == answers.take(n));
            if n + 1 < before.len() {
                assert(before.take(n + 1) == answers.take(n + 1));
            }
            assert(run_action(run_after(pids, answers.take(n))) == RunAction::CheckLoaded(pids[i]));
        } else if run.injecting {
            lemma_injecting_was_asked(pids, before);
            let n = m - 1;
            assert(before.drop_last() == answers.take(n));
            assert(answers.take(n + 1) == before);
            assert(before.last() == answers[n]);
            assert(run_action(run_after(pids, answers.take(n))) == RunAction::CheckLoaded(pids[i]));
        } else {
            assert(run_action(run_after(pids, answers.take(m))) == RunAction::CheckLoaded(pids[i]));
        }
    }
}

/// Where the fix is to be loaded, it was just asked for and missing.
proof fn lemma_injecting_was_asked(pids: Seq<u32>, answers: Seq<bool>)
    requires
        run_after(pids, answers).injecting,
    ensures
        answers.len() > 0,
        !answers.last(),
        run_action(run_after(pids, answers.drop_last())) == RunAction::CheckLoaded(
            pids[run_after(pids, answers).at as int],
        ),
        run_after(pids, answers.drop_last()).at == run_after(pids, answers).at,
{
    if answers.len() > 0 {
        lemma_run_after(pids, answers.drop_last());
    }
}

/// The check before the run is summed up by the number of devices it found.
pub proof fn law_check_summary_counts(count: nat)
    ensures
        count > 0 ==> check_text(count) == "Found "@ + decimal(count)
            + " device(s) with broken string descriptors:"@,
        check_text(0)
            == "No USB devices with broken string descriptors detected. Injection may not be necessary."@,
{
}

} // verus!
