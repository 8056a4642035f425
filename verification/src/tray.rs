//! The icon in the system tray: what a window message asks for, what the menu
//! and the status display say, and how the tray is set up and taken down.

use vstd::prelude::*;
use crate::bits::to_unsigned;
use crate::bits::unsigned_bits;
use crate::text::push_decimal;
use crate::text::decimal;
use crate::usb::opt_text;
use crate::watcher::WatcherState;

verus! {

/// Window message that the tray icon sends.
pub const WM_TRAY_ICON: u32 = 0x0401;

/// Window message that asks for a notification to be shown.
pub const WM_TRAY_BALLOON: u32 = 0x0402;

/// Window message about a chosen menu item.
pub const WM_COMMAND: u32 = 0x0111;

/// Window message about the window's end.
pub const WM_DESTROY: u32 = 0x0002;

/// Mouse event of a released right button.
pub const WM_RBUTTONUP: u32 = 0x0205;

/// Menu item that shows the status.
pub const IDM_STATUS: usize = 1001;

/// Menu item that opens the log.
pub const IDM_OPEN_LOG: usize = 1002;

/// Menu item that ends the program.
pub const IDM_EXIT: usize = 1003;

/// Number of the tray icon.
pub const TRAY_ICON_ID: u32 = 1;

/// How long a notification is shown, in milliseconds.
pub const BALLOON_TIMEOUT_MS: u32 = 5000;

/// Title of notifications and of the status display.
pub const TRAY_TITLE: &'static str = "Teams USB Fix";

/// Text beside the tray icon.
pub const TRAY_TIP: &'static str = "Teams USB Fix - Watching";

/// Name of the window class.
pub const TRAY_CLASS: &'static str = "TeamsUSBFixTrayWnd";

/// Name of the window.
pub const TRAY_WINDOW: &'static str = "Teams USB Fix Tray";

/// What a window message asks for.
#[derive(Clone, Copy, Debug, PartialEq, Eq, Structural)]
pub enum TrayAction {
    /// Show the menu.
    ShowMenu,
    /// Show the status.
    ShowStatus,
    /// Open the log.
    OpenLog,
    /// Stop the watch and close the window.
    Exit,
    /// Show a notification.
    ShowBalloon,
    /// Stop the watch and end the message loop.
    Quit,
    /// Do nothing.
    Nothing,
    /// Leave the message to the system.
    Default,
}

/// What a window message asks for.
pub open spec fn tray_action_of(msg: u32, wparam: usize, lparam: isize) -> TrayAction {
    if msg == WM_TRAY_ICON {
        if unsigned_bits(lparam) % 0x10000 == WM_RBUTTONUP {
            TrayAction::ShowMenu
        } else {
            TrayAction::Nothing
        }
    } else if msg == WM_COMMAND {
        let item = wparam % 0x10000;
        if item == IDM_STATUS {
            TrayAction::ShowStatus
        } else if item == IDM_OPEN_LOG {
            TrayAction::OpenLog
        } else if item == IDM_EXIT {
            TrayAction::Exit
        } else {
            TrayAction::Nothing
        }
    } else if msg == WM_TRAY_BALLOON {
        TrayAction::ShowBalloon
    } else if msg == WM_DESTROY {
        TrayAction::Quit
    } else {
        TrayAction::Default
    }
}

/// Reads a window message. The mouse event of the icon and the menu item are in
/// the low halves of the parameters.
pub fn tray_action(msg: u32, wparam: usize, lparam: isize) -> (action: TrayAction)
    ensures
        action == tray_action_of(msg, wparam, lparam),
{
    match msg {
        WM_TRAY_ICON => {
            if to_unsigned(lparam) % 0x10000 == WM_RBUTTONUP as usize {
                TrayAction::ShowMenu
            } else {
                TrayAction::Nothing
            }
        },
        WM_COMMAND => match wparam % 0x10000 {
            IDM_STATUS => TrayAction::ShowStatus,
            IDM_OPEN_LOG => TrayAction::OpenLog,
            IDM_EXIT => TrayAction::Exit,
            _ => TrayAction::Nothing,
        },
        WM_TRAY_BALLOON => TrayAction::ShowBalloon,
        WM_DESTROY => TrayAction::Quit,
        _ => TrayAction::Default,
    }
}

/// The items of the menu: number and text.
pub fn menu_items() -> (items: Vec<(usize, &'static str)>)
    ensures
        items@.len() == 3,
        items@[0].0 == IDM_STATUS && items@[0].1@ == "Status"@,
        items@[1].0 == IDM_OPEN_LOG && items@[1].1@ == "Open Log"@,
        items@[2].0 == IDM_EXIT && items@[2].1@ == "Exit"@,
{
    let mut items: Vec<(usize, &'static str)> = Vec::new();
    items.push((IDM_STATUS, "Status"));
    items.push((IDM_OPEN_LOG, "Open Log"));
    items.push((IDM_EXIT, "Exit"));
    items
}

/// The status display.
pub open spec fn status_of(
    injected: u32,
    last: Option<Seq<char>>,
    broken: u32,
    teams_running: bool,
) -> Seq<char> {
    "Teams USB Fix \u{2014} Status\n\nInjections: "@ + decimal(injected as nat)
        + "\nLast injection: "@ + (match last {
        Some(text) => text,
        None => "(none yet)"@,
    }) + "\nBroken USB devices: "@ + decimal(broken as nat) + "\nTeams running: "@ + (
    if teams_running {
        "Yes"@
    } else {
        "No"@
    })
}

/// Makes the status display. While there is no watch, it says that nothing was
/// done and nothing runs.
pub fn status_text(state: Option<&WatcherState>, teams_running: bool) -> (text: String)
    ensures
        text@ == (match state {
            Some(state) => status_of(
                state.injected_count,
                opt_text(state.last_injection),
                state.broken_devices,
                teams_running,
            ),
            None => status_of(0, None, 0, false),
        }),
{
    let mut text: String = String::new();
    text.append("Teams USB Fix \u{2014} Status\n\nInjections: ");
    match state {
        Some(state) => {
            push_decimal(&mut text, state.injected_count as u64);
            text.append("\nLast injection: ");
            match &state.last_injection {
                Some(last) => {
                    text.append(last);
                },
                None => {
                    text.append("(none yet)");
                },
            }
            text.append("\nBroken USB devices: ");
            push_decimal(&mut text, state.broken_devices as u64);
            text.append("\nTeams running: ");
            if teams_running {
                text.append("Yes");
            } else {
                text.append("No");
            }
        },
        None => {
            push_decimal(&mut text, 0);
            text.append("\nLast injection: ");
            text.append("(none yet)");
            text.append("\nBroken USB devices: ");
            push_decimal(&mut text, 0);
            text.append("\nTeams running: ");
            text.append("No");
        },
    }
    text
}

/// The step at which setting up the tray failed.
#[derive(Clone, Copy, Debug, PartialEq, Eq, Structural)]
pub enum TrayError {
    RegisterClass,
    CreateWindow,
}

/// The steps of running in the tray.
#[derive(Clone, Copy, Debug, PartialEq, Eq, Structural)]
pub enum TrayStep {
    /// Register the window class.
    RegisterClass,
    /// Create the window.
    CreateWindow,
    /// Add the icon.
    AddIcon,
    /// Start the watch beside the window.
    StartWatch,
    /// Handle window messages.
    HandleMessages,
    /// Remove the icon.
    RemoveIcon,
    /// Nothing; it is over.
    Exited,
    /// Nothing; the tray could not be set up.
    Failed(TrayError),
}

/// The step after one that succeeded or failed. Without an icon the program
/// runs all the same.
pub open spec fn tray_next(step: TrayStep, ok: bool) -> TrayStep {
    match step {
        TrayStep::RegisterClass => if ok {
            TrayStep::CreateWindow
        } else {
            TrayStep::Failed(TrayError::RegisterClass)
        },
        TrayStep::CreateWindow => if ok {
            TrayStep::AddIcon
        } else {
            TrayStep::Failed(TrayError::CreateWindow)
        },
        TrayStep::AddIcon => TrayStep::StartWatch,
        TrayStep::StartWatch => TrayStep::HandleMessages,
        TrayStep::HandleMessages => TrayStep::RemoveIcon,
        TrayStep::RemoveIcon => TrayStep::Exited,
        TrayStep::Exited => TrayStep::Exited,
        TrayStep::Failed(error) => TrayStep::Failed(error),
    }
}

/// What there is to log of a step.
pub open spec fn tray_note(step: TrayStep, ok: bool, detail: Seq<char>) -> Option<Seq<char>> {
    match step {
        TrayStep::RegisterClass => if ok {
            None
        } else {
            Some("ERROR: RegisterClassExW failed for tray window"@)
        },
        TrayStep::CreateWindow => if ok {
            None
        } else {
            Some("ERROR: CreateWindowExW failed for tray window: "@ + detail)
        },
        TrayStep::AddIcon => if ok {
            None
        } else {
            Some("WARNING: Shell_NotifyIconW NIM_ADD failed (tray icon may not appear)"@)
        },
        TrayStep::RemoveIcon => Some("Tray mode exited"@),
        _ => None,
    }
}

impl TrayStep {
    /// Takes the outcome of a step.
    pub fn next(self, ok: bool) -> (step: TrayStep)
        ensures
            step == tray_next(self, ok),
    {
        match self {
            TrayStep::RegisterClass => if ok {
                TrayStep::CreateWindow
            } else {
                TrayStep::Failed(TrayError::RegisterClass)
            },
            TrayStep::CreateWindow => if ok {
                TrayStep::AddIcon
            } else {
                TrayStep::Failed(TrayError::CreateWindow)
            },
            TrayStep::AddIcon => TrayStep::StartWatch,
            TrayStep::StartWatch => TrayStep::HandleMessages,
            TrayStep::HandleMessages => TrayStep::RemoveIcon,
            TrayStep::RemoveIcon => TrayStep::Exited,
            TrayStep::Exited => TrayStep::Exited,
            TrayStep::Failed(error) => TrayStep::Failed(error),
        }
    }

    /// Words what there is to log of a step; `detail` is why it failed.
    pub fn note(self, ok: bool, detail: &str) -> (note: Option<String>)
        ensures
            opt_text(note) == tray_note(self, ok, detail@),
    {
        let mut text: String = String::new();
        match self {
            TrayStep::RegisterClass => {
                if ok {
                    return None;
                }
                text.append("ERROR: RegisterClassExW failed for tray window");
            },
            TrayStep::CreateWindow => {
                if ok {
                    return None;
                }
                text.append("ERROR: CreateWindowExW failed for tray window: ");
                text.append(detail);
            },
            TrayStep::AddIcon => {
                if ok {
                    return None;
                }
                text.append("WARNING: Shell_NotifyIconW NIM_ADD failed (tray icon may not appear)");
            },
            TrayStep::RemoveIcon => {
                text.append("Tray mode exited");
            },
            _ => {
                return None;
            },
        }
        Some(text)
    }
}

/// The steps from `step` on if each goes as `ok` says, at most `fuel` of them.
pub open spec fn tray_run(step: TrayStep, ok: spec_fn(TrayStep) -> bool, fuel: nat) -> Seq<TrayStep>
    decreases fuel,
{
    if fuel == 0 {
        Seq::empty()
    } else if step is Exited || step is Failed {
        seq![step]
    } else {
        seq![step] + tray_run(tray_next(step, ok(step)), ok, (fuel - 1) as nat)
    }
}

/// Once there is a window, the watch is started, messages are handled, and the
/// icon is removed in the end, whether or not it could be added; without a
/// window nothing is started.
pub proof fn law_tray_run(ok: spec_fn(TrayStep) -> bool)
    ensures
        tray_run(TrayStep::RegisterClass, ok, 7) =~= (if !ok(TrayStep::RegisterClass) {
            seq![TrayStep::RegisterClass, TrayStep::Failed(TrayError::RegisterClass)]
        } else if !ok(TrayStep::CreateWindow) {
            seq![
                TrayStep::RegisterClass,
                TrayStep::CreateWindow,
                TrayStep::Failed(TrayError::CreateWindow),
            ]
        } else {
            seq![
                TrayStep::RegisterClass,
                TrayStep::CreateWindow,
                TrayStep::AddIcon,
                TrayStep::StartWatch,
                TrayStep::HandleMessages,
                TrayStep::RemoveIcon,
                TrayStep::Exited,
            ]
        }),
{
    reveal_with_fuel(tray_run, 8);
}

/// What comes from the watch to the tray.
#[derive(Clone, Copy, Debug, PartialEq, Eq, Structural)]
pub enum RelayEvent {
    /// A notification to show.
    Notice,
    /// Nothing for a while.
    Timeout,
    /// Nothing any more; the watch is over.
    Disconnected,
}

/// What is done about it.
#[derive(Clone, Copy, Debug, PartialEq, Eq, Structural)]
pub enum RelayAction {
    /// Have the window show the notification.
    Post,
    /// Wait for more.
    Continue,
    /// Stop waiting.
    Stop,
    /// Stop the watch and stop waiting.
    StopWatch,
}

/// Decides what is done about what comes from the watch. That the tray was
/// closed is noticed when nothing has come for a while.
pub fn relay_action(event: RelayEvent, tray_running: bool) -> (action: RelayAction)
    ensures
        action == (match event {
            RelayEvent::Notice => RelayAction::Post,
            RelayEvent::Timeout => if tray_running {
                RelayAction::Continue
            } else {
                RelayAction::StopWatch
            },
            RelayEvent::Disconnected => RelayAction::Stop,
        }),
        action == relay_of(event, tray_running),
{
    match event {
        RelayEvent::Notice => RelayAction::Post,
        RelayEvent::Timeout => if tray_running {
            RelayAction::Continue
        } else {
            RelayAction::StopWatch
        },
        RelayEvent::Disconnected => RelayAction::Stop,
    }
}

/// Whether the message loop got a message to handle, from what the system
/// returned: zero at the end and a negative number after an error.
pub fn got_message(ret: i32) -> (message: bool)
    ensures
        message == (ret > 0),
{
    ret > 0
}

/// The icon shows its menu when the right mouse button is released on it, which
/// the low sixteen bits of the second parameter say, and at nothing else.
pub proof fn law_menu_comes_with_the_right_button(wparam: usize, lparam: isize)
    ensures
        (lparam as int) % 0x10000 == 0x205 ==> tray_action_of(0x401, wparam, lparam)
            == TrayAction::ShowMenu,
        (lparam as int) % 0x10000 != 0x205 ==> tray_action_of(0x401, wparam, lparam)
            == TrayAction::Nothing,
{
    crate::bits::law_unsigned_bits(lparam);
    assert(usize::MAX == 0xFFFF_FFFF || usize::MAX == 0xFFFF_FFFF_FFFF_FFFF);
    assert((usize::MAX + 1) % 0x10000 == 0);
    assert(unsigned_bits(lparam) as int % 0x10000 == (lparam as int) % 0x10000);
}

/// A chosen item of the menu, which the low sixteen bits of the first parameter
/// name, does what it says, and any other number does nothing.
pub proof fn law_menu_items_do_what_they_say(wparam: usize, lparam: isize)
    ensures
        ({
            let item = wparam as int % 0x10000;
            let action = tray_action_of(0x111, wparam, lparam);
            &&& action == TrayAction::ShowStatus <==> item == 1001
            &&& action == TrayAction::OpenLog <==> item == 1002
            &&& action == TrayAction::Exit <==> item == 1003
            &&& action == TrayAction::Nothing <==> item < 1001 || item > 1003
        }),
{
}

/// A notification is shown and the program ends whatever comes with the message,
/// and every message that is not the tray's own is left to the system.
pub proof fn law_other_messages(msg: u32, wparam: usize, lparam: isize)
    ensures
        tray_action_of(0x402, wparam, lparam) == TrayAction::ShowBalloon,
        tray_action_of(2, wparam, lparam) == TrayAction::Quit,
        msg != 0x401 && msg != 0x402 && msg != 0x111 && msg != 2 ==> tray_action_of(
            msg,
            wparam,
            lparam,
        ) == TrayAction::Default,
{
}

/// The status display shows the four things that it is made of, each behind its
/// label.
pub proof fn law_status_shows_the_state(
    injected: u32,
    last: Seq<char>,
    broken: u32,
    teams_running: bool,
)
    ensures
        ({
            let start = "Teams USB Fix \u{2014} Status\n\nInjections: "@ + decimal(injected as nat)
                + "\nLast injection: "@;
            let end = "\nBroken USB devices: "@ + decimal(broken as nat) + "\nTeams running: "@;
            let answer = if teams_running {
                "Yes"@
            } else {
                "No"@
            };
            &&& status_of(injected, Some(last), broken, teams_running) == start + last + end
                + answer
            &&& status_of(injected, None, broken, teams_running) == start + "(none yet)"@ + end
                + answer
        }),
{
    let start = "Teams USB Fix \u{2014} Status\n\nInjections: "@ + decimal(injected as nat)
        + "\nLast injection: "@;
    let end = "\nBroken USB devices: "@ + decimal(broken as nat) + "\nTeams running: "@;
    let answer = if teams_running {
        "Yes"@
    } else {
        "No"@
    };
    assert(status_of(injected, Some(last), broken, teams_running) =~= start + last + end + answer);
    assert(status_of(injected, None, broken, teams_running) =~= start + "(none yet)"@ + end
        + answer);
}

/// The tray goes from window class to window, icon, watch and messages, and
/// removes the icon in the end; only the first two steps can end it early.
pub proof fn law_tray_goes_step_by_step(ok: bool, error: TrayError)
    ensures
        tray_next(TrayStep::RegisterClass, true) == TrayStep::CreateWindow,
        tray_next(TrayStep::RegisterClass, false) == TrayStep::Failed(TrayError::RegisterClass),
        tray_next(TrayStep::CreateWindow, true) == TrayStep::AddIcon,
        tray_next(TrayStep::CreateWindow, false) == TrayStep::Failed(TrayError::CreateWindow),
        tray_next(TrayStep::AddIcon, ok) == TrayStep::StartWatch,
        tray_next(TrayStep::StartWatch, ok) == TrayStep::HandleMessages,
        tray_next(TrayStep::HandleMessages, ok) == TrayStep::RemoveIcon,
        tray_next(TrayStep::RemoveIcon, ok) == TrayStep::Exited,
        tray_next(TrayStep::Exited, ok) == TrayStep::Exited,
        tray_next(TrayStep::Failed(error), ok) == TrayStep::Failed(error),
{
}

/// Every failure of the tray is logged, and its end, and nothing else.
pub proof fn law_tray_logs_failures_and_its_end(
    step: TrayStep,
    ok: bool,
    detail: Seq<char>,
)
    ensures
        tray_note(TrayStep::RegisterClass, false, detail) == Some(
            "ERROR: RegisterClassExW failed for tray window"@,
        ),
        tray_note(TrayStep::CreateWindow, false, detail) == Some(
            "ERROR: CreateWindowExW failed for tray window: "@ + detail,
        ),
        tray_note(TrayStep::AddIcon, false, detail) == Some(
            "WARNING: Shell_NotifyIconW NIM_ADD failed (tray icon may not appear)"@,
        ),
        tray_note(TrayStep::RemoveIcon, ok, detail) == Some("Tray mode exited"@),
        step != TrayStep::RemoveIcon ==> tray_note(step, true, detail) is None,
        step != TrayStep::RemoveIcon && step != TrayStep::RegisterClass && step
            != TrayStep::CreateWindow && step != TrayStep::AddIcon ==> tray_note(step, ok, detail)
            is None,
{
}

/// What is done about what comes from the watch.
pub open spec fn relay_of(event: RelayEvent, tray_running: bool) -> RelayAction {
    match event {
        RelayEvent::Notice => RelayAction::Post,
        RelayEvent::Timeout => if tray_running {
            RelayAction::Continue
        } else {
            RelayAction::StopWatch
        },
        RelayEvent::Disconnected => RelayAction::Stop,
    }
}

/// Every notification is shown, and only those; the watch is stopped when the tray
/// is closed and nothing comes, and only then; waiting ends with the watch.
pub proof fn law_relay_posts_notices_and_stops_with_the_tray(event: RelayEvent, tray_running: bool)
    ensures
        relay_of(event, tray_running) == RelayAction::Post <==> event == RelayEvent::Notice,
        relay_of(event, tray_running) == RelayAction::StopWatch <==> event == RelayEvent::Timeout
            && !tray_running,
        relay_of(event, tray_running) == RelayAction::Continue <==> event == RelayEvent::Timeout
            && tray_running,
        relay_of(event, tray_running) == RelayAction::Stop <==> event == RelayEvent::Disconnected,
{
}

/// What the tray is called and how long a notification stays.
pub proof fn law_tray_names()
    ensures
        TRAY_ICON_ID == 1,
        BALLOON_TIMEOUT_MS == 5 * 1000,
        TRAY_TITLE@ == "Teams USB Fix"@,
        TRAY_TIP@ == "Teams USB Fix - Watching"@,
        TRAY_CLASS@ == "TeamsUSBFixTrayWnd"@,
        TRAY_WINDOW@ == "Teams USB Fix Tray"@,
{
}

} // verus!
