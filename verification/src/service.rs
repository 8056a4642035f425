//! Running as a Windows service, from the command line and from the console.

use vstd::prelude::*;
use crate::text::same_text;

verus! {

/// Name of the service.
pub const SERVICE_NAME: &'static str = "TeamsUSBFix";

/// Name under which the service is listed.
pub const SERVICE_DISPLAY_NAME: &'static str = "Teams USB Descriptor Fix";

/// Control code that stops a service.
pub const SERVICE_CONTROL_STOP: u32 = 1;

/// Control code that tells a service of the system's shutdown.
pub const SERVICE_CONTROL_SHUTDOWN: u32 = 5;

/// State of a service that has stopped.
pub const STATE_STOPPED: u32 = 1;

/// State of a service that runs.
pub const STATE_RUNNING: u32 = 4;

/// What the program is asked to do.
#[derive(Debug)]
pub enum Mode {
    /// Watch in the foreground.
    Console,
    /// Install the service.
    Install,
    /// Remove the service.
    Uninstall,
    /// Run as the service.
    Service,
    /// Watch with an icon in the system tray.
    Tray,
    /// Show how the program is used.
    Help,
    /// An argument that is not known.
    Unknown(String),
}

/// What the program is asked to do.
#[verifier::ext_equal]
pub enum ModeView {
    Console,
    Install,
    Uninstall,
    Service,
    Tray,
    Help,
    Unknown(Seq<char>),
}

impl View for Mode {
    type V = ModeView;

    open spec fn view(&self) -> ModeView {
        match self {
            Mode::Console => ModeView::Console,
            Mode::Install => ModeView::Install,
            Mode::Uninstall => ModeView::Uninstall,
            Mode::Service => ModeView::Service,
            Mode::Tray => ModeView::Tray,
            Mode::Help => ModeView::Help,
            Mode::Unknown(argument) => ModeView::Unknown(argument@),
        }
    }
}

/// What an argument asks for.
pub open spec fn mode_of(argument: Seq<char>) -> ModeView {
    if argument == "--install"@ {
        ModeView::Install
    } else if argument == "--uninstall"@ {
        ModeView::Uninstall
    } else if argument == "--service"@ {
        ModeView::Service
    } else if argument == "--tray"@ {
        ModeView::Tray
    } else if argument == "--help"@ || argument == "-h"@ {
        ModeView::Help
    } else {
        ModeView::Unknown(argument)
    }
}

/// Reads the command line: the first argument behind the program's name
/// decides, and the rest is not looked at.
pub fn parse_args(args: &Vec<String>) -> (mode: Mode)
    ensures
        mode@ == (if args@.len() > 1 {
            mode_of(args@[1]@)
        } else {
            ModeView::Console
        }),
{
    if args.len() <= 1 {
        return Mode::Console;
    }
    let argument: &str = args[1].as_str();
    if same_text(argument, "--install") {
        Mode::Install
    } else if same_text(argument, "--uninstall") {
        Mode::Uninstall
    } else if same_text(argument, "--service") {
        Mode::Service
    } else if same_text(argument, "--tray") {
        Mode::Tray
    } else if same_text(argument, "--help") || same_text(argument, "-h") {
        Mode::Help
    } else {
        Mode::Unknown(args[1].clone())
    }
}

/// Each thing that can be asked for has its own argument, help has two, and any
/// other argument is handed back as not known.
pub proof fn law_modes_are_told_apart(argument: Seq<char>)
    ensures
        mode_of(argument) == ModeView::Install <==> argument == "--install"@,
        mode_of(argument) == ModeView::Uninstall <==> argument == "--uninstall"@,
        mode_of(argument) == ModeView::Service <==> argument == "--service"@,
        mode_of(argument) == ModeView::Tray <==> argument == "--tray"@,
        mode_of(argument) == ModeView::Help <==> argument == "--help"@ || argument == "-h"@,
        mode_of(argument) is Unknown ==> mode_of(argument) == ModeView::Unknown(argument),
        mode_of(argument) != ModeView::Console,
{
    reveal_strlit("--install");
    reveal_strlit("--uninstall");
    reveal_strlit("--service");
    reveal_strlit("--tray");
    reveal_strlit("--help");
    reveal_strlit("-h");
    assert("--uninstall"@.len() == 11 && "--install"@.len() == 9 && "--service"@.len() == 9);
    assert("--tray"@.len() == 6 && "--help"@.len() == 6 && "-h"@.len() == 2);
    assert("--service"@[2] != "--install"@[2]);
    assert("--tray"@[2] != "--help"@[2]);
}

/// Says that an argument is not known.
pub fn unknown_argument_message(argument: &str) -> (message: String)
    ensures
        message@ == "Unknown argument: "@ + argument@,
{
    let mut message: String = String::new();
    message.append("Unknown argument: ");
    message.append(argument);
    message
}

/// The command that starts the service: the program's path in quotes, and the
/// argument that has it run as the service.
pub fn service_command(exe_path: &str) -> (command: String)
    ensures
        command@ == "\""@ + exe_path@ + "\" --service"@,
{
    let mut command: String = String::new();
    command.append("\"");
    command.append(exe_path);
    command.append("\" --service");
    command
}

/// The step at which installing or removing the service failed.
#[derive(Clone, Copy, Debug, PartialEq, Eq, Structural)]
pub enum ServiceError {
    FindProgram,
    OpenManager,
    CreateService,
    OpenService,
    DeleteService,
}

/// Why installing or removing the service failed.
pub open spec fn service_error_text(error: ServiceError, detail: Seq<char>) -> Seq<char> {
    match error {
        ServiceError::FindProgram => "Failed to get exe path: "@ + detail,
        ServiceError::OpenManager => "OpenSCManager: "@ + detail + " (run as Administrator)"@,
        ServiceError::CreateService => "CreateService: "@ + detail,
        ServiceError::OpenService => "OpenService: "@ + detail,
        ServiceError::DeleteService => "DeleteService: "@ + detail,
    }
}

/// Says why installing or removing the service failed; `detail` is what the
/// failed step reported.
pub fn service_error_message(error: ServiceError, detail: &str) -> (message: String)
    ensures
        message@ == service_error_text(error, detail@),
{
    let mut message: String = String::new();
    match error {
        ServiceError::FindProgram => {
            message.append("Failed to get exe path: ");
            message.append(detail);
        },
        ServiceError::OpenManager => {
            message.append("OpenSCManager: ");
            message.append(detail);
            message.append(" (run as Administrator)");
        },
        ServiceError::CreateService => {
            message.append("CreateService: ");
            message.append(detail);
        },
        ServiceError::OpenService => {
            message.append("OpenService: ");
            message.append(detail);
        },
        ServiceError::DeleteService => {
            message.append("DeleteService: ");
            message.append(detail);
        },
    }
    message
}

/// The steps that install the service.
#[derive(Clone, Copy, Debug, PartialEq, Eq, Structural)]
pub enum InstallServiceStep {
    /// Find the program's own path.
    FindProgram,
    /// Open the service manager.
    OpenManager,
    /// Create the service.
    CreateService,
    /// Close the service manager.
    CloseManager { created: bool },
    /// Close the service.
    CloseService,
    /// Nothing; the service is installed.
    Installed,
    /// Nothing; the service is not installed.
    Failed(ServiceError),
}

/// The step after one that succeeded or failed.
pub open spec fn install_service_next(step: InstallServiceStep, ok: bool) -> InstallServiceStep {
    match step {
        InstallServiceStep::FindProgram => if ok {
            InstallServiceStep::OpenManager
        } else {
            InstallServiceStep::Failed(ServiceError::FindProgram)
        },
        InstallServiceStep::OpenManager => if ok {
            InstallServiceStep::CreateService
        } else {
            InstallServiceStep::Failed(ServiceError::OpenManager)
        },
        InstallServiceStep::CreateService => InstallServiceStep::CloseManager { created: ok },
        InstallServiceStep::CloseManager { created } => if created {
            InstallServiceStep::CloseService
        } else {
            InstallServiceStep::Failed(ServiceError::CreateService)
        },
        InstallServiceStep::CloseService => InstallServiceStep::Installed,
        InstallServiceStep::Installed => InstallServiceStep::Installed,
        InstallServiceStep::Failed(error) => InstallServiceStep::Failed(error),
    }
}

impl InstallServiceStep {
    /// Takes the outcome of a step. Whether a handle was closed makes no
    /// difference.
    pub fn next(self, ok: bool) -> (step: InstallServiceStep)
        ensures
            step == install_service_next(self, ok),
    {
        match self {
            InstallServiceStep::FindProgram => if ok {
                InstallServiceStep::OpenManager
            } else {
                InstallServiceStep::Failed(ServiceError::FindProgram)
            },
            InstallServiceStep::OpenManager => if ok {
                InstallServiceStep::CreateService
            } else {
                InstallServiceStep::Failed(ServiceError::OpenManager)
            },
            InstallServiceStep::CreateService => InstallServiceStep::CloseManager { created: ok },
            InstallServiceStep::CloseManager { created } => if created {
                InstallServiceStep::CloseService
            } else {
                InstallServiceStep::Failed(ServiceError::CreateService)
            },
            InstallServiceStep::CloseService => InstallServiceStep::Installed,
            InstallServiceStep::Installed => InstallServiceStep::Installed,
            InstallServiceStep::Failed(error) => InstallServiceStep::Failed(error),
        }
    }
}

/// The steps from `step` on if each goes as `ok` says, at most `fuel` of them.
pub open spec fn install_service_run(
    step: InstallServiceStep,
    ok: spec_fn(InstallServiceStep) -> bool,
    fuel: nat,
) -> Seq<InstallServiceStep>
    decreases fuel,
{
    if fuel == 0 {
        Seq::empty()
    } else if step is Installed || step is Failed {
        seq![step]
    } else {
        seq![step] + install_service_run(
            install_service_next(step, ok(step)),
            ok,
            (fuel - 1) as nat,
        )
    }
}

/// Installing the service ends at the first step that fails, or with the service
/// installed; a manager that was opened is closed, and so is a service that was
/// created.
pub proof fn law_install_service_run(ok: spec_fn(InstallServiceStep) -> bool)
    ensures
        install_service_run(InstallServiceStep::FindProgram, ok, 6) =~= (if !ok(
            InstallServiceStep::FindProgram,
        ) {
            seq![
                InstallServiceStep::FindProgram,
                InstallServiceStep::Failed(ServiceError::FindProgram),
            ]
        } else if !ok(InstallServiceStep::OpenManager) {
            seq![
                InstallServiceStep::FindProgram,
                InstallServiceStep::OpenManager,
                InstallServiceStep::Failed(ServiceError::OpenManager),
            ]
        } else if !ok(InstallServiceStep::CreateService) {
            seq![
                InstallServiceStep::FindProgram,
                InstallServiceStep::OpenManager,
                InstallServiceStep::CreateService,
                InstallServiceStep::CloseManager { created: false },
                InstallServiceStep::Failed(ServiceError::CreateService),
            ]
        } else {
            seq![
                InstallServiceStep::FindProgram,
                InstallServiceStep::OpenManager,
                InstallServiceStep::CreateService,
                InstallServiceStep::CloseManager { created: true },
                InstallServiceStep::CloseService,
                InstallServiceStep::Installed,
            ]
        }),
{
    reveal_with_fuel(install_service_run, 7);
}

/// The steps that remove the service.
#[derive(Clone, Copy, Debug, PartialEq, Eq, Structural)]
pub enum UninstallServiceStep {
    /// Open the service manager.
    OpenManager,
    /// Open the service.
    OpenService,
    /// Close the service manager and give up.
    Abandon,
    /// Stop the service, if it runs.
    StopService,
    /// Delete the service.
    DeleteService,
    /// Close the service.
    CloseService { deleted: bool },
    /// Close the service manager.
    CloseManager { deleted: bool },
    /// Nothing; the service is removed.
    Removed,
    /// Nothing; the service is not removed.
    Failed(ServiceError),
}

/// The step after one that succeeded or failed.
pub open spec fn uninstall_service_next(
    step: UninstallServiceStep,
    ok: bool,
) -> UninstallServiceStep {
    match step {
        UninstallServiceStep::OpenManager => if ok {
            UninstallServiceStep::OpenService
        } else {
            UninstallServiceStep::Failed(ServiceError::OpenManager)
        },
        UninstallServiceStep::OpenService => if ok {
            UninstallServiceStep::StopService
        } else {
            UninstallServiceStep::Abandon
        },
        UninstallServiceStep::Abandon => UninstallServiceStep::Failed(ServiceError::OpenService),
        UninstallServiceStep::StopService => UninstallServiceStep::DeleteService,
        UninstallServiceStep::DeleteService => UninstallServiceStep::CloseService { deleted: ok },
        UninstallServiceStep::CloseService { deleted } => UninstallServiceStep::CloseManager {
            deleted,
        },
        UninstallServiceStep::CloseManager { deleted } => if deleted {
            UninstallServiceStep::Removed
        } else {
            UninstallServiceStep::Failed(ServiceError::DeleteService)
        },
        UninstallServiceStep::Removed => UninstallServiceStep::Removed,
        UninstallServiceStep::Failed(error) => UninstallServiceStep::Failed(error),
    }
}

impl UninstallServiceStep {
    /// Takes the outcome of a step. Whether the service could be stopped, or a
    /// handle closed, makes no difference.
    pub fn next(self, ok: bool) -> (step: UninstallServiceStep)
        ensures
            step == uninstall_service_next(self, ok),
    {
        match self {
            UninstallServiceStep::OpenManager => if ok {
                UninstallServiceStep::OpenService
            } else {
                UninstallServiceStep::Failed(ServiceError::OpenManager)
            },
            UninstallServiceStep::OpenService => if ok {
                UninstallServiceStep::StopService
            } else {
                UninstallServiceStep::Abandon
            },
            UninstallServiceStep::Abandon => UninstallServiceStep::Failed(
                ServiceError::OpenService,
            ),
            UninstallServiceStep::StopService => UninstallServiceStep::DeleteService,
            UninstallServiceStep::DeleteService => UninstallServiceStep::CloseService {
                deleted: ok,
            },
            UninstallServiceStep::CloseService { deleted } => UninstallServiceStep::CloseManager {
                deleted,
            },
            UninstallServiceStep::CloseManager { deleted } => if deleted {
                UninstallServiceStep::Removed
            } else {
                UninstallServiceStep::Failed(ServiceError::DeleteService)
            },
            UninstallServiceStep::Removed => UninstallServiceStep::Removed,
            UninstallServiceStep::Failed(error) => UninstallServiceStep::Failed(error),
        }
    }
}

/// The steps from `step` on if each goes as `ok` says, at most `fuel` of them.
pub open spec fn uninstall_service_run(
    step: UninstallServiceStep,
    ok: spec_fn(UninstallServiceStep) -> bool,
    fuel: nat,
) -> Seq<UninstallServiceStep>
    decreases fuel,
{
    if fuel == 0 {
        Seq::empty()
    } else if step is Removed || step is Failed {
        seq![step]
    } else {
        seq![step] + uninstall_service_run(
            uninstall_service_next(step, ok(step)),
            ok,
            (fuel - 1) as nat,
        )
    }
}

/// Removing the service ends where manager or service cannot be opened, or with
/// the outcome of deleting the service, whether or not it could be stopped;
/// everything that was opened is closed.
pub proof fn law_uninstall_service_run(ok: spec_fn(UninstallServiceStep) -> bool)
    ensures
        ({
            let deleted = ok(UninstallServiceStep::DeleteService);
            uninstall_service_run(UninstallServiceStep::OpenManager, ok, 7) =~= (if !ok(
                UninstallServiceStep::OpenManager,
            ) {
                seq![
                    UninstallServiceStep::OpenManager,
                    UninstallServiceStep::Failed(ServiceError::OpenManager),
                ]
            } else if !ok(UninstallServiceStep::OpenService) {
                seq![
                    UninstallServiceStep::OpenManager,
                    UninstallServiceStep::OpenService,
                    UninstallServiceStep::Abandon,
                    UninstallServiceStep::Failed(ServiceError::OpenService),
                ]
            } else {
                seq![
                    UninstallServiceStep::OpenManager,
                    UninstallServiceStep::OpenService,
                    UninstallServiceStep::StopService,
                    UninstallServiceStep::DeleteService,
                    UninstallServiceStep::CloseService { deleted },
                    UninstallServiceStep::CloseManager { deleted },
                    if deleted {
                        UninstallServiceStep::Removed
                    } else {
                        UninstallServiceStep::Failed(ServiceError::DeleteService)
                    },
                ]
            })
        }),
{
    reveal_with_fuel(uninstall_service_run, 8);
}

/// Says that the service is installed.
pub fn service_installed_message() -> (message: String)
    ensures
        message@ == "Service '"@ + "TeamsUSBFix"@ + "' installed successfully."@,
{
    let mut message: String = String::new();
    message.append("Service '");
    message.append(SERVICE_NAME);
    message.append("' installed successfully.");
    message
}

/// Says how the service is started.
pub fn service_start_hint() -> (message: String)
    ensures
        message@ == "Start it with: sc start "@ + "TeamsUSBFix"@,
{
    let mut message: String = String::new();
    message.append("Start it with: sc start ");
    message.append(SERVICE_NAME);
    message
}

/// Says that the service is removed.
pub fn service_removed_message() -> (message: String)
    ensures
        message@ == "Service '"@ + "TeamsUSBFix"@ + "' uninstalled."@,
{
    let mut message: String = String::new();
    message.append("Service '");
    message.append(SERVICE_NAME);
    message.append("' uninstalled.");
    message
}

/// What a control code asks of the service.
#[derive(Clone, Copy, Debug, PartialEq, Eq, Structural)]
pub enum ControlAction {
    /// Nothing.
    Ignore,
    /// Stop the watch, and report the service as stopped if it is known to the
    /// system.
    Stop { report: bool },
}

/// Reads a control code. `status_handle` is zero while the service is not known
/// to the system.
pub fn service_control(control: u32, status_handle: usize) -> (action: ControlAction)
    ensures
        action == (if control == SERVICE_CONTROL_STOP || control == SERVICE_CONTROL_SHUTDOWN {
            ControlAction::Stop { report: status_handle != 0 }
        } else {
            ControlAction::Ignore
        }),
        action == control_of(control, status_handle),
{
    if control == SERVICE_CONTROL_STOP || control == SERVICE_CONTROL_SHUTDOWN {
        ControlAction::Stop { report: status_handle != 0 }
    } else {
        ControlAction::Ignore
    }
}

/// The steps of the service once the system has started it.
#[derive(Clone, Copy, Debug, PartialEq, Eq, Structural)]
pub enum ServiceMainStep {
    /// Register for control codes.
    Register,
    /// Report that the service runs.
    ReportRunning,
    /// Start to look out for the end of the service.
    StartMonitor,
    /// Watch, until the service is stopped.
    Watch,
    /// Nothing; the service is over.
    Ended,
}

/// The step after one that succeeded or failed. Only a service that cannot
/// register is over at once.
pub open spec fn service_main_next(step: ServiceMainStep, ok: bool) -> ServiceMainStep {
    match step {
        ServiceMainStep::Register => if ok {
            ServiceMainStep::ReportRunning
        } else {
            ServiceMainStep::Ended
        },
        ServiceMainStep::ReportRunning => ServiceMainStep::StartMonitor,
        ServiceMainStep::StartMonitor => ServiceMainStep::Watch,
        ServiceMainStep::Watch => ServiceMainStep::Ended,
        ServiceMainStep::Ended => ServiceMainStep::Ended,
    }
}

impl ServiceMainStep {
    /// Takes the outcome of a step.
    pub fn next(self, ok: bool) -> (step: ServiceMainStep)
        ensures
            step == service_main_next(self, ok),
    {
        match self {
            ServiceMainStep::Register => if ok {
                ServiceMainStep::ReportRunning
            } else {
                ServiceMainStep::Ended
            },
            ServiceMainStep::ReportRunning => ServiceMainStep::StartMonitor,
            ServiceMainStep::StartMonitor => ServiceMainStep::Watch,
            ServiceMainStep::Watch => ServiceMainStep::Ended,
            ServiceMainStep::Ended => ServiceMainStep::Ended,
        }
    }
}

/// Says that the system did not start the program as a service.
pub fn dispatcher_error_message(detail: &str) -> (message: String)
    ensures
        message@ == "Failed to start service dispatcher: "@ + detail@,
{
    let mut message: String = String::new();
    message.append("Failed to start service dispatcher: ");
    message.append(detail);
    message
}

/// Whether a console event stops the watch: Ctrl+C, which is number 0, and
/// Ctrl+Break, which is number 1.
pub fn console_event_stops(ctrl_type: u32) -> (stops: bool)
    ensures
        stops == (ctrl_type == 0 || ctrl_type == 1),
{
    ctrl_type <= 1
}

/// What is said of a failed installation or removal names the step and what it
/// reported.
pub proof fn law_failure_of_the_service_is_named(detail: Seq<char>)
    ensures
        service_error_text(ServiceError::FindProgram, detail) == "Failed to get exe path: "@
            + detail,
        service_error_text(ServiceError::OpenManager, detail) == "OpenSCManager: "@ + detail
            + " (run as Administrator)"@,
        service_error_text(ServiceError::CreateService, detail) == "CreateService: "@ + detail,
        service_error_text(ServiceError::OpenService, detail) == "OpenService: "@ + detail,
        service_error_text(ServiceError::DeleteService, detail) == "DeleteService: "@ + detail,
{
}

/// Installing the service goes from program to manager and service; whether it was
/// created is kept while the manager is closed, and decides how it ends.
pub proof fn law_install_service_goes_step_by_step(ok: bool, error: ServiceError)
    ensures
        install_service_next(InstallServiceStep::FindProgram, true)
            == InstallServiceStep::OpenManager,
        install_service_next(InstallServiceStep::FindProgram, false) == InstallServiceStep::Failed(
            ServiceError::FindProgram,
        ),
        install_service_next(InstallServiceStep::OpenManager, true)
            == InstallServiceStep::CreateService,
        install_service_next(InstallServiceStep::OpenManager, false) == InstallServiceStep::Failed(
            ServiceError::OpenManager,
        ),
        install_service_next(InstallServiceStep::CreateService, ok) == (
        InstallServiceStep::CloseManager { created: ok }),
        install_service_next(InstallServiceStep::CloseManager { created: true }, ok)
            == InstallServiceStep::CloseService,
        install_service_next(InstallServiceStep::CloseManager { created: false }, ok)
            == InstallServiceStep::Failed(ServiceError::CreateService),
        install_service_next(InstallServiceStep::CloseService, ok) == InstallServiceStep::Installed,
        install_service_next(InstallServiceStep::Installed, ok) == InstallServiceStep::Installed,
        install_service_next(InstallServiceStep::Failed(error), ok) == InstallServiceStep::Failed(
            error,
        ),
{
}

/// Removing the service goes from manager to service, stops it if it can, and
/// deletes it; whether it was deleted is kept while all is closed, and decides how
/// it ends.
pub proof fn law_uninstall_service_goes_step_by_step(ok: bool, deleted: bool, error: ServiceError)
    ensures
        uninstall_service_next(UninstallServiceStep::OpenManager, true)
            == UninstallServiceStep::OpenService,
        uninstall_service_next(UninstallServiceStep::OpenManager, false)
            == UninstallServiceStep::Failed(ServiceError::OpenManager),
        uninstall_service_next(UninstallServiceStep::OpenService, true)
            == UninstallServiceStep::StopService,
        uninstall_service_next(UninstallServiceStep::OpenService, false)
            == UninstallServiceStep::Abandon,
        uninstall_service_next(UninstallServiceStep::Abandon, ok) == UninstallServiceStep::Failed(
            ServiceError::OpenService,
        ),
        uninstall_service_next(UninstallServiceStep::StopService, ok)
            == UninstallServiceStep::DeleteService,
        uninstall_service_next(UninstallServiceStep::DeleteService, ok) == (
        UninstallServiceStep::CloseService { deleted: ok }),
        uninstall_service_next(UninstallServiceStep::CloseService { deleted }, ok) == (
        UninstallServiceStep::CloseManager { deleted }),
        uninstall_service_next(UninstallServiceStep::CloseManager { deleted: true }, ok)
            == UninstallServiceStep::Removed,
        uninstall_service_next(UninstallServiceStep::CloseManager { deleted: false }, ok)
            == UninstallServiceStep::Failed(ServiceError::DeleteService),
        uninstall_service_next(UninstallServiceStep::Removed, ok) == UninstallServiceStep::Removed,
        uninstall_service_next(UninstallServiceStep::Failed(error), ok)
            == UninstallServiceStep::Failed(error),
{
}

/// A service that can register reports that it runs and watches until it is over,
/// whether or not the report went well; one that cannot is over at once.
pub proof fn law_service_watches_once_registered(a: bool, b: bool, c: bool)
    ensures
        service_main_next(ServiceMainStep::Register, false) == ServiceMainStep::Ended,
        service_main_next(ServiceMainStep::Register, true) == ServiceMainStep::ReportRunning,
        service_main_next(ServiceMainStep::ReportRunning, a) == ServiceMainStep::StartMonitor,
        service_main_next(ServiceMainStep::StartMonitor, b) == ServiceMainStep::Watch,
        service_main_next(ServiceMainStep::Watch, c) == ServiceMainStep::Ended,
        service_main_next(ServiceMainStep::Ended, a) == ServiceMainStep::Ended,
{
}

/// What the program is asked to do is taken for what it is.
pub proof fn law_mode_view_is_faithful(argument: String)
    ensures
        Mode::Console@ == ModeView::Console,
        Mode::Install@ == ModeView::Install,
        Mode::Uninstall@ == ModeView::Uninstall,
        Mode::Service@ == ModeView::Service,
        Mode::Tray@ == ModeView::Tray,
        Mode::Help@ == ModeView::Help,
        Mode::Unknown(argument)@ == ModeView::Unknown(argument@),
{
}

/// What a control code asks of the service.
pub open spec fn control_of(control: u32, status_handle: usize) -> ControlAction {
    if control == SERVICE_CONTROL_STOP || control == SERVICE_CONTROL_SHUTDOWN {
        ControlAction::Stop { report: status_handle != 0 }
    } else {
        ControlAction::Ignore
    }
}

/// The service stops at codes 1 and 5 and at no other, and reports that if it has
/// a handle to report it on.
pub proof fn law_service_stops_when_told(control: u32, status_handle: usize)
    ensures
        control_of(control, status_handle) == ControlAction::Ignore <==> control != 1 && control
            != 5,
        control == 1 || control == 5 ==> (control_of(
            control,
            status_handle,
        ) matches ControlAction::Stop { report } && report == (status_handle > 0)),
{
}

/// What the service is called and how it reports its state.
pub proof fn law_service_names()
    ensures
        SERVICE_NAME@ == "TeamsUSBFix"@,
        SERVICE_DISPLAY_NAME@ == "Teams USB Descriptor Fix"@,
        STATE_STOPPED == 1,
        STATE_RUNNING == 4,
{
}

} // verus!
