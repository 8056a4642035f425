use teams_usb_fix::service::{
    console_event_stops, dispatcher_error_message, parse_args, service_command, service_control,
    service_error_message, service_installed_message, service_removed_message, service_start_hint,
    unknown_argument_message, ControlAction, InstallServiceStep, Mode, ServiceError,
    ServiceMainStep, UninstallServiceStep,
};

fn mode(args: &[&str]) -> Mode {
    parse_args(&args.iter().map(|arg| arg.to_string()).collect())
}

#[test]
fn command_lines() {
    assert!(matches!(mode(&["fix"]), Mode::Console));
    assert!(matches!(mode(&[]), Mode::Console));
    assert!(matches!(mode(&["fix", "--install"]), Mode::Install));
    assert!(matches!(mode(&["fix", "--uninstall"]), Mode::Uninstall));
    assert!(matches!(mode(&["fix", "--service"]), Mode::Service));
    assert!(matches!(mode(&["fix", "--tray", "--install"]), Mode::Tray));
    assert!(matches!(mode(&["fix", "--help"]), Mode::Help));
    assert!(matches!(mode(&["fix", "-h"]), Mode::Help));
}

#[test]
fn unknown_arguments_are_handed_back() {
    match mode(&["fix", "--Install"]) {
        Mode::Unknown(argument) => {
            assert_eq!(argument, "--Install");
            assert_eq!(unknown_argument_message(&argument), "Unknown argument: --Install");
        }
        _ => panic!("taken for a known argument"),
    }
    assert!(matches!(mode(&["fix", ""]), Mode::Unknown(_)));
}

#[test]
fn command_of_the_service() {
    assert_eq!(service_command("C:\\a b\\fix.exe"), "\"C:\\a b\\fix.exe\" --service");
}

fn install(failing: Option<InstallServiceStep>) -> Vec<InstallServiceStep> {
    let mut step = InstallServiceStep::FindProgram;
    let mut steps = vec![step];
    while !matches!(step, InstallServiceStep::Installed | InstallServiceStep::Failed(_)) {
        step = step.next(Some(step) != failing);
        steps.push(step);
    }
    steps
}

#[test]
fn installing_the_service() {
    assert_eq!(
        install(None),
        vec![
            InstallServiceStep::FindProgram,
            InstallServiceStep::OpenManager,
            InstallServiceStep::CreateService,
            InstallServiceStep::CloseManager { created: true },
            InstallServiceStep::CloseService,
            InstallServiceStep::Installed,
        ]
    );
    assert_eq!(
        install(Some(InstallServiceStep::FindProgram)).last(),
        Some(&InstallServiceStep::Failed(ServiceError::FindProgram))
    );
    assert_eq!(
        install(Some(InstallServiceStep::OpenManager)).last(),
        Some(&InstallServiceStep::Failed(ServiceError::OpenManager))
    );
    assert_eq!(
        install(Some(InstallServiceStep::CreateService))[3..],
        [
            InstallServiceStep::CloseManager { created: false },
            InstallServiceStep::Failed(ServiceError::CreateService),
        ]
    );
}

fn uninstall(failing: &[UninstallServiceStep]) -> Vec<UninstallServiceStep> {
    let mut step = UninstallServiceStep::OpenManager;
    let mut steps = vec![step];
    while !matches!(step, UninstallServiceStep::Removed | UninstallServiceStep::Failed(_)) {
        step = step.next(!failing.contains(&step));
        steps.push(step);
    }
    steps
}

#[test]
fn removing_the_service() {
    let all = vec![
        UninstallServiceStep::OpenManager,
        UninstallServiceStep::OpenService,
        UninstallServiceStep::StopService,
        UninstallServiceStep::DeleteService,
        UninstallServiceStep::CloseService { deleted: true },
        UninstallServiceStep::CloseManager { deleted: true },
        UninstallServiceStep::Removed,
    ];
    assert_eq!(uninstall(&[]), all);
    assert_eq!(uninstall(&[UninstallServiceStep::StopService]), all);
    assert_eq!(
        uninstall(&[UninstallServiceStep::OpenManager]).last(),
        Some(&UninstallServiceStep::Failed(ServiceError::OpenManager))
    );
    assert_eq!(
        uninstall(&[UninstallServiceStep::OpenService])[2..],
        [UninstallServiceStep::Abandon, UninstallServiceStep::Failed(ServiceError::OpenService)]
    );
    assert_eq!(
        uninstall(&[UninstallServiceStep::DeleteService])[4..],
        [
            UninstallServiceStep::CloseService { deleted: false },
            UninstallServiceStep::CloseManager { deleted: false },
            UninstallServiceStep::Failed(ServiceError::DeleteService),
        ]
    );
}

#[test]
fn service_messages() {
    assert_eq!(service_error_message(ServiceError::FindProgram, "x"), "Failed to get exe path: x");
    assert_eq!(service_error_message(ServiceError::OpenManager, "x"), "OpenSCManager: x (run as Administrator)");
    assert_eq!(service_error_message(ServiceError::CreateService, "x"), "CreateService: x");
    assert_eq!(service_error_message(ServiceError::OpenService, "x"), "OpenService: x");
    assert_eq!(service_error_message(ServiceError::DeleteService, "x"), "DeleteService: x");
    assert_eq!(service_installed_message(), "Service 'TeamsUSBFix' installed successfully.");
    assert_eq!(service_start_hint(), "Start it with: sc start TeamsUSBFix");
    assert_eq!(service_removed_message(), "Service 'TeamsUSBFix' uninstalled.");
    assert_eq!(dispatcher_error_message("x"), "Failed to start service dispatcher: x");
}

#[test]
fn control_codes() {
    assert_eq!(service_control(1, 7), ControlAction::Stop { report: true });
    assert_eq!(service_control(5, 0), ControlAction::Stop { report: false });
    assert_eq!(service_control(4, 7), ControlAction::Ignore);
    assert_eq!(service_control(0, 7), ControlAction::Ignore);
}

#[test]
fn steps_of_the_running_service() {
    let step = ServiceMainStep::Register.next(true);
    assert_eq!(step, ServiceMainStep::ReportRunning);
    let step = step.next(false).next(false);
    assert_eq!(step, ServiceMainStep::Watch);
    assert_eq!(step.next(true), ServiceMainStep::Ended);
    assert_eq!(ServiceMainStep::Register.next(false), ServiceMainStep::Ended);
}

#[test]
fn console_events() {
    assert!(console_event_stops(0));
    assert!(console_event_stops(1));
    assert!(!console_event_stops(2));
    assert!(!console_event_stops(6));
}
