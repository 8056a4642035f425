use teams_usb_fix::lifecycle::{
    dll_event, install_error_message, load_message, DllEvent, HookLifecycle, InstallError,
    InstallStep,
};

fn run(failing: Option<InstallStep>) -> InstallStep {
    let mut step = InstallStep::FindModule;
    for _ in 0..4 {
        step = step.next(Some(step) != failing);
    }
    step
}

#[test]
fn notifications() {
    assert_eq!(dll_event(1), DllEvent::Attach);
    assert_eq!(dll_event(0), DllEvent::Detach);
    assert_eq!(dll_event(2), DllEvent::Other);
    assert_eq!(dll_event(3), DllEvent::Other);
}

#[test]
fn hook_is_installed_if_every_step_succeeds() {
    assert_eq!(run(None), InstallStep::Installed);
    assert_eq!(run(Some(InstallStep::FindModule)), InstallStep::Failed(InstallError::FindModule));
    assert_eq!(run(Some(InstallStep::FindFunction)), InstallStep::Failed(InstallError::FindFunction));
    assert_eq!(run(Some(InstallStep::CreateHook)), InstallStep::Failed(InstallError::CreateHook));
    assert_eq!(run(Some(InstallStep::EnableHooks)), InstallStep::Failed(InstallError::EnableHooks));
}

#[test]
fn hook_is_taken_down_once() {
    let mut hook = HookLifecycle { active: false };
    hook.settle(run(Some(InstallStep::EnableHooks)));
    assert!(!hook.release());
    hook.settle(run(None));
    assert!(hook.active);
    assert!(hook.release());
    assert!(!hook.release());
}

#[test]
fn install_messages() {
    assert_eq!(install_error_message(InstallError::FindModule, "no"), "GetModuleHandle: no");
    assert_eq!(
        install_error_message(InstallError::FindFunction, "no"),
        "GetProcAddress(DeviceIoControl) failed"
    );
    assert_eq!(install_error_message(InstallError::CreateHook, "no"), "create_hook: no");
    assert_eq!(install_error_message(InstallError::EnableHooks, "no"), "enable_all_hooks: no");
    assert_eq!(load_message(&None), "usb_descriptor_fix loaded successfully");
    assert_eq!(load_message(&Some("create_hook: no".to_string())), "Hook install failed: create_hook: no");
}
