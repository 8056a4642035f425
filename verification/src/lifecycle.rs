//! Loading and unloading the library: what a notification asks for, the steps
//! that install the hook, and when it has to be removed.

use vstd::prelude::*;

verus! {

/// Module whose function is hooked.
pub const HOOKED_MODULE: &'static str = "kernelbase.dll";

/// Function that is hooked.
pub const HOOKED_FUNCTION: &'static str = "DeviceIoControl";

/// Message about an installed hook.
pub const INSTALLED_MESSAGE: &'static str = "Hook installed on DeviceIoControl (kernelbase.dll)";

/// Message about a removed hook.
pub const REMOVED_MESSAGE: &'static str = "Hook removed";

/// What the loader notifies the library of.
#[derive(Clone, Copy, Debug, PartialEq, Eq, Structural)]
pub enum DllEvent {
    /// The library was loaded into a process.
    Attach,
    /// The library is unloaded from a process.
    Detach,
    /// Anything else; nothing is done about it.
    Other,
}

/// Reads the reason of a notification.
pub fn dll_event(reason: u32) -> (event: DllEvent)
    ensures
        event == (if reason == 1 {
            DllEvent::Attach
        } else if reason == 0 {
            DllEvent::Detach
        } else {
            DllEvent::Other
        }),
        event == event_of(reason),
{
    match reason {
        1 => DllEvent::Attach,
        0 => DllEvent::Detach,
        _ => DllEvent::Other,
    }
}

/// The step at which installing the hook failed.
#[derive(Clone, Copy, Debug, PartialEq, Eq, Structural)]
pub enum InstallError {
    FindModule,
    FindFunction,
    CreateHook,
    EnableHooks,
}

/// The steps that install the hook. Each but the last two is work to do; the
/// last two say how it ended.
#[derive(Clone, Copy, Debug, PartialEq, Eq, Structural)]
pub enum InstallStep {
    FindModule,
    FindFunction,
    CreateHook,
    EnableHooks,
    Installed,
    Failed(InstallError),
}

/// The step after one that succeeded or failed.
pub open spec fn install_next(step: InstallStep, ok: bool) -> InstallStep {
    match step {
        InstallStep::FindModule => if ok {
            InstallStep::FindFunction
        } else {
            InstallStep::Failed(InstallError::FindModule)
        },
        InstallStep::FindFunction => if ok {
            InstallStep::CreateHook
        } else {
            InstallStep::Failed(InstallError::FindFunction)
        },
        InstallStep::CreateHook => if ok {
            InstallStep::EnableHooks
        } else {
            InstallStep::Failed(InstallError::CreateHook)
        },
        InstallStep::EnableHooks => if ok {
            InstallStep::Installed
        } else {
            InstallStep::Failed(InstallError::EnableHooks)
        },
        InstallStep::Installed => step,
        InstallStep::Failed(error) => step,
    }
}

impl InstallStep {
    /// Takes the outcome of a step.
    pub fn next(self, ok: bool) -> (step: InstallStep)
        ensures
            step == install_next(self, ok),
    {
        match self {
            InstallStep::FindModule => if ok {
                InstallStep::FindFunction
            } else {
                InstallStep::Failed(InstallError::FindModule)
            },
            InstallStep::FindFunction => if ok {
                InstallStep::CreateHook
            } else {
                InstallStep::Failed(InstallError::FindFunction)
            },
            InstallStep::CreateHook => if ok {
                InstallStep::EnableHooks
            } else {
                InstallStep::Failed(InstallError::CreateHook)
            },
            InstallStep::EnableHooks => if ok {
                InstallStep::Installed
            } else {
                InstallStep::Failed(InstallError::EnableHooks)
            },
            InstallStep::Installed => self,
            InstallStep::Failed(_) => self,
        }
    }
}

/// How installing ends if each step goes as `ok` says: at the first step that
/// fails, or with the hook installed.
pub open spec fn install_outcome(ok: spec_fn(InstallStep) -> bool) -> InstallStep {
    if !ok(InstallStep::FindModule) {
        InstallStep::Failed(InstallError::FindModule)
    } else if !ok(InstallStep::FindFunction) {
        InstallStep::Failed(InstallError::FindFunction)
    } else if !ok(InstallStep::CreateHook) {
        InstallStep::Failed(InstallError::CreateHook)
    } else if !ok(InstallStep::EnableHooks) {
        InstallStep::Failed(InstallError::EnableHooks)
    } else {
        InstallStep::Installed
    }
}

/// Four steps decide: the hook is installed if and only if all of them succeed,
/// and otherwise the first that fails is named.
pub proof fn law_install_outcome(ok: spec_fn(InstallStep) -> bool)
    ensures
        ({
            let second = install_next(InstallStep::FindModule, ok(InstallStep::FindModule));
            let third = install_next(second, ok(second));
            let fourth = install_next(third, ok(third));
            install_next(fourth, ok(fourth)) == install_outcome(ok)
        }),
{
}

/// Why the hook could not be installed.
pub open spec fn install_error_text(error: InstallError, detail: Seq<char>) -> Seq<char> {
    match error {
        InstallError::FindModule => "GetModuleHandle: "@ + detail,
        InstallError::FindFunction => "GetProcAddress(DeviceIoControl) failed"@,
        InstallError::CreateHook => "create_hook: "@ + detail,
        InstallError::EnableHooks => "enable_all_hooks: "@ + detail,
    }
}

/// Says why the hook could not be installed; `detail` is what the failed step
/// reported.
pub fn install_error_message(error: InstallError, detail: &str) -> (message: String)
    ensures
        message@ == install_error_text(error, detail@),
{
    let mut message: String = String::new();
    match error {
        InstallError::FindModule => {
            message.append("GetModuleHandle: ");
            message.append(detail);
        },
        InstallError::FindFunction => {
            message.append("GetProcAddress(DeviceIoControl) failed");
        },
        InstallError::CreateHook => {
            message.append("create_hook: ");
            message.append(detail);
        },
        InstallError::EnableHooks => {
            message.append("enable_all_hooks: ");
            message.append(detail);
        },
    }
    message
}

/// Says how loading the library went.
pub fn load_message(failure: &Option<String>) -> (message: String)
    ensures
        message@ == (match *failure {
            None => "usb_descriptor_fix loaded successfully"@,
            Some(error) => "Hook install failed: "@ + error@,
        }),
{
    let mut message: String = String::new();
    match failure {
        None => {
            message.append("usb_descriptor_fix loaded successfully");
        },
        Some(error) => {
            message.append("Hook install failed: ");
            message.append(error);
        },
    }
    message
}

/// Whether the hook is in place.
#[derive(Clone, Copy, Debug, PartialEq, Eq, Structural)]
pub struct HookLifecycle {
    pub active: bool,
}

impl HookLifecycle {
    /// The state after installing the hook ended as given.
    pub open spec fn settled(self, step: InstallStep) -> HookLifecycle {
        HookLifecycle { active: self.active || step == InstallStep::Installed }
    }

    /// The state after the hook was given up.
    pub open spec fn released(self) -> HookLifecycle {
        HookLifecycle { active: false }
    }

    /// Takes note of how installing the hook ended. Only a hook that was
    /// installed is in place.
    pub fn settle(&mut self, step: InstallStep)
        ensures
            *final(self) == old(self).settled(step),
    {
        if let InstallStep::Installed = step {
            self.active = true;
        }
    }

    /// Gives the hook up. Returns whether there is one to take down.
    pub fn release(&mut self) -> (take_down: bool)
        ensures
            take_down == old(self).active,
            *final(self) == old(self).released(),
    {
        let take_down: bool = self.active;
        self.active = false;
        take_down
    }
}

/// The hook is taken down if and only if every step of installing it went well,
/// and never twice.
pub proof fn law_taken_down_once(start: HookLifecycle, ok: spec_fn(InstallStep) -> bool)
    requires
        !start.active,
    ensures
        start.settled(install_outcome(ok)).active <==> (ok(InstallStep::FindModule) && ok(
            InstallStep::FindFunction,
        ) && ok(InstallStep::CreateHook) && ok(InstallStep::EnableHooks)),
        !start.settled(install_outcome(ok)).released().active,
{
}

/// Installing goes from module to function, hook and enabling as long as each
/// step goes well, and stops at the first that does not, naming it.
pub proof fn law_install_goes_step_by_step(ok: bool, error: InstallError)
    ensures
        install_next(InstallStep::FindModule, true) == InstallStep::FindFunction,
        install_next(InstallStep::FindFunction, true) == InstallStep::CreateHook,
        install_next(InstallStep::CreateHook, true) == InstallStep::EnableHooks,
        install_next(InstallStep::EnableHooks, true) == InstallStep::Installed,
        install_next(InstallStep::FindModule, false) == InstallStep::Failed(
            InstallError::FindModule,
        ),
        install_next(InstallStep::FindFunction, false) == InstallStep::Failed(
            InstallError::FindFunction,
        ),
        install_next(InstallStep::CreateHook, false) == InstallStep::Failed(
            InstallError::CreateHook,
        ),
        install_next(InstallStep::EnableHooks, false) == InstallStep::Failed(
            InstallError::EnableHooks,
        ),
        install_next(InstallStep::Installed, ok) == InstallStep::Installed,
        install_next(InstallStep::Failed(error), ok) == InstallStep::Failed(error),
{
}

/// The hook is in place from its installation until it is given up, and nothing
/// else changes that.
pub proof fn law_hook_is_in_place_while_installed(state: HookLifecycle, step: InstallStep)
    ensures
        state.settled(InstallStep::Installed).active,
        step != InstallStep::Installed ==> state.settled(step) == state,
        !state.released().active,
{
}

/// What is said of a failed installation names the step, and what it reported
/// where it did.
pub proof fn law_failure_to_install_is_named(detail: Seq<char>)
    ensures
        install_error_text(InstallError::FindModule, detail) == "GetModuleHandle: "@ + detail,
        install_error_text(InstallError::FindFunction, detail)
            == "GetProcAddress(DeviceIoControl) failed"@,
        install_error_text(InstallError::CreateHook, detail) == "create_hook: "@ + detail,
        install_error_text(InstallError::EnableHooks, detail) == "enable_all_hooks: "@ + detail,
{
}

/// The hook goes on `DeviceIoControl` of `kernelbase.dll`.
pub proof fn law_hooked_function()
    ensures
        HOOKED_MODULE@ == "kernelbase.dll"@,
        HOOKED_FUNCTION@ == "DeviceIoControl"@,
        INSTALLED_MESSAGE@ == "Hook installed on DeviceIoControl (kernelbase.dll)"@,
        REMOVED_MESSAGE@ == "Hook removed"@,
{
}

/// What a reason of the loader stands for.
pub open spec fn event_of(reason: u32) -> DllEvent {
    match reason {
        0 => DllEvent::Detach,
        1 => DllEvent::Attach,
        _ => DllEvent::Other,
    }
}

/// Reason 1 and no other loads the hook, and reason 0 and no other unloads it.
pub proof fn law_only_loading_and_unloading_count(reason: u32)
    ensures
        event_of(reason) == DllEvent::Attach <==> reason == 1,
        event_of(reason) == DllEvent::Detach <==> reason == 0,
        event_of(reason) == DllEvent::Other <==> reason > 1,
{
}

} // verus!
