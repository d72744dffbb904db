use vstd::prelude::*;
use vstd::string::StringExecFns;

verus! {

/// The Win32 error code reported when a program that expects to run under the
/// service manager was started from an interactive session instead.
pub const SERVICE_CONTROLLER_ABSENT_CODE: i64 = 1063;

/// The error taxonomy of the supervisor.
pub enum OrchestratorError {
    /// A spec file could not be read or parsed; carries the offending path
    /// and a rendering of the cause. Fatal to startup.
    ConfigLoadFailed(String, String),
    /// The host-service manager reported a failure; carries its rendering.
    ServiceStartFailed(String),
    /// No host-service controller is present. Not a fault: the engine is to
    /// run its loop standalone.
    ServiceControllerNotPresent(),
    /// The one-shot exit-wait registration for a just-spawned child failed;
    /// the spawn is reported as failed.
    ProcessNotificationRegistrationFailed(),
}

/// The human-readable rendering of each error.
pub open spec fn error_message_spec(e: OrchestratorError) -> Seq<char> {
    match e {
        OrchestratorError::ConfigLoadFailed(path, cause) => "Could not load config file ["@ + path@
            + "]: "@ + cause@,
        OrchestratorError::ServiceStartFailed(cause) => "Windows service failed to start: "@
            + cause@,
        OrchestratorError::ServiceControllerNotPresent() => "Windows service controller not present"@,
        OrchestratorError::ProcessNotificationRegistrationFailed() => "Registration of the process notification handler has failed"@,
    }
}

impl OrchestratorError {
    /// Renders the error for a log line or the host's standard error.
    pub fn message(&self) -> (r: String)
        ensures
            r@ == error_message_spec(*self),
    {
        match self {
            OrchestratorError::ConfigLoadFailed(path, cause) => {
                let mut s = "Could not load config file [".to_owned();
                s.append(path.as_str());
                s.append("]: ");
                s.append(cause.as_str());
                s
            },
            OrchestratorError::ServiceStartFailed(cause) => {
                let mut s = "Windows service failed to start: ".to_owned();
                s.append(cause.as_str());
                s
            },
            OrchestratorError::ServiceControllerNotPresent() => {
                "Windows service controller not present".to_owned()
            },
            OrchestratorError::ProcessNotificationRegistrationFailed() => {
                "Registration of the process notification handler has failed".to_owned()
            },
        }
    }
}

/// Decides how the host proceeds after it tried to hand control to the
/// operating system's service manager. The inputs describe the attempt as
/// plain values: whether it failed, whether the failure was a raw
/// platform error, and the platform error code if one was reported.
///
/// The controller-absent code is the one signal to run standalone; any other
/// platform error code is tolerated; a failure that is not a raw platform
/// error aborts with its rendering.
pub fn service_start_disposition(
    failed: bool,
    is_platform_error: bool,
    raw_os_error: Option<i64>,
    rendering: String,
) -> (r: Result<(), OrchestratorError>)
    ensures
        !failed ==> r is Ok,
        failed && is_platform_error && raw_os_error == Some(SERVICE_CONTROLLER_ABSENT_CODE)
            ==> r == Result::<(), OrchestratorError>::Err(
            OrchestratorError::ServiceControllerNotPresent(),
        ),
        failed && is_platform_error && raw_os_error != Some(SERVICE_CONTROLLER_ABSENT_CODE)
            ==> r is Ok,
        failed && !is_platform_error ==> (r matches Err(m) && m
            == OrchestratorError::ServiceStartFailed(rendering)),
{
    if !failed {
        Ok(())
    } else if is_platform_error {
        match raw_os_error {
            Some(code) if code == SERVICE_CONTROLLER_ABSENT_CODE => Err(
                OrchestratorError::ServiceControllerNotPresent(),
            ),
            _ => Ok(()),
        }
    } else {
        Err(OrchestratorError::ServiceStartFailed(rendering))
    }
}

} // verus!
