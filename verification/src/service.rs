//! The decisions of installing the Windows service: create it, or update the
//! one already registered; restart it when it runs; count "already running"
//! as started. The caller makes each Service Control Manager call and reports
//! its outcome.
use vstd::prelude::*;

verus! {

/// Win32 error: the service is already registered.
pub const ERROR_SERVICE_EXISTS: u32 = 1073;

/// Win32 error: the service is already running.
pub const ERROR_SERVICE_ALREADY_RUNNING: u32 = 1056;

/// Why installing failed, with the Win32 error code of the failed call.
#[derive(Debug, Clone, Copy, PartialEq, Eq, Structural)]
pub enum InstallError {
    /// The Service Control Manager could not be opened.
    ManagerUnavailable(u32),
    /// The service could not be created.
    CreateFailed(u32),
    /// The registered service could not be opened for an update.
    OpenExistingFailed(u32),
    /// The registered service's configuration could not be changed.
    UpdateFailed(u32),
    /// The service was configured but did not start.
    StartFailed(u32),
}

/// The outcome of installing.
#[derive(Debug, Clone, Copy, PartialEq, Eq, Structural)]
pub enum InstallOutcome {
    Installed,
    Failed(InstallError),
}

/// Which call's outcome the installation waits for.
#[derive(Debug, Clone, Copy, PartialEq, Eq, Structural)]
pub enum InstallStep {
    OpeningManager,
    Creating,
    OpeningExisting,
    Updating,
    QueryingStatus,
    Stopping,
    Starting,
    Done(InstallOutcome),
}

/// The call the caller makes next.
#[derive(Debug, Clone, Copy, PartialEq, Eq, Structural)]
pub enum InstallAction {
    /// Open the Service Control Manager.
    OpenManager,
    /// Create the service with the command line and automatic start.
    CreateService,
    /// Open the registered service for a configuration change.
    OpenExistingService,
    /// Set the registered service's command line and automatic start.
    UpdateConfig,
    /// Query whether the service is running.
    QueryStatus,
    /// Ask the service to stop and give it time to do so.
    StopService,
    /// Start the service.
    StartService,
    /// Close the handles and report this outcome.
    Finish(InstallOutcome),
}

/// The first call: open the Service Control Manager.
pub open spec fn spec_install_begin() -> (InstallStep, InstallAction) {
    (InstallStep::OpeningManager, InstallAction::OpenManager)
}

/// Ending the installation with the failure `e`.
pub open spec fn finish_with(e: InstallError) -> (InstallStep, InstallAction) {
    (
        InstallStep::Done(InstallOutcome::Failed(e)),
        InstallAction::Finish(InstallOutcome::Failed(e)),
    )
}

/// One step of installing. `outcome` is what the last call gave: `Ok(running)`
/// on success (`running` tells, for a status query, whether the service runs;
/// it is ignored otherwise) or `Err(code)` with the Win32 error code. A failed
/// status query counts as "not running"; the outcome of the stop request is
/// not looked at.
pub open spec fn spec_install_step(s: InstallStep, outcome: Result<bool, u32>) -> (
    InstallStep,
    InstallAction,
) {
    match s {
        InstallStep::OpeningManager => match outcome {
            Ok(_) => (InstallStep::Creating, InstallAction::CreateService),
            Err(c) => finish_with(InstallError::ManagerUnavailable(c)),
        },
        InstallStep::Creating => match outcome {
            Ok(_) => (InstallStep::QueryingStatus, InstallAction::QueryStatus),
            Err(c) => if c == ERROR_SERVICE_EXISTS {
                (InstallStep::OpeningExisting, InstallAction::OpenExistingService)
            } else {
                finish_with(InstallError::CreateFailed(c))
            },
        },
        InstallStep::OpeningExisting => match outcome {
            Ok(_) => (InstallStep::Updating, InstallAction::UpdateConfig),
            Err(c) => finish_with(InstallError::OpenExistingFailed(c)),
        },
        InstallStep::Updating => match outcome {
            Ok(_) => (InstallStep::QueryingStatus, InstallAction::QueryStatus),
            Err(c) => finish_with(InstallError::UpdateFailed(c)),
        },
        InstallStep::QueryingStatus => match outcome {
            Ok(true) => (InstallStep::Stopping, InstallAction::StopService),
            _ => (InstallStep::Starting, InstallAction::StartService),
        },
        InstallStep::Stopping => (InstallStep::Starting, InstallAction::StartService),
        InstallStep::Starting => match outcome {
            Ok(_) => (
                InstallStep::Done(InstallOutcome::Installed),
                InstallAction::Finish(InstallOutcome::Installed),
            ),
            Err(c) => if c == ERROR_SERVICE_ALREADY_RUNNING {
                (
                    InstallStep::Done(InstallOutcome::Installed),
                    InstallAction::Finish(InstallOutcome::Installed),
                )
            } else {
                finish_with(InstallError::StartFailed(c))
            },
        },
        InstallStep::Done(o) => (InstallStep::Done(o), InstallAction::Finish(o)),
    }
}

fn fail(e: InstallError) -> (r: (InstallStep, InstallAction))
    ensures
        r == finish_with(e),
{
    (
        InstallStep::Done(InstallOutcome::Failed(e)),
        InstallAction::Finish(InstallOutcome::Failed(e)),
    )
}

impl InstallStep {
    /// The first call: open the Service Control Manager.
    pub fn begin() -> (r: (InstallStep, InstallAction))
        ensures
            r == spec_install_begin(),
    {
        (InstallStep::OpeningManager, InstallAction::OpenManager)
    }

    /// The next state and call after the last call gave `outcome`.
    pub fn step(&self, outcome: Result<bool, u32>) -> (r: (InstallStep, InstallAction))
        ensures
            r == spec_install_step(*self, outcome),
    {
        match *self {
            InstallStep::OpeningManager => match outcome {
                Ok(_) => (InstallStep::Creating, InstallAction::CreateService),
                Err(c) => fail(InstallError::ManagerUnavailable(c)),
            },
            InstallStep::Creating => match outcome {
                Ok(_) => (InstallStep::QueryingStatus, InstallAction::QueryStatus),
                Err(c) => if c == ERROR_SERVICE_EXISTS {
                    (InstallStep::OpeningExisting, InstallAction::OpenExistingService)
                } else {
                    fail(InstallError::CreateFailed(c))
                },
            },
            InstallStep::OpeningExisting => match outcome {
                Ok(_) => (InstallStep::Updating, InstallAction::UpdateConfig),
                Err(c) => fail(InstallError::OpenExistingFailed(c)),
            },
            InstallStep::Updating => match outcome {
                Ok(_) => (InstallStep::QueryingStatus, InstallAction::QueryStatus),
                Err(c) => fail(InstallError::UpdateFailed(c)),
            },
            InstallStep::QueryingStatus => match outcome {
                Ok(true) => (InstallStep::Stopping, InstallAction::StopService),
                _ => (InstallStep::Starting, InstallAction::StartService),
            },
            InstallStep::Stopping => (InstallStep::Starting, InstallAction::StartService),
            InstallStep::Starting => match outcome {
                Ok(_) => (
                    InstallStep::Done(InstallOutcome::Installed),
                    InstallAction::Finish(InstallOutcome::Installed),
                ),
                Err(c) => if c == ERROR_SERVICE_ALREADY_RUNNING {
                    (
                        InstallStep::Done(InstallOutcome::Installed),
                        InstallAction::Finish(InstallOutcome::Installed),
                    )
                } else {
                    fail(InstallError::StartFailed(c))
                },
            },
            InstallStep::Done(o) => (InstallStep::Done(o), InstallAction::Finish(o)),
        }
    }
}

/// A service that is already registered is updated in place, not reported as
/// a failure; any other creation error ends the installation with that code.
pub proof fn lemma_existing_service_is_updated(code: u32)
    ensures
        spec_install_step(InstallStep::Creating, Err(code)) == if code == ERROR_SERVICE_EXISTS {
            (InstallStep::OpeningExisting, InstallAction::OpenExistingService)
        } else {
            finish_with(InstallError::CreateFailed(code))
        },
        spec_install_step(InstallStep::OpeningExisting, Ok(true)).1 == InstallAction::UpdateConfig,
        spec_install_step(InstallStep::OpeningExisting, Ok(false)).1 == InstallAction::UpdateConfig,
{
}

/// Created or updated, the service's status is queried; a running service is
/// stopped before it is started again, whatever the stop request gave.
pub proof fn lemma_running_service_restarts(running: Result<bool, u32>, stopped: Result<bool, u32>)
    ensures
        spec_install_step(InstallStep::Creating, Ok(true)).1 == InstallAction::QueryStatus,
        spec_install_step(InstallStep::Updating, Ok(true)).1 == InstallAction::QueryStatus,
        spec_install_step(InstallStep::QueryingStatus, running).1 == if running == Ok::<bool, u32>(
            true,
        ) {
            InstallAction::StopService
        } else {
            InstallAction::StartService
        },
        spec_install_step(InstallStep::Stopping, stopped) == (
            InstallStep::Starting,
            InstallAction::StartService,
        ),
{
}

/// The installation succeeds only on a start that succeeded or found the
/// service already running; every failure carries the code of the call that
/// failed.
pub proof fn lemma_install_success(s: InstallStep, outcome: Result<bool, u32>)
    requires
        !(s is Done),
    ensures
        spec_install_step(s, outcome).1 == InstallAction::Finish(InstallOutcome::Installed) <==> (s
            == InstallStep::Starting && (outcome is Ok || outcome == Err::<bool, u32>(
            ERROR_SERVICE_ALREADY_RUNNING,
        ))),
        spec_install_step(s, outcome).1 matches InstallAction::Finish(InstallOutcome::Failed(e))
            ==> outcome is Err && match e {
            InstallError::ManagerUnavailable(c) => s == InstallStep::OpeningManager && outcome
                == Err::<bool, u32>(c),
            InstallError::CreateFailed(c) => s == InstallStep::Creating && outcome == Err::<
                bool,
                u32,
            >(c) && c != ERROR_SERVICE_EXISTS,
            InstallError::OpenExistingFailed(c) => s == InstallStep::OpeningExisting && outcome
                == Err::<bool, u32>(c),
            InstallError::UpdateFailed(c) => s == InstallStep::Updating && outcome == Err::<
                bool,
                u32,
            >(c),
            InstallError::StartFailed(c) => s == InstallStep::Starting && outcome == Err::<
                bool,
                u32,
            >(c) && c != ERROR_SERVICE_ALREADY_RUNNING,
        },
{
}

} // verus!
