use segotep_digital::service::{
    InstallAction, InstallError, InstallOutcome, InstallStep, ERROR_SERVICE_ALREADY_RUNNING,
    ERROR_SERVICE_EXISTS,
};

/// Runs the installation on the given call outcomes; returns the calls made
/// and the final outcome.
fn install(outcomes: &[Result<bool, u32>]) -> (Vec<InstallAction>, InstallOutcome) {
    let (mut step, mut action) = InstallStep::begin();
    let mut calls = Vec::new();
    for &o in outcomes {
        calls.push(action);
        (step, action) = step.step(o);
    }
    match action {
        InstallAction::Finish(outcome) => (calls, outcome),
        other => panic!("installation not finished: {other:?}"),
    }
}

#[test]
fn fresh_install_creates_and_starts() {
    let (calls, outcome) = install(&[Ok(true), Ok(true), Ok(false), Ok(true)]);
    assert_eq!(
        calls,
        vec![
            InstallAction::OpenManager,
            InstallAction::CreateService,
            InstallAction::QueryStatus,
            InstallAction::StartService,
        ]
    );
    assert_eq!(outcome, InstallOutcome::Installed);
}

#[test]
fn existing_running_service_is_updated_and_restarted() {
    let (calls, outcome) = install(&[
        Ok(true),
        Err(ERROR_SERVICE_EXISTS),
        Ok(true),
        Ok(true),
        Ok(true),
        Err(5),
        Err(ERROR_SERVICE_ALREADY_RUNNING),
    ]);
    assert_eq!(
        calls,
        vec![
            InstallAction::OpenManager,
            InstallAction::CreateService,
            InstallAction::OpenExistingService,
            InstallAction::UpdateConfig,
            InstallAction::QueryStatus,
            InstallAction::StopService,
            InstallAction::StartService,
        ]
    );
    assert_eq!(outcome, InstallOutcome::Installed);
}

#[test]
fn failed_status_query_counts_as_stopped() {
    let (calls, _) = install(&[Ok(true), Ok(true), Err(6), Ok(true)]);
    assert_eq!(calls[3], InstallAction::StartService);
}

#[test]
fn each_failure_carries_its_code() {
    let fail = |o: &[Result<bool, u32>]| install(o).1;
    assert_eq!(
        fail(&[Err(5)]),
        InstallOutcome::Failed(InstallError::ManagerUnavailable(5))
    );
    assert_eq!(
        fail(&[Ok(true), Err(1078)]),
        InstallOutcome::Failed(InstallError::CreateFailed(1078))
    );
    assert_eq!(
        fail(&[Ok(true), Err(ERROR_SERVICE_EXISTS), Err(5)]),
        InstallOutcome::Failed(InstallError::OpenExistingFailed(5))
    );
    assert_eq!(
        fail(&[Ok(true), Err(ERROR_SERVICE_EXISTS), Ok(true), Err(87)]),
        InstallOutcome::Failed(InstallError::UpdateFailed(87))
    );
    assert_eq!(
        fail(&[Ok(true), Ok(true), Ok(false), Err(1053)]),
        InstallOutcome::Failed(InstallError::StartFailed(1053))
    );
}

#[test]
fn finished_installation_stays_finished() {
    let done = InstallStep::Done(InstallOutcome::Installed);
    assert_eq!(
        done.step(Err(5)),
        (done, InstallAction::Finish(InstallOutcome::Installed))
    );
}
