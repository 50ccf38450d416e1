use call_sim::error::{
    succeeded, ConfigurationError, HarnessError, InfrastructureError, Reach, RunError,
};

#[test]
fn configuration_and_infrastructure_errors_end_the_invocation() {
    for error in [
        ConfigurationError::EmptyCustomProfile,
        ConfigurationError::MissingInitialState,
        ConfigurationError::OffsetsNotIncreasing,
        ConfigurationError::DuplicateTestCaseName,
        ConfigurationError::DuplicateProfileLabel,
        ConfigurationError::DuplicateGroupName,
    ] {
        assert_eq!(HarnessError::Configuration(error).reach(), Reach::Invocation);
        assert!(HarnessError::Configuration(error).is_fatal());
    }
    for error in
        [InfrastructureError::ImageBuildFailed, InfrastructureError::NetworkCreationFailed]
    {
        assert_eq!(HarnessError::Infrastructure(error).reach(), Reach::Invocation);
        assert!(HarnessError::Infrastructure(error).is_fatal());
    }
}

#[test]
fn run_errors_end_one_run() {
    for error in [
        RunError::ProcessStartFailed,
        RunError::CallEndedEarly,
        RunError::CaptureFailed,
        RunError::ScoringFailed,
        RunError::Timeout,
    ] {
        assert_eq!(HarnessError::Run(error).reach(), Reach::Run);
        assert!(!HarnessError::Run(error).is_fatal());
    }
}

#[test]
fn cleanup_warning_ends_nothing() {
    assert_eq!(HarnessError::CleanupWarning.reach(), Reach::Nothing);
    assert!(!HarnessError::CleanupWarning.is_fatal());
}

#[test]
fn invocation_succeeds_unless_a_fatal_error_occurred() {
    assert!(succeeded(&vec![]));
    assert!(succeeded(&vec![
        HarnessError::Run(RunError::CallEndedEarly),
        HarnessError::CleanupWarning,
        HarnessError::Run(RunError::Timeout),
    ]));
    assert!(!succeeded(&vec![
        HarnessError::Run(RunError::CallEndedEarly),
        HarnessError::Infrastructure(InfrastructureError::ImageBuildFailed),
    ]));
    assert!(!succeeded(&vec![HarnessError::Configuration(
        ConfigurationError::DuplicateTestCaseName
    )]));
}
