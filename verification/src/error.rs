//! The failures the engine distinguishes, and how far each of them reaches.

use vstd::prelude::*;

verus! {

/// A test set that cannot be run as written. Found before any run starts.
#[derive(Clone, Copy, Debug, PartialEq, Eq, Structural)]
pub enum ConfigurationError {
    /// A custom network profile without any entry.
    EmptyCustomProfile,
    /// A custom network profile whose first entry is not at the start of the call.
    MissingInitialState,
    /// A custom network profile whose offsets repeat or decrease.
    OffsetsNotIncreasing,
    /// Two test cases of one group share a name.
    DuplicateTestCaseName,
    /// Two network profiles of one group share a label.
    DuplicateProfileLabel,
    /// Two groups of one test set share a name.
    DuplicateGroupName,
}

/// A failure of what every run depends on.
#[derive(Clone, Copy, Debug, PartialEq, Eq, Structural)]
pub enum InfrastructureError {
    /// The participant images could not be built.
    ImageBuildFailed,
    /// The emulated network could not be created.
    NetworkCreationFailed,
}

/// What went wrong in a single run.
#[derive(Clone, Copy, Debug, PartialEq, Eq, Structural)]
pub enum RunError {
    /// A process that the run needs did not start.
    ProcessStartFailed,
    /// A participant reported the end of the call before its duration had elapsed.
    CallEndedEarly,
    /// The captured media could not be retrieved.
    CaptureFailed,
    /// The scoring tool reported a failure.
    ScoringFailed,
    /// A bounded wait ran out.
    Timeout,
}

/// Any failure the engine can meet.
#[derive(Clone, Copy, Debug, PartialEq, Eq, Structural)]
pub enum HarnessError {
    Configuration(ConfigurationError),
    Infrastructure(InfrastructureError),
    Run(RunError),
    /// Best-effort teardown found nothing to remove.
    CleanupWarning,
}

/// How far a failure reaches.
#[derive(Clone, Copy, Debug, PartialEq, Eq, Structural)]
pub enum Reach {
    /// The whole invocation ends at once, unsuccessfully.
    Invocation,
    /// The run is recorded as failed and the next run starts.
    Run,
    /// The failure is logged and nothing else happens.
    Nothing,
}

impl HarnessError {
    /// How far this failure reaches.
    pub open spec fn spec_reach(self) -> Reach {
        match self {
            HarnessError::Configuration(_) => Reach::Invocation,
            HarnessError::Infrastructure(_) => Reach::Invocation,
            HarnessError::Run(_) => Reach::Run,
            HarnessError::CleanupWarning => Reach::Nothing,
        }
    }

    /// How far this failure reaches.
    pub fn reach(&self) -> (r: Reach)
        ensures
            r == self.spec_reach(),
    {
        match self {
            HarnessError::Configuration(_) => Reach::Invocation,
            HarnessError::Infrastructure(_) => Reach::Invocation,
            HarnessError::Run(_) => Reach::Run,
            HarnessError::CleanupWarning => Reach::Nothing,
        }
    }

    /// Whether this failure ends the invocation.
    pub fn is_fatal(&self) -> (r: bool)
        ensures
            r == (self.spec_reach() == Reach::Invocation),
    {
        match self {
            HarnessError::Configuration(_) => true,
            HarnessError::Infrastructure(_) => true,
            HarnessError::Run(_) => false,
            HarnessError::CleanupWarning => false,
        }
    }
}

/// Whether an invocation in which `errors` occurred has succeeded: it has unless one of
/// them ends the invocation. How many runs failed does not matter.
pub open spec fn spec_succeeded(errors: Seq<HarnessError>) -> bool {
    forall|i: int| 0 <= i < errors.len() ==> (#[trigger] errors[i]).spec_reach() != Reach::Invocation
}

/// Whether an invocation in which `errors` occurred has succeeded.
pub fn succeeded(errors: &Vec<HarnessError>) -> (r: bool)
    ensures
        r == spec_succeeded(errors@),
{
    let mut i: usize = 0;
    while i < errors.len()
        invariant
            i <= errors.len(),
            forall|j: int| 0 <= j < i ==> (#[trigger] errors[j]).spec_reach() != Reach::Invocation,
        decreases errors.len() - i,
    {
        if errors[i].is_fatal() {
            return false;
        }
        i = i + 1;
    }
    true
}

} // verus!
