use vstd::prelude::*;

verus! {

/// The pipeline stage at which an interface's run failed.
#[derive(Clone, Copy, Debug, PartialEq, Eq, Structural)]
pub enum Stage {
    Measurement,
    Query,
    Calculation,
    Publish,
}

/// Everything that can go wrong in one interface's pipeline run.
#[derive(Clone, Debug, PartialEq, Eq)]
pub enum PipelineError {
    /// The external measurement process exited non-zero or could not run;
    /// carries its exit code and captured output for diagnostics.
    ProcessError { exit_code: Option<i32>, stdout: Vec<u8>, stderr: Vec<u8> },
    /// An expected numeric pattern was missing or did not denote an accepted
    /// finite non-negative decimal.
    ParseError,
    /// The metrics store reported a status other than the success marker.
    QueryStatusError,
    /// The metrics store returned zero result rows for the interface.
    NoDataError,
    /// The observed bandwidth was zero or negative: no valid denominator.
    DivisionError,
    /// The ingestion endpoint answered outside the success range; carries the
    /// observed HTTP status.
    PublishError { status: u16 },
    /// A transport-level failure reaching an HTTP endpoint.
    NetworkError,
}

impl Stage {
    /// A short name for reports.
    pub fn describe(&self) -> (r: &'static str)
        ensures
            r@ == match *self {
                Stage::Measurement => "measurement"@,
                Stage::Query => "query"@,
                Stage::Calculation => "calculation"@,
                Stage::Publish => "publish"@,
            },
    {
        match *self {
            Stage::Measurement => "measurement",
            Stage::Query => "query",
            Stage::Calculation => "calculation",
            Stage::Publish => "publish",
        }
    }
}

impl PipelineError {
    /// A short name of the error kind for reports.
    pub fn describe(&self) -> (r: &'static str)
        ensures
            r@ == match *self {
                PipelineError::ProcessError { .. } => "process failed"@,
                PipelineError::ParseError => "parse failed"@,
                PipelineError::QueryStatusError => "query status not success"@,
                PipelineError::NoDataError => "no data"@,
                PipelineError::DivisionError => "invalid denominator"@,
                PipelineError::PublishError { .. } => "publish rejected"@,
                PipelineError::NetworkError => "network failure"@,
            },
    {
        match *self {
            PipelineError::ProcessError { .. } => "process failed",
            PipelineError::ParseError => "parse failed",
            PipelineError::QueryStatusError => "query status not success",
            PipelineError::NoDataError => "no data",
            PipelineError::DivisionError => "invalid denominator",
            PipelineError::PublishError { .. } => "publish rejected",
            PipelineError::NetworkError => "network failure",
        }
    }
}

} // verus!
