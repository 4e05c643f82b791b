use vstd::prelude::*;
use vstd::pervasive::arbitrary;
use crate::errors::{PipelineError, Stage};
use crate::measure::{evaluate_measurement, measurement_fails, measurement_value};
use crate::num::{Decimal, SignedDecimal, dec_token_ok, dec_value, pow10, signed_body, signed_neg};
use crate::query::{select_sample, success_marker};
use crate::ratio::{MBPS_TO_BPS_EXP, Ratio, compute_ratio};

verus! {

/// One statically configured interface: the local name used for measurement
/// and querying, and the name under which the ratio is published.
#[derive(Clone, Debug, PartialEq, Eq)]
pub struct InterfaceConfig {
    pub measurement_name: Vec<u8>,
    pub publish_name: Vec<u8>,
}

/// One interface's pipeline state.  The calculation needs no outside work, so
/// a query response drives the pipeline through the calculation at once:
/// `Querying` answers into `Publishing`, `Done` or `Failed`.
#[derive(Clone, Debug, PartialEq, Eq)]
pub enum PipelineState {
    Pending,
    Measuring,
    Querying { measured: Decimal },
    Publishing { ratio: Ratio },
    Done { ratio: Ratio },
    Failed { stage: Stage, error: PipelineError },
}

/// What the unverified driver observed while carrying out the pipeline's
/// outside work: the measurement process's outcome, the decoded query
/// response, or the publish response's HTTP status.  The `Unavailable` and
/// `Unreachable` events report transport-level failure.
#[derive(Debug)]
pub enum PipelineEvent {
    MeasurementDone { exit_ok: bool, exit_code: Option<i32>, stdout: Vec<u8>, stderr: Vec<u8> },
    MeasurementUnavailable,
    QueryDone { status: Vec<u8>, values: Vec<Vec<u8>> },
    QueryUnreachable,
    PublishDone { http_status: u16 },
    PublishUnreachable,
}

/// Every sample or ratio a state carries is within the model's bounds.
pub open spec fn state_wf(s: PipelineState) -> bool {
    match s {
        PipelineState::Querying { measured } => measured.valid(),
        PipelineState::Publishing { ratio } => ratio.valid(),
        PipelineState::Done { ratio } => ratio.valid(),
        _ => true,
    }
}

/// The event answers the outside work the state is waiting for.
pub open spec fn event_fits(s: PipelineState, e: PipelineEvent) -> bool {
    match (s, e) {
        (PipelineState::Measuring, PipelineEvent::MeasurementDone { .. }) => true,
        (PipelineState::Measuring, PipelineEvent::MeasurementUnavailable) => true,
        (PipelineState::Querying { .. }, PipelineEvent::QueryDone { .. }) => true,
        (PipelineState::Querying { .. }, PipelineEvent::QueryUnreachable) => true,
        (PipelineState::Publishing { .. }, PipelineEvent::PublishDone { .. }) => true,
        (PipelineState::Publishing { .. }, PipelineEvent::PublishUnreachable) => true,
        _ => false,
    }
}

/// The pipeline's transition relation: what the next state is, given the
/// state and the observed event.
pub open spec fn pipeline_transition(s: PipelineState, e: PipelineEvent, ns: PipelineState) -> bool {
    match (s, e) {
        (PipelineState::Measuring, PipelineEvent::MeasurementUnavailable) => {
            &&& ns matches PipelineState::Failed { stage: Stage::Measurement, error }
            &&& error matches PipelineError::ProcessError { exit_code, stdout, stderr }
            &&& exit_code is None
            &&& stdout@ == Seq::<u8>::empty()
            &&& stderr@ == Seq::<u8>::empty()
        },
        (
            PipelineState::Measuring,
            PipelineEvent::MeasurementDone { exit_ok, exit_code, stdout, stderr },
        ) => {
            if !exit_ok {
                ns == (PipelineState::Failed {
                    stage: Stage::Measurement,
                    error: PipelineError::ProcessError { exit_code, stdout, stderr },
                })
            } else {
                ||| (ns matches PipelineState::Querying { measured } && measurement_value(
                    stdout@,
                    measured,
                ))
                ||| (measurement_fails(stdout@) && ns == (PipelineState::Failed {
                    stage: Stage::Measurement,
                    error: PipelineError::ParseError,
                }))
            }
        },
        (PipelineState::Querying { .. }, PipelineEvent::QueryUnreachable) => ns
            == (PipelineState::Failed { stage: Stage::Query, error: PipelineError::NetworkError }),
        (PipelineState::Querying { measured }, PipelineEvent::QueryDone { status, values }) => {
            if status@ != success_marker() {
                ns == (PipelineState::Failed {
                    stage: Stage::Query,
                    error: PipelineError::QueryStatusError,
                })
            } else if values@.len() == 0 {
                ns == (PipelineState::Failed {
                    stage: Stage::Query,
                    error: PipelineError::NoDataError,
                })
            } else if !dec_token_ok(signed_body(values@[0]@)) {
                ns == (PipelineState::Failed {
                    stage: Stage::Query,
                    error: PipelineError::ParseError,
                })
            } else {
                let sample = SignedDecimal {
                    negative: signed_neg(values@[0]@),
                    magnitude: dec_value(signed_body(values@[0]@)),
                };
                if sample.is_positive() {
                    &&& ns matches PipelineState::Publishing { ratio }
                    &&& ratio.num == measured.mantissa * pow10(
                        (MBPS_TO_BPS_EXP + sample.magnitude.scale) as nat,
                    )
                    &&& ratio.den == sample.magnitude.mantissa * pow10(measured.scale as nat)
                } else {
                    ns == (PipelineState::Failed {
                        stage: Stage::Calculation,
                        error: PipelineError::DivisionError,
                    })
                }
            }
        },
        (PipelineState::Publishing { .. }, PipelineEvent::PublishUnreachable) => ns
            == (PipelineState::Failed {
                stage: Stage::Publish,
                error: PipelineError::NetworkError,
            }),
        (PipelineState::Publishing { ratio }, PipelineEvent::PublishDone { http_status }) => {
            if 200 <= http_status < 300 {
                ns == (PipelineState::Done { ratio })
            } else {
                ns == (PipelineState::Failed {
                    stage: Stage::Publish,
                    error: PipelineError::PublishError { status: http_status },
                })
            }
        },
        _ => false,
    }
}

/// Advances one interface's pipeline by one observed event.
pub fn pipeline_step(state: &PipelineState, event: PipelineEvent) -> (ns: PipelineState)
    requires
        state_wf(*state),
        event_fits(*state, event),
    ensures
        pipeline_transition(*state, event, ns),
        state_wf(ns),
{
    match state {
        PipelineState::Measuring => match event {
            PipelineEvent::MeasurementUnavailable => PipelineState::Failed {
                stage: Stage::Measurement,
                error: PipelineError::ProcessError {
                    exit_code: None,
                    stdout: Vec::new(),
                    stderr: Vec::new(),
                },
            },
            PipelineEvent::MeasurementDone { exit_ok, exit_code, stdout, stderr } => {
                match evaluate_measurement(exit_ok, exit_code, stdout, stderr) {
                    Ok(d) => PipelineState::Querying { measured: d },
                    Err(e) => PipelineState::Failed { stage: Stage::Measurement, error: e },
                }
            },
            _ => {
                proof {
                    assert(false);
                }
                PipelineState::Pending
            },
        },
        PipelineState::Querying { measured } => match event {
            PipelineEvent::QueryUnreachable => PipelineState::Failed {
                stage: Stage::Query,
                error: PipelineError::NetworkError,
            },
            PipelineEvent::QueryDone { status, values } => {
                match select_sample(&status, &values) {
                    Ok(sample) => match compute_ratio(measured, &sample) {
                        Ok(q) => PipelineState::Publishing { ratio: q },
                        Err(_) => PipelineState::Failed {
                            stage: Stage::Calculation,
                            error: PipelineError::DivisionError,
                        },
                    },
                    Err(e) => PipelineState::Failed { stage: Stage::Query, error: e },
                }
            },
            _ => {
                proof {
                    assert(false);
                }
                PipelineState::Pending
            },
        },
        PipelineState::Publishing { ratio } => match event {
            PipelineEvent::PublishUnreachable => PipelineState::Failed {
                stage: Stage::Publish,
                error: PipelineError::NetworkError,
            },
            PipelineEvent::PublishDone { http_status } => {
                if 200 <= http_status && http_status < 300 {
                    PipelineState::Done { ratio: *ratio }
                } else {
                    PipelineState::Failed {
                        stage: Stage::Publish,
                        error: PipelineError::PublishError { status: http_status },
                    }
                }
            },
            _ => {
                proof {
                    assert(false);
                }
                PipelineState::Pending
            },
        },
        _ => {
            proof {
                assert(false);
            }
            PipelineState::Pending
        },
    }
}

/// One interface's final outcome.
#[derive(Clone, Debug, PartialEq, Eq)]
pub enum Outcome {
    Success { ratio: Ratio },
    Failure { stage: Stage, error: PipelineError },
}

pub open spec fn is_terminal(s: PipelineState) -> bool {
    s is Done || s is Failed
}

pub open spec fn outcome_of(s: PipelineState) -> Outcome {
    match s {
        PipelineState::Done { ratio } => Outcome::Success { ratio },
        PipelineState::Failed { stage, error } => Outcome::Failure { stage, error },
        _ => arbitrary(),
    }
}

pub open spec fn all_success(outcomes: Seq<Outcome>) -> bool {
    forall|i: int| 0 <= i < outcomes.len() ==> outcomes[i] is Success
}

/// What the driver must do next: run the measurement process or one of the
/// two HTTP requests for the interface at `idx`, or stop with the run's exit
/// code.
#[derive(Clone, Copy, Debug, PartialEq, Eq, Structural)]
pub enum Action {
    RunMeasurement { idx: usize },
    RunQuery { idx: usize },
    RunPublish { idx: usize, ratio: Ratio },
    Finished { exit_code: i32 },
}

/// The process exit code under the continue-on-error policy: zero exactly
/// when every interface succeeded.
pub fn exit_code(outcomes: &Vec<Outcome>) -> (r: i32)
    ensures
        r == if all_success(outcomes@) {
            0i32
        } else {
            1i32
        },
{
    let mut i: usize = 0;
    while i < outcomes.len()
        invariant
            i <= outcomes.len(),
            forall|j: int| 0 <= j < i ==> outcomes@[j] is Success,
        decreases outcomes.len() - i,
    {
        if !(matches!(&outcomes[i], Outcome::Success { .. })) {
            return 1;
        }
        i = i + 1;
    }
    0
}

/// Drives the pipeline across the configured interfaces.  Policy, fixed and
/// deliberate: sequential, continue-on-error.  Interfaces run one at a time
/// in configuration order; a failed interface is recorded as an outcome and
/// the next interface is still attempted; the final exit code is non-zero
/// exactly when some interface failed.
pub struct Orchestrator {
    pub configs: Vec<InterfaceConfig>,
    pub idx: usize,
    pub outcomes: Vec<Outcome>,
    pub state: PipelineState,
}

impl Orchestrator {
    pub open spec fn active(self) -> bool {
        self.state is Measuring || self.state is Querying || self.state is Publishing
    }

    pub open spec fn wf(self) -> bool {
        &&& self.idx <= self.configs.len()
        &&& self.outcomes.len() == self.idx
        &&& state_wf(self.state)
        &&& (self.active() ==> self.idx < self.configs.len())
        &&& (!self.active() ==> self.state is Pending)
    }

    pub fn new(configs: Vec<InterfaceConfig>) -> (r: Orchestrator)
        ensures
            r.wf(),
            r.configs == configs,
            r.idx == 0,
            r.outcomes@.len() == 0,
            !r.active(),
    {
        Orchestrator { configs, idx: 0, outcomes: Vec::new(), state: PipelineState::Pending }
    }

    /// Begins the run: the first interface's measurement, or, with nothing
    /// configured, a finished run with exit code zero.
    pub fn start(&mut self) -> (a: Action)
        requires
            old(self).wf(),
            !old(self).active(),
            old(self).idx == 0,
        ensures
            final(self).wf(),
            final(self).configs == old(self).configs,
            final(self).outcomes == old(self).outcomes,
            final(self).idx == 0,
            if old(self).configs.len() == 0 {
                !final(self).active() && a == (Action::Finished { exit_code: 0i32 })
            } else {
                final(self).state is Measuring && a == (Action::RunMeasurement { idx: 0usize })
            },
    {
        if self.configs.len() == 0 {
            Action::Finished { exit_code: 0 }
        } else {
            self.state = PipelineState::Measuring;
            Action::RunMeasurement { idx: 0 }
        }
    }

    /// Feeds one observed event in and says what to do next.  A terminal
    /// pipeline state is recorded as the current interface's outcome and the
    /// next interface, if any, is started at once — a failure never stops the
    /// remaining interfaces.
    pub fn step(&mut self, event: PipelineEvent) -> (a: Action)
        requires
            old(self).wf(),
            old(self).active(),
            event_fits(old(self).state, event),
        ensures
            final(self).wf(),
            final(self).configs == old(self).configs,
            exists|ns: PipelineState|
                #[trigger] pipeline_transition(old(self).state, event, ns) && if is_terminal(ns) {
                    &&& final(self).outcomes@ == old(self).outcomes@.push(outcome_of(ns))
                    &&& final(self).idx == old(self).idx + 1
                    &&& if final(self).idx < final(self).configs.len() {
                        final(self).state is Measuring && a == (Action::RunMeasurement {
                            idx: (old(self).idx + 1) as usize,
                        })
                    } else {
                        !final(self).active() && a == (Action::Finished {
                            exit_code: if all_success(final(self).outcomes@) {
                                0i32
                            } else {
                                1i32
                            },
                        })
                    }
                } else {
                    &&& final(self).state == ns
                    &&& final(self).idx == old(self).idx
                    &&& final(self).outcomes == old(self).outcomes
                    &&& (ns is Querying ==> a == (Action::RunQuery { idx: old(self).idx }))
                    &&& (ns matches PipelineState::Publishing { ratio } ==> a == (
                    Action::RunPublish { idx: old(self).idx, ratio }))
                },
    {
        let ns = pipeline_step(&self.state, event);
        let ghost gns = ns;
        match ns {
            PipelineState::Done { ratio } => {
                self.outcomes.push(Outcome::Success { ratio });
                self.advance(Ghost(gns))
            },
            PipelineState::Failed { stage, error } => {
                self.outcomes.push(Outcome::Failure { stage, error });
                self.advance(Ghost(gns))
            },
            PipelineState::Querying { measured } => {
                self.state = PipelineState::Querying { measured };
                Action::RunQuery { idx: self.idx }
            },
            PipelineState::Publishing { ratio } => {
                self.state = PipelineState::Publishing { ratio };
                Action::RunPublish { idx: self.idx, ratio }
            },
            _ => {
                proof {
                    assert(false);
                }
                Action::Finished { exit_code: 1 }
            },
        }
    }

    /// Records nothing itself; moves on to the next interface after the
    /// current one's outcome has been pushed.
    fn advance(&mut self, Ghost(ns): Ghost<PipelineState>) -> (a: Action)
        requires
            is_terminal(ns),
            old(self).idx < old(self).configs.len(),
            old(self).outcomes@.len() == old(self).idx + 1,
            old(self).outcomes@.last() == outcome_of(ns),
            state_wf(old(self).state),
        ensures
            final(self).wf(),
            final(self).configs == old(self).configs,
            final(self).outcomes == old(self).outcomes,
            final(self).idx == old(self).idx + 1,
            if final(self).idx < final(self).configs.len() {
                final(self).state is Measuring && a == (Action::RunMeasurement {
                    idx: (old(self).idx + 1) as usize,
                })
            } else {
                !final(self).active() && a == (Action::Finished {
                    exit_code: if all_success(final(self).outcomes@) {
                        0i32
                    } else {
                        1i32
                    },
                })
            },
    {
        self.idx = self.idx + 1;
        if self.idx < self.configs.len() {
            self.state = PipelineState::Measuring;
            Action::RunMeasurement { idx: self.idx }
        } else {
            self.state = PipelineState::Pending;
            let code = exit_code(&self.outcomes);
            Action::Finished { exit_code: code }
        }
    }
}

} // verus!
