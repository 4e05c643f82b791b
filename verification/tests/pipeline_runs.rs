use bandwidth_ratio::errors::{PipelineError, Stage};
use bandwidth_ratio::pipeline::{exit_code, Action, InterfaceConfig, Orchestrator, Outcome,
    PipelineEvent};
use bandwidth_ratio::ratio::Ratio;

fn two_interfaces() -> Vec<InterfaceConfig> {
    vec![
        InterfaceConfig { measurement_name: b"eth0".to_vec(), publish_name: b"wan0".to_vec() },
        InterfaceConfig { measurement_name: b"eth1".to_vec(), publish_name: b"wan1".to_vec() },
    ]
}

fn good_measurement() -> PipelineEvent {
    PipelineEvent::MeasurementDone {
        exit_ok: true,
        exit_code: Some(0),
        stdout: b"Download: 100.0 Mbps\n".to_vec(),
        stderr: Vec::new(),
    }
}

fn good_query() -> PipelineEvent {
    PipelineEvent::QueryDone {
        status: b"success".to_vec(),
        values: vec![b"50000000".to_vec()],
    }
}

#[test]
fn empty_configuration_finishes_at_once() {
    let mut orch = Orchestrator::new(Vec::new());
    assert_eq!(orch.start(), Action::Finished { exit_code: 0 });
}

#[test]
fn full_run_publishes_ratio_two() {
    let configs = vec![InterfaceConfig {
        measurement_name: b"eth0".to_vec(),
        publish_name: b"wan0".to_vec(),
    }];
    let mut orch = Orchestrator::new(configs);
    assert_eq!(orch.start(), Action::RunMeasurement { idx: 0 });
    assert_eq!(orch.step(good_measurement()), Action::RunQuery { idx: 0 });
    let action = orch.step(good_query());
    // measured 100.0 Mbps, observed 50_000_000 bps: the ratio is exactly 2
    let expected = Ratio { num: 1_000_000_000, den: 500_000_000 };
    assert_eq!(action, Action::RunPublish { idx: 0, ratio: expected });
    assert_eq!(expected.num as f64 / expected.den as f64, 2.0);
    let action = orch.step(PipelineEvent::PublishDone { http_status: 200 });
    assert_eq!(action, Action::Finished { exit_code: 0 });
    assert_eq!(orch.outcomes, vec![Outcome::Success { ratio: expected }]);
}

#[test]
fn process_failure_continues_with_next_interface() {
    let mut orch = Orchestrator::new(two_interfaces());
    assert_eq!(orch.start(), Action::RunMeasurement { idx: 0 });
    let failed = PipelineEvent::MeasurementDone {
        exit_ok: false,
        exit_code: Some(1),
        stdout: Vec::new(),
        stderr: b"interface down".to_vec(),
    };
    // the first interface fails at measurement; the second is still attempted
    assert_eq!(orch.step(failed), Action::RunMeasurement { idx: 1 });
    assert_eq!(orch.step(good_measurement()), Action::RunQuery { idx: 1 });
    assert_eq!(
        orch.step(good_query()),
        Action::RunPublish { idx: 1, ratio: Ratio { num: 1_000_000_000, den: 500_000_000 } }
    );
    let action = orch.step(PipelineEvent::PublishDone { http_status: 200 });
    // one interface failed: the run's exit code is non-zero
    assert_eq!(action, Action::Finished { exit_code: 1 });
    assert_eq!(
        orch.outcomes[0],
        Outcome::Failure {
            stage: Stage::Measurement,
            error: PipelineError::ProcessError {
                exit_code: Some(1),
                stdout: Vec::new(),
                stderr: b"interface down".to_vec(),
            },
        }
    );
    assert!(matches!(orch.outcomes[1], Outcome::Success { .. }));
}

#[test]
fn publish_rejection_carries_status_and_is_not_retried() {
    let configs = vec![InterfaceConfig {
        measurement_name: b"eth0".to_vec(),
        publish_name: b"wan0".to_vec(),
    }];
    let mut orch = Orchestrator::new(configs);
    orch.start();
    orch.step(good_measurement());
    orch.step(good_query());
    let action = orch.step(PipelineEvent::PublishDone { http_status: 500 });
    // the run ends at once: no further publish action is issued
    assert_eq!(action, Action::Finished { exit_code: 1 });
    assert_eq!(
        orch.outcomes,
        vec![Outcome::Failure {
            stage: Stage::Publish,
            error: PipelineError::PublishError { status: 500 },
        }]
    );
}

#[test]
fn query_error_statuses_reach_the_outcome() {
    let mut orch = Orchestrator::new(two_interfaces());
    orch.start();
    orch.step(good_measurement());
    let bad_status = PipelineEvent::QueryDone {
        status: b"error".to_vec(),
        values: vec![b"1".to_vec()],
    };
    assert_eq!(orch.step(bad_status), Action::RunMeasurement { idx: 1 });
    orch.step(good_measurement());
    let no_rows = PipelineEvent::QueryDone { status: b"success".to_vec(), values: Vec::new() };
    let action = orch.step(no_rows);
    assert_eq!(action, Action::Finished { exit_code: 1 });
    assert_eq!(
        orch.outcomes,
        vec![
            Outcome::Failure { stage: Stage::Query, error: PipelineError::QueryStatusError },
            Outcome::Failure { stage: Stage::Query, error: PipelineError::NoDataError },
        ]
    );
}

#[test]
fn negative_observation_fails_at_calculation() {
    let configs = vec![InterfaceConfig {
        measurement_name: b"eth0".to_vec(),
        publish_name: b"wan0".to_vec(),
    }];
    let mut orch = Orchestrator::new(configs);
    orch.start();
    orch.step(good_measurement());
    let negative = PipelineEvent::QueryDone {
        status: b"success".to_vec(),
        values: vec![b"-50000000".to_vec()],
    };
    let action = orch.step(negative);
    assert_eq!(action, Action::Finished { exit_code: 1 });
    assert_eq!(
        orch.outcomes,
        vec![Outcome::Failure {
            stage: Stage::Calculation,
            error: PipelineError::DivisionError,
        }]
    );
}

#[test]
fn transport_failures_become_network_errors() {
    let mut orch = Orchestrator::new(two_interfaces());
    orch.start();
    assert_eq!(
        orch.step(PipelineEvent::MeasurementUnavailable),
        Action::RunMeasurement { idx: 1 }
    );
    orch.step(good_measurement());
    let action = orch.step(PipelineEvent::QueryUnreachable);
    assert_eq!(action, Action::Finished { exit_code: 1 });
    assert_eq!(
        orch.outcomes[0],
        Outcome::Failure {
            stage: Stage::Measurement,
            error: PipelineError::ProcessError {
                exit_code: None,
                stdout: Vec::new(),
                stderr: Vec::new(),
            },
        }
    );
    assert_eq!(
        orch.outcomes[1],
        Outcome::Failure { stage: Stage::Query, error: PipelineError::NetworkError }
    );
}

#[test]
fn exit_code_is_zero_only_on_full_success() {
    assert_eq!(exit_code(&Vec::new()), 0);
    let ok = Outcome::Success { ratio: Ratio { num: 1, den: 1 } };
    let bad = Outcome::Failure { stage: Stage::Query, error: PipelineError::NoDataError };
    assert_eq!(exit_code(&vec![ok.clone(), ok.clone()]), 0);
    assert_eq!(exit_code(&vec![ok.clone(), bad.clone(), ok.clone()]), 1);
}

#[test]
fn stage_and_error_names_for_reports() {
    assert_eq!(Stage::Measurement.describe(), "measurement");
    assert_eq!(Stage::Publish.describe(), "publish");
    assert_eq!(PipelineError::NoDataError.describe(), "no data");
    assert_eq!(
        PipelineError::PublishError { status: 500 }.describe(),
        "publish rejected"
    );
}
