use cqlib_tianyan::task::{
    calibrate_circuit, check_submission_input, check_submission_target, fetch_plan,
    merge_batch_ids, poll_step, split_batches, submit_fields, use_downloaded_calibration,
    CalibrationMode, FetchPlan, PollStep, AUTO_CALIBRATION_MAX_QUBITS, MAX_BATCH_SIZE,
};
use cqlib_tianyan::error::TianyanError;

#[test]
fn max_batch_size_is_fifty() {
    assert_eq!(MAX_BATCH_SIZE, 50);
}

#[test]
fn one_hundred_twenty_circuits_make_batches_of_50_50_20() {
    let circuits: Vec<String> = (0..120).map(|i| format!("H Q{}", i)).collect();
    let batches = split_batches(circuits.clone());
    let sizes: Vec<usize> = batches.iter().map(|b| b.len()).collect();
    assert_eq!(sizes, vec![50, 50, 20]);
    let flat: Vec<String> = batches.into_iter().flatten().collect();
    assert_eq!(flat, circuits);
}

#[test]
fn batch_edges() {
    assert!(split_batches(Vec::<u8>::new()).is_empty());
    assert_eq!(split_batches(vec![1u8; 50]).len(), 1);
    let b = split_batches(vec![1u8; 51]);
    assert_eq!(b.len(), 2);
    assert_eq!(b[1].len(), 1);
}

#[test]
fn merged_ids_keep_batch_order() {
    let mut all: Vec<String> = Vec::new();
    merge_batch_ids(&mut all, vec!["a".to_string(), "b".to_string()]);
    merge_batch_ids(&mut all, vec!["c".to_string()]);
    assert_eq!(all, vec!["a", "b", "c"]);
}

#[test]
fn submission_input_is_checked() {
    match check_submission_input(0, 10) {
        Err(TianyanError::InvalidInput(m)) => assert_eq!(m, "circuit list must not be empty"),
        other => panic!("unexpected {:?}", other),
    }
    match check_submission_input(3, 0) {
        Err(TianyanError::InvalidInput(m)) => assert_eq!(m, "shots must be greater than zero"),
        other => panic!("unexpected {:?}", other),
    }
    assert!(check_submission_input(1, 1).is_ok());
}

#[test]
fn submission_request_fields() {
    let f = submit_fields(1000, "tianyan-287");
    assert_eq!(f.language, "qcis");
    assert_eq!(f.name, "");
    assert_eq!(f.shots, 1000);
    assert_eq!(f.computer_code, "tianyan-287");
    assert!(f.is_verify);
}

#[test]
fn unsupported_submissions_are_refused_in_all_modes() {
    let modes = [CalibrationMode::Auto, CalibrationMode::Enabled, CalibrationMode::Disabled];
    for name in ["tianyan-p2000", "tianyan-ion12", "supremacy_sample"] {
        for mode in modes {
            match check_submission_target(name, mode) {
                Err(TianyanError::InvalidInput(m)) => assert!(m.contains(name)),
                other => panic!("unexpected {:?}", other),
            }
        }
    }
    for mode in modes {
        assert!(check_submission_target("tianyan504", mode).is_ok());
    }
    assert!(check_submission_target("tianyan_sw", CalibrationMode::Auto).is_ok());
    assert!(check_submission_target("tianyan_sw", CalibrationMode::Disabled).is_ok());
    match check_submission_target("tianyan_sw", CalibrationMode::Enabled) {
        Err(e) => assert!(e.message().contains("tianyan_sw")),
        Ok(()) => panic!("simulator accepted Enabled"),
    }
}

#[test]
fn fetch_plans_follow_mode_and_device_type() {
    assert_eq!(fetch_plan("tianyan504", CalibrationMode::Auto).unwrap(), FetchPlan::Calibrated);
    assert_eq!(fetch_plan("tianyan504", CalibrationMode::Enabled).unwrap(), FetchPlan::Calibrated);
    assert_eq!(fetch_plan("tianyan504", CalibrationMode::Disabled).unwrap(), FetchPlan::Raw);
    for name in ["tianyan_sw", "tianyan-p2000", "tianyan-ion12"] {
        assert_eq!(fetch_plan(name, CalibrationMode::Auto).unwrap(), FetchPlan::Raw);
        assert_eq!(fetch_plan(name, CalibrationMode::Disabled).unwrap(), FetchPlan::Raw);
        assert!(matches!(
            fetch_plan(name, CalibrationMode::Enabled),
            Err(TianyanError::InvalidInput(_))
        ));
    }
}

#[test]
fn missing_calibration_falls_back_only_in_auto_mode() {
    for through_wait in [true, false] {
        for mode in [CalibrationMode::Auto, CalibrationMode::Enabled] {
            assert!(matches!(use_downloaded_calibration(mode, true, through_wait), Ok(true)));
        }
    }
    assert!(matches!(use_downloaded_calibration(CalibrationMode::Auto, false, true), Ok(false)));
    for (mode, through_wait) in [
        (CalibrationMode::Enabled, true),
        (CalibrationMode::Enabled, false),
        (CalibrationMode::Auto, false),
    ] {
        match use_downloaded_calibration(mode, false, through_wait) {
            Err(TianyanError::InvalidInput(m)) => {
                assert_eq!(m, "readout calibration data not available for this backend")
            }
            other => panic!("unexpected {:?}", other),
        }
    }
}

#[test]
fn auto_mode_calibrates_up_to_fourteen_qubits() {
    assert_eq!(AUTO_CALIBRATION_MAX_QUBITS, 14);
    assert!(calibrate_circuit(CalibrationMode::Auto, 14));
    assert!(!calibrate_circuit(CalibrationMode::Auto, 15));
    assert!(calibrate_circuit(CalibrationMode::Enabled, 40));
    assert!(!calibrate_circuit(CalibrationMode::Disabled, 1));
}

#[test]
fn calibration_mode_codes_and_names() {
    assert_eq!(CalibrationMode::default(), CalibrationMode::Auto);
    for mode in [CalibrationMode::Auto, CalibrationMode::Enabled, CalibrationMode::Disabled] {
        assert_eq!(CalibrationMode::from_code(mode.code()).unwrap(), mode);
        assert_eq!(CalibrationMode::from_name(mode.name()).unwrap(), mode);
    }
    assert_eq!(
        CalibrationMode::from_code(7).unwrap_err(),
        "Unknown CalibrationMode code 7; expected 0=Auto, 1=Enabled, 2=Disabled"
    );
    assert_eq!(
        CalibrationMode::from_name("Auto").unwrap_err(),
        "Unknown CalibrationMode 'Auto'; expected 'auto', 'enabled', or 'disabled'"
    );
}

#[test]
fn polling_never_oversleeps_the_deadline() {
    assert_eq!(poll_step(2, 2, 0, 10, 3), PollStep::Done);
    assert_eq!(poll_step(2, 1, 10, 10, 3), PollStep::TimedOut);
    assert_eq!(poll_step(2, 1, 0, 10, 3), PollStep::Sleep(3));
    assert_eq!(poll_step(2, 1, 8, 10, 3), PollStep::Sleep(2));
    assert_eq!(poll_step(1, 0, 0, 0, 0), PollStep::TimedOut);
}
