use cqlib_tianyan::device_config::{
    native_gates_for, pair_readout_fidelities, param_index, parse_calibration_time,
    parse_couplings, parse_disabled_qubits, parse_qubit, qubit_layout, Coupling, CouplerEntry,
    NativeGate,
};
use cqlib_tianyan::device_config::require_overview;
use cqlib_tianyan::error::TianyanError;

fn strings(v: &[&str]) -> Vec<String> {
    v.iter().map(|s| s.to_string()).collect()
}

#[test]
fn parse_qubit_names() {
    assert_eq!(parse_qubit("Q0"), Some(0));
    assert_eq!(parse_qubit("Q23"), Some(23));
    assert_eq!(parse_qubit("G0"), None);
    assert_eq!(parse_qubit(""), None);
    assert_eq!(parse_qubit("Qx"), None);
}

#[test]
fn qubit_names_follow_u32_parsing() {
    assert_eq!(parse_qubit("Q+4"), Some(4));
    assert_eq!(parse_qubit("Q007"), Some(7));
    assert_eq!(parse_qubit("Q4294967295"), Some(u32::MAX));
    assert_eq!(parse_qubit("Q4294967296"), None);
    assert_eq!(parse_qubit("Q-1"), None);
    assert_eq!(parse_qubit("Q"), None);
    assert_eq!(parse_qubit("q1"), None);
}

#[test]
fn disabled_qubit_list_is_split_and_trimmed() {
    assert_eq!(parse_disabled_qubits("Q2,Q10"), vec![2, 10]);
    assert_eq!(parse_disabled_qubits(" Q2 , \tQ3\n,G4,,Q5"), vec![2, 3, 5]);
    assert_eq!(parse_disabled_qubits(""), Vec::<u32>::new());
}

#[test]
fn coupler_map_entries_become_couplings() {
    let entries = vec![
        CouplerEntry { coupler: "G0".to_string(), qubits: strings(&["Q1", "Q0"]) },
        CouplerEntry { coupler: "G1".to_string(), qubits: strings(&["Q2"]) },
        CouplerEntry { coupler: "G2".to_string(), qubits: strings(&["Q3", "X"]) },
        CouplerEntry { coupler: "G3".to_string(), qubits: strings(&["Q3", "Q2"]) },
    ];
    let got: Vec<(u32, u32, String)> =
        parse_couplings(&entries).into_iter().map(|c| (c.control, c.target, c.coupler)).collect();
    assert_eq!(got, vec![(1, 0, "G0".to_string()), (3, 2, "G3".to_string())]);
}

#[test]
fn readout_fidelities_pair_by_qubit_name() {
    let names0 = strings(&["Q0", "Q1", "Q2", "Q3"]);
    let names1 = strings(&["Q3", "Q0", "Q1", "Q0"]);
    let pairs: Vec<(usize, usize)> = pair_readout_fidelities(&names0, 4, &names1, 4)
        .unwrap()
        .into_iter()
        .map(|p| (p.index0, p.index1))
        .collect();
    assert_eq!(pairs, vec![(0, 3), (1, 2), (3, 0)]);
    assert!(pair_readout_fidelities(&names0, 3, &names1, 4).is_none());
    assert!(pair_readout_fidelities(&names0, 4, &names1, 5).is_none());
}

#[test]
fn parse_calibration_time_valid() {
    let secs = parse_calibration_time("2025-08-07 15:16:22");
    assert!(secs.is_some());
    let dt = time::OffsetDateTime::from_unix_timestamp(secs.unwrap()).unwrap();
    assert_eq!(dt.year(), 2025);
    assert_eq!(dt.month() as u8, 8);
    assert_eq!(dt.day(), 7);
}

#[test]
fn parse_calibration_time_invalid() {
    assert!(parse_calibration_time("not-a-date").is_none());
    assert!(parse_calibration_time("").is_none());
}

#[test]
fn calibration_time_is_read_as_utc_seconds() {
    assert_eq!(parse_calibration_time("2025-08-07 15:16:22"), Some(1_754_579_782));
    assert_eq!(parse_calibration_time("1970-01-01 00:00:00"), Some(0));
    assert_eq!(parse_calibration_time("2025-02-30 00:00:00"), None);
    assert_eq!(parse_calibration_time("2025-08-07T15:16:22"), None);
}

#[test]
fn native_gates_follow_the_machine() {
    let base = vec![
        NativeGate::RZ,
        NativeGate::X2P,
        NativeGate::X2M,
        NativeGate::Y2P,
        NativeGate::Y2M,
        NativeGate::XY2P,
        NativeGate::XY2M,
        NativeGate::CZ,
    ];
    assert_eq!(native_gates_for("tianyan176"), base);
    let mut with_fsim = base.clone();
    with_fsim.push(NativeGate::FSIM);
    assert_eq!(native_gates_for("tianyan504"), with_fsim);
    assert!(native_gates_for("test").is_empty());
    assert!(native_gates_for("tianyan_sw").is_empty());
}

#[test]
fn disabled_qubits_leave_the_topology() {
    let coupling = |c: u32, t: u32, name: &str| Coupling {
        control: c,
        target: t,
        coupler: name.to_string(),
    };
    let layout = qubit_layout(
        &vec![0, 1, 2, 3],
        &vec![2, 7],
        vec![coupling(1, 0, "G0"), coupling(2, 1, "G1"), coupling(3, 2, "G2")],
    );
    assert_eq!(layout.online, vec![0, 1, 3]);
    assert_eq!(layout.invalid, vec![2]);
    let kept: Vec<(u32, u32, String)> =
        layout.couplings.into_iter().map(|c| (c.control, c.target, c.coupler)).collect();
    assert_eq!(kept, vec![(1, 0, "G0".to_string())]);
}

#[test]
fn calibration_values_are_found_by_name() {
    let names = strings(&["Q0", "Q1", "Q0", "Q2"]);
    assert_eq!(param_index(&names, 4, "Q0"), Some(2));
    assert_eq!(param_index(&names, 4, "Q1"), Some(1));
    assert_eq!(param_index(&names, 2, "Q0"), Some(0));
    assert_eq!(param_index(&names, 2, "Q2"), None);
    assert_eq!(param_index(&names, 9, "Q3"), None);
}

#[test]
fn configuration_without_overview_is_refused() {
    assert_eq!(require_overview(Some(7)).ok(), Some(7));
    match require_overview::<u8>(None) {
        Err(TianyanError::InvalidInput(m)) => assert_eq!(m, "config JSON missing 'overview' section"),
        other => panic!("unexpected {:?}", other),
    }
}
