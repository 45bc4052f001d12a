use cqlib_tianyan::device::{
    backends_from_records, check_configuration_access, select_backend, CircuitInput,
    DeviceStatus, DeviceToll, DeviceType, RawDevice, TianyanBackend,
};
use cqlib_tianyan::error::TianyanError;

fn record(code: &str, status: i64, is_toll: i64) -> RawDevice {
    RawDevice {
        code: code.to_string(),
        name: None,
        status,
        is_toll: Some(is_toll),
    }
}

#[test]
fn device_status_mapping() {
    assert_eq!(DeviceStatus::from_code(0), DeviceStatus::Running);
    assert_eq!(DeviceStatus::from_code(1), DeviceStatus::Calibration);
    assert_eq!(DeviceStatus::from_code(2), DeviceStatus::UnderMaintenance);
    assert_eq!(DeviceStatus::from_code(3), DeviceStatus::OffLine);
    assert_eq!(DeviceStatus::from_code(4), DeviceStatus::Upgrading);
    assert!(matches!(
        DeviceStatus::from_code(99),
        DeviceStatus::Unknown(99)
    ));
}

#[test]
fn device_toll_mapping() {
    assert_eq!(DeviceToll::from_code(1), DeviceToll::Free);
    assert_eq!(DeviceToll::from_code(2), DeviceToll::Paid);
    assert!(matches!(DeviceToll::from_code(0), DeviceToll::Unknown(0)));
}

#[test]
fn backend_records_exclude_non_tianyan_devices() {
    let raw = vec![
        record("supremacy_sample", 0, 1),
        record("tianyan_sw", 0, 1),
        record("tianyan-p2000", 0, 1),
        record("tianyan-ion12", 2, 1),
        record("tianyan504", 4, 2),
        record("tianyan-287", 1, 2),
        record("other-tianyan", 0, 1),
        record("TIANYAN_sw", 0, 1),
        record("", 0, 1),
    ];
    let backends = backends_from_records(raw);
    let classified: Vec<_> = backends
        .iter()
        .map(|backend| (backend.name.as_str(), backend.device_type))
        .collect();
    assert_eq!(
        classified,
        vec![
            ("tianyan_sw", DeviceType::Simulator),
            ("tianyan-p2000", DeviceType::Photonic),
            ("tianyan-ion12", DeviceType::IonTrap),
            ("tianyan504", DeviceType::Superconducting),
            ("tianyan-287", DeviceType::Superconducting),
        ]
    );
}

#[test]
fn circuit_input_from_str() {
    let input: CircuitInput = "H Q0\nM Q0".into();
    let qcis = input.into_qcis().unwrap();
    assert_eq!(qcis, "H Q0\nM Q0");
}

#[test]
fn circuit_input_from_string() {
    let input: CircuitInput = "H Q0".to_string().into();
    let qcis = input.into_qcis().unwrap();
    assert_eq!(qcis, "H Q0");
}

#[test]
fn device_status_all_known_codes() {
    // Exhaustively check that known codes 0-4 map correctly
    let codes_and_expected = [
        (0, DeviceStatus::Running),
        (1, DeviceStatus::Calibration),
        (2, DeviceStatus::UnderMaintenance),
        (3, DeviceStatus::OffLine),
        (4, DeviceStatus::Upgrading),
    ];
    for (code, expected) in codes_and_expected {
        assert_eq!(DeviceStatus::from_code(code), expected, "code={}", code);
    }
}

#[test]
fn device_status_negative_code() {
    let status = DeviceStatus::from_code(-1);
    assert!(matches!(status, DeviceStatus::Unknown(-1)));
}

#[test]
fn device_toll_negative_code() {
    let toll = DeviceToll::from_code(-1);
    assert!(matches!(toll, DeviceToll::Unknown(-1)));
}

#[test]
fn circuit_input_multiline_qcis() {
    let qcis = "H Q0\nCZ Q0 Q1\nM Q0\nM Q1";
    let input: CircuitInput = qcis.into();
    assert_eq!(input.into_qcis().unwrap(), qcis);
}

#[test]
fn circuit_input_empty_string() {
    let input: CircuitInput = "".into();
    assert_eq!(input.into_qcis().unwrap(), "");
}

#[test]
fn circuit_object_is_converted_to_qcis() {
    let mut circuit = cqlib_core::circuit::Circuit::new(1);
    let _ = circuit.h(cqlib_core::circuit::Qubit::from(0u32));
    let input: CircuitInput = circuit.into();
    let qcis = input.into_qcis().unwrap();
    assert!(qcis.contains("H Q0"), "{}", qcis);
}

fn bell() -> cqlib_core::circuit::Circuit {
    let mut circuit = cqlib_core::circuit::Circuit::new(2);
    let _ = circuit.h(cqlib_core::circuit::Qubit::from(0u32));
    let _ = circuit.cz(
        cqlib_core::circuit::Qubit::from(0u32),
        cqlib_core::circuit::Qubit::from(1u32),
    );
    circuit
}

#[test]
fn circuit_object_converts_to_its_qcis_dump() {
    let expected = cqlib_core::ir::qcis::dumps(&bell()).unwrap();
    let input: CircuitInput = bell().into();
    let qcis = input.into_qcis().unwrap();
    assert_eq!(qcis, expected);
    assert!(qcis.contains("H Q0") && qcis.contains("CZ Q0 Q1"), "{}", qcis);
}

#[test]
fn device_type_classification() {
    assert_eq!(DeviceType::from_code("tianyan_sw"), Some(DeviceType::Simulator));
    assert_eq!(DeviceType::from_code("tianyan-p2000"), Some(DeviceType::Photonic));
    assert_eq!(DeviceType::from_code("tianyan-ion12"), Some(DeviceType::IonTrap));
    assert_eq!(DeviceType::from_code("tianyan504"), Some(DeviceType::Superconducting));
    assert_eq!(DeviceType::from_code("tianyan"), Some(DeviceType::Superconducting));
    assert_eq!(DeviceType::from_code("tianya"), None);
    assert_eq!(DeviceType::from_code("Tianyan504"), None);
}

#[test]
fn status_and_toll_c_codes() {
    for code in -2..7 {
        let expected = if (0..=4).contains(&code) { code as i32 } else { -1 };
        assert_eq!(DeviceStatus::from_code(code).c_code(), expected);
    }
    assert_eq!(DeviceToll::from_code(1).c_code(), 1);
    assert_eq!(DeviceToll::from_code(2).c_code(), 2);
    assert_eq!(DeviceToll::from_code(0).c_code(), -1);
}

#[test]
fn record_fields_become_backend_fields() {
    let b = TianyanBackend::from_raw(RawDevice {
        code: "tianyan-287".to_string(),
        name: Some("Tianyan 287".to_string()),
        status: 0,
        is_toll: None,
    })
    .unwrap();
    assert_eq!(b.name, "tianyan-287");
    assert_eq!(b.display_name, "Tianyan 287");
    assert_eq!(b.status, DeviceStatus::Running);
    assert_eq!(b.toll, DeviceToll::Unknown(0));
    assert!(b.is_available());
    let c = TianyanBackend::from_raw(record("tianyan504", 1, 2)).unwrap();
    assert_eq!(c.display_name, "tianyan504");
    assert!(!c.is_available());
    assert!(TianyanBackend::from_raw(record("other", 0, 1)).is_none());
}

#[test]
fn select_backend_finds_by_exact_name() {
    let list = backends_from_records(vec![record("tianyan504", 0, 1), record("tianyan-287", 1, 2)]);
    let b = select_backend(list.clone(), "tianyan-287").unwrap();
    assert_eq!(b.name, "tianyan-287");
    match select_backend(list, "TIANYAN-287") {
        Err(TianyanError::DeviceNotFound(n)) => assert_eq!(n, "TIANYAN-287"),
        other => panic!("unexpected {:?}", other),
    }
}

#[test]
fn only_superconducting_backends_offer_configuration() {
    assert!(check_configuration_access("tianyan504").is_ok());
    for name in ["tianyan_sw", "tianyan-p2000", "tianyan-ion12", "supremacy_sample"] {
        match check_configuration_access(name) {
            Err(TianyanError::InvalidInput(m)) => assert!(m.contains(name)),
            other => panic!("unexpected {:?}", other),
        }
    }
}
