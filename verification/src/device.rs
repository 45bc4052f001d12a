//! Quantum backends of the Tianyan platform: their status, pricing and
//! technology, the device-list records they come from, which of them offer
//! configuration data, and the circuits they are given.

use crate::error::TianyanError;
use crate::text::{concat, has_prefix, starts_with, text_eq};
use vstd::prelude::*;

verus! {

/// A circuit as `cqlib-core` builds it.
#[verifier::external_type_specification]
#[verifier::external_body]
pub struct ExCircuit(cqlib_core::circuit::Circuit);

/// The QCIS text `cqlib_core::ir::qcis::dumps` writes for `circuit`, or the
/// text of the error it ends in.  It depends on the circuit alone.
pub uninterp spec fn qcis_dump_of(circuit: cqlib_core::circuit::Circuit) -> Result<
    Seq<char>,
    Seq<char>,
>;

/// `cqlib_core::ir::qcis::dumps`: the QCIS text of a circuit, or the text of
/// the error it ends in (`to_string` of the error).
///
/// Claimed: the result is a function of the circuit (`qcis_dump_of`); what
/// that text is, is not restated here.
#[verifier::external_body]
fn qcis_text(circuit: &cqlib_core::circuit::Circuit) -> (r: Result<String, String>)
    ensures
        qcis_dump_of(*circuit) == match r {
            Ok(s) => Ok::<Seq<char>, Seq<char>>(s@),
            Err(m) => Err::<Seq<char>, Seq<char>>(m@),
        },
{
    cqlib_core::ir::qcis::dumps(circuit).map_err(|e| e.to_string())
}

/// A single circuit ready for submission, either as a QCIS string or a
/// `cqlib-core` circuit object.
pub enum CircuitInput {
    /// A pre-serialised QCIS string.
    Qcis(String),
    /// A circuit object; converted to QCIS just before submission.
    Circuit(Box<cqlib_core::circuit::Circuit>),
}

impl CircuitInput {
    /// Convert into a QCIS string.  A QCIS string is handed back as it is; a
    /// circuit object is converted, and a conversion failure becomes
    /// [`TianyanError::CircuitConversion`].
    pub fn into_qcis(self) -> (r: Result<String, TianyanError>)
        ensures
            self matches CircuitInput::Qcis(s) ==> r == Ok::<String, TianyanError>(s),
            self matches CircuitInput::Circuit(c) ==> match r {
                Ok(s) => qcis_dump_of(*c) == Ok::<Seq<char>, Seq<char>>(s@),
                Err(e) => e matches TianyanError::CircuitConversion(m) && qcis_dump_of(*c) == Err::<
                    Seq<char>,
                    Seq<char>,
                >(m@),
            },
    {
        match self {
            CircuitInput::Qcis(s) => Ok(s),
            CircuitInput::Circuit(c) => match qcis_text(&c) {
                Ok(s) => Ok(s),
                Err(m) => Err(TianyanError::CircuitConversion(m)),
            },
        }
    }
}

impl From<String> for CircuitInput {
    fn from(s: String) -> (c: Self) {
        CircuitInput::Qcis(s)
    }
}

impl vstd::std_specs::convert::FromSpecImpl<String> for CircuitInput {
    open spec fn obeys_from_spec() -> bool {
        true
    }

    open spec fn from_spec(s: String) -> Self {
        CircuitInput::Qcis(s)
    }
}

impl From<&str> for CircuitInput {
    fn from(s: &str) -> (c: Self)
        ensures
            c matches CircuitInput::Qcis(t) && t@ == s@,
    {
        CircuitInput::Qcis(String::from_str(s))
    }
}

impl vstd::std_specs::convert::FromSpecImpl<&str> for CircuitInput {
    open spec fn obeys_from_spec() -> bool {
        false
    }

    open spec fn from_spec(s: &str) -> Self {
        CircuitInput::Qcis(choose|t: String| t@ == s@)
    }
}

impl From<cqlib_core::circuit::Circuit> for CircuitInput {
    fn from(c: cqlib_core::circuit::Circuit) -> (r: Self) {
        CircuitInput::Circuit(Box::new(c))
    }
}

impl vstd::std_specs::convert::FromSpecImpl<cqlib_core::circuit::Circuit> for CircuitInput {
    open spec fn obeys_from_spec() -> bool {
        true
    }

    open spec fn from_spec(c: cqlib_core::circuit::Circuit) -> Self {
        CircuitInput::Circuit(Box::new(c))
    }
}

// ── Status, pricing and technology ───────────────────────────────────────────

/// Operational status of a quantum device.
#[derive(Debug, Clone, Copy, PartialEq, Eq, Structural)]
pub enum DeviceStatus {
    /// Device is online and accepting jobs.
    Running,
    /// Device is undergoing calibration; submissions may queue.
    Calibration,
    /// Device is temporarily unavailable for maintenance.
    UnderMaintenance,
    /// Device is offline.
    OffLine,
    /// Device is undergoing an upgrade.
    Upgrading,
    /// An unknown status code was returned by the API.
    Unknown(i64),
}

/// The status that a device-list status code stands for.
pub open spec fn status_of_code(code: i64) -> DeviceStatus {
    if code == 0 {
        DeviceStatus::Running
    } else if code == 1 {
        DeviceStatus::Calibration
    } else if code == 2 {
        DeviceStatus::UnderMaintenance
    } else if code == 3 {
        DeviceStatus::OffLine
    } else if code == 4 {
        DeviceStatus::Upgrading
    } else {
        DeviceStatus::Unknown(code)
    }
}

/// The C interface's integer for a status (`-1` for an unknown one).
pub open spec fn status_c_code(s: DeviceStatus) -> i32 {
    match s {
        DeviceStatus::Running => 0,
        DeviceStatus::Calibration => 1,
        DeviceStatus::UnderMaintenance => 2,
        DeviceStatus::OffLine => 3,
        DeviceStatus::Upgrading => 4,
        DeviceStatus::Unknown(_) => -1i32,
    }
}

impl DeviceStatus {
    /// Map a device-list status code to a [`DeviceStatus`].
    pub fn from_code(code: i64) -> (s: Self)
        ensures
            s == status_of_code(code),
    {
        match code {
            0 => DeviceStatus::Running,
            1 => DeviceStatus::Calibration,
            2 => DeviceStatus::UnderMaintenance,
            3 => DeviceStatus::OffLine,
            4 => DeviceStatus::Upgrading,
            other => DeviceStatus::Unknown(other),
        }
    }

    /// The C interface's integer for this status.
    pub fn c_code(&self) -> (c: i32)
        ensures
            c == status_c_code(*self),
    {
        match self {
            DeviceStatus::Running => 0,
            DeviceStatus::Calibration => 1,
            DeviceStatus::UnderMaintenance => 2,
            DeviceStatus::OffLine => 3,
            DeviceStatus::Upgrading => 4,
            DeviceStatus::Unknown(_) => -1,
        }
    }
}

/// A known status code survives the trip to a [`DeviceStatus`] and on to
/// the C interface's integer; every other code comes out as `-1`.
pub proof fn status_code_round_trip(code: i64)
    ensures
        0 <= code <= 4 ==> status_c_code(status_of_code(code)) == code,
        !(0 <= code <= 4) ==> status_c_code(status_of_code(code)) == -1,
        !(0 <= code <= 4) ==> status_of_code(code) == DeviceStatus::Unknown(code),
{
}

/// Pricing model of a quantum device.
#[derive(Debug, Clone, Copy, PartialEq, Eq, Structural)]
pub enum DeviceToll {
    Free,
    Paid,
    Unknown(i64),
}

/// The pricing that a device-list `isToll` code stands for.
pub open spec fn toll_of_code(code: i64) -> DeviceToll {
    if code == 1 {
        DeviceToll::Free
    } else if code == 2 {
        DeviceToll::Paid
    } else {
        DeviceToll::Unknown(code)
    }
}

/// The C interface's integer for a pricing model (`-1` for an unknown one).
pub open spec fn toll_c_code(t: DeviceToll) -> i32 {
    match t {
        DeviceToll::Free => 1,
        DeviceToll::Paid => 2,
        DeviceToll::Unknown(_) => -1i32,
    }
}

impl DeviceToll {
    /// Map a device-list `isToll` code to a [`DeviceToll`].
    pub fn from_code(code: i64) -> (t: Self)
        ensures
            t == toll_of_code(code),
    {
        match code {
            1 => DeviceToll::Free,
            2 => DeviceToll::Paid,
            other => DeviceToll::Unknown(other),
        }
    }

    /// The C interface's integer for this pricing model.
    pub fn c_code(&self) -> (c: i32)
        ensures
            c == toll_c_code(*self),
    {
        match self {
            DeviceToll::Free => 1,
            DeviceToll::Paid => 2,
            DeviceToll::Unknown(_) => -1,
        }
    }
}

/// The device list numbers statuses `0` running, `1` calibration, `2`
/// maintenance, `3` offline and `4` upgrading, and pricing `1` free and `2`
/// paid; the C interface gives the same numbers back and `-1` for any
/// other code.
pub proof fn status_and_toll_codes_are_documented(code: i64)
    ensures
        status_of_code(0) == DeviceStatus::Running,
        status_of_code(1) == DeviceStatus::Calibration,
        status_of_code(2) == DeviceStatus::UnderMaintenance,
        status_of_code(3) == DeviceStatus::OffLine,
        status_of_code(4) == DeviceStatus::Upgrading,
        !(0 <= code <= 4) ==> status_of_code(code) == DeviceStatus::Unknown(code),
        status_c_code(DeviceStatus::Running) == 0,
        status_c_code(DeviceStatus::Calibration) == 1,
        status_c_code(DeviceStatus::UnderMaintenance) == 2,
        status_c_code(DeviceStatus::OffLine) == 3,
        status_c_code(DeviceStatus::Upgrading) == 4,
        status_c_code(DeviceStatus::Unknown(code)) == -1,
        toll_of_code(1) == DeviceToll::Free,
        toll_of_code(2) == DeviceToll::Paid,
        !(1 <= code <= 2) ==> toll_of_code(code) == DeviceToll::Unknown(code),
        toll_c_code(DeviceToll::Free) == 1,
        toll_c_code(DeviceToll::Paid) == 2,
        toll_c_code(DeviceToll::Unknown(code)) == -1,
{
}

/// A known `isToll` code survives the trip to a [`DeviceToll`] and on to the
/// C interface's integer; every other code comes out as `-1`.
pub proof fn toll_code_round_trip(code: i64)
    ensures
        1 <= code <= 2 ==> toll_c_code(toll_of_code(code)) == code,
        !(1 <= code <= 2) ==> toll_c_code(toll_of_code(code)) == -1,
        !(1 <= code <= 2) ==> toll_of_code(code) == DeviceToll::Unknown(code),
{
}

/// Backend technology, classified from the case-sensitive machine code.
///
/// Codes starting with `tianyan_` are simulators, `tianyan-p` photonic and
/// `tianyan-ion` ion traps; other codes starting with `tianyan` are
/// superconducting.  Codes without the `tianyan` prefix are not Tianyan
/// backends.
#[derive(Debug, Clone, Copy, PartialEq, Eq, Structural)]
pub enum DeviceType {
    Superconducting,
    Photonic,
    IonTrap,
    Simulator,
}

/// The technology a machine code stands for, if it is a Tianyan backend.
pub open spec fn device_type_of(code: Seq<char>) -> Option<DeviceType> {
    if !has_prefix(code, "tianyan"@) {
        None
    } else if has_prefix(code, "tianyan_"@) {
        Some(DeviceType::Simulator)
    } else if has_prefix(code, "tianyan-p"@) {
        Some(DeviceType::Photonic)
    } else if has_prefix(code, "tianyan-ion"@) {
        Some(DeviceType::IonTrap)
    } else {
        Some(DeviceType::Superconducting)
    }
}

impl DeviceType {
    /// Classify a machine code; `None` for codes that do not start with `tianyan`.
    pub fn from_code(code: &str) -> (t: Option<Self>)
        ensures
            t == device_type_of(code@),
            has_prefix(code@, "tianyan_"@) ==> t == Some(DeviceType::Simulator),
            has_prefix(code@, "tianyan-p"@) ==> t == Some(DeviceType::Photonic),
            has_prefix(code@, "tianyan-ion"@) ==> t == Some(DeviceType::IonTrap),
            !has_prefix(code@, "tianyan"@) ==> t is None,
    {
        proof {
            device_types_follow_code_prefixes(code@);
        }
        if !starts_with(code, "tianyan") {
            return None;
        }
        Some(
            if starts_with(code, "tianyan_") {
                DeviceType::Simulator
            } else if starts_with(code, "tianyan-p") {
                DeviceType::Photonic
            } else if starts_with(code, "tianyan-ion") {
                DeviceType::IonTrap
            } else {
                DeviceType::Superconducting
            },
        )
    }
}

proof fn lemma_longer_prefix(code: Seq<char>, short: Seq<char>, long: Seq<char>)
    requires
        has_prefix(code, long),
        short.len() <= long.len(),
        long.take(short.len() as int) == short,
    ensures
        has_prefix(code, short),
{
    assert(code.take(short.len() as int) =~= code.take(long.len() as int).take(short.len() as int));
}

/// Machine codes are classified by their prefix: `tianyan_` is a
/// simulator, `tianyan-p` photonic, `tianyan-ion` an ion trap, any other
/// `tianyan` code superconducting, and a code without `tianyan` is no
/// Tianyan backend.
pub proof fn device_types_follow_code_prefixes(code: Seq<char>)
    ensures
        has_prefix(code, "tianyan_"@) ==> device_type_of(code) == Some(DeviceType::Simulator),
        has_prefix(code, "tianyan-p"@) ==> device_type_of(code) == Some(DeviceType::Photonic),
        has_prefix(code, "tianyan-ion"@) ==> device_type_of(code) == Some(DeviceType::IonTrap),
        !has_prefix(code, "tianyan"@) ==> device_type_of(code) is None,
        has_prefix(code, "tianyan"@) && !has_prefix(code, "tianyan_"@) && !has_prefix(
            code,
            "tianyan-"@,
        ) ==> device_type_of(code) == Some(DeviceType::Superconducting),
{
    reveal_strlit("tianyan");
    reveal_strlit("tianyan_");
    reveal_strlit("tianyan-");
    reveal_strlit("tianyan-p");
    reveal_strlit("tianyan-ion");
    let t = "tianyan"@;
    assert("tianyan_"@.take(7) =~= t);
    assert("tianyan-p"@.take(7) =~= t);
    assert("tianyan-ion"@.take(7) =~= t);
    assert("tianyan-p"@.take(8) =~= "tianyan-"@);
    assert("tianyan-ion"@.take(8) =~= "tianyan-"@);
    if has_prefix(code, "tianyan_"@) {
        lemma_longer_prefix(code, t, "tianyan_"@);
    }
    if has_prefix(code, "tianyan-p"@) {
        lemma_longer_prefix(code, t, "tianyan-p"@);
        if has_prefix(code, "tianyan_"@) {
            assert(code.take(8)[7] == code[7] && code.take(9)[7] == code[7]);
            assert("tianyan_"@[7] == '_' && "tianyan-p"@[7] == '-');
        }
    }
    if has_prefix(code, "tianyan-ion"@) {
        lemma_longer_prefix(code, t, "tianyan-ion"@);
        if has_prefix(code, "tianyan_"@) {
            assert(code.take(8)[7] == code[7] && code.take(11)[7] == code[7]);
            assert("tianyan_"@[7] == '_' && "tianyan-ion"@[7] == '-');
        }
        if has_prefix(code, "tianyan-p"@) {
            assert(code.take(9)[8] == code[8] && code.take(11)[8] == code[8]);
            assert("tianyan-p"@[8] == 'p' && "tianyan-ion"@[8] == 'i');
        }
    }
    if has_prefix(code, "tianyan-p"@) {
        lemma_longer_prefix(code, "tianyan-"@, "tianyan-p"@);
    }
    if has_prefix(code, "tianyan-ion"@) {
        lemma_longer_prefix(code, "tianyan-"@, "tianyan-ion"@);
    }
}

/// Every code classified as a Tianyan backend starts with `tianyan`.
pub proof fn classified_codes_are_tianyan(code: Seq<char>)
    ensures
        device_type_of(code) is Some ==> has_prefix(code, "tianyan"@),
{
}

// ── Device-list records and backends ─────────────────────────────────────────

/// One record of the platform's device list.
#[derive(Debug, Clone)]
pub struct RawDevice {
    /// Unique machine identifier used as `computerCode` in submission requests.
    pub code: String,
    /// Human-readable display name.
    pub name: Option<String>,
    /// Operational status code.
    pub status: i64,
    /// Pricing tier code.
    pub is_toll: Option<i64>,
}

/// A quantum computing backend available on the Tianyan cloud platform.
#[derive(Debug, Clone)]
pub struct TianyanBackend {
    /// The machine code used as `computerCode` when submitting jobs.
    pub name: String,
    /// User-friendly display name.
    pub display_name: String,
    /// Backend technology, classified from the machine code.
    pub device_type: DeviceType,
    /// Current operational status.
    pub status: DeviceStatus,
    /// Pricing model.
    pub toll: DeviceToll,
}

/// `b` is the backend that the device-list record `r` describes.
pub open spec fn backend_of_record(r: RawDevice, b: TianyanBackend) -> bool {
    &&& device_type_of(r.code@) == Some(b.device_type)
    &&& b.name@ == r.code@
    &&& b.display_name@ == (match r.name {
        Some(n) => n@,
        None => r.code@,
    })
    &&& b.status == status_of_code(r.status)
    &&& b.toll == toll_of_code(
        match r.is_toll {
            Some(t) => t,
            None => 0,
        },
    )
}

/// A record describes a Tianyan backend.
pub open spec fn is_tianyan_record(r: RawDevice) -> bool {
    device_type_of(r.code@) is Some
}

impl TianyanBackend {
    /// Build a backend from a device-list record; `None` for non-Tianyan codes.
    pub fn from_raw(raw: RawDevice) -> (b: Option<Self>)
        ensures
            b is None <==> !is_tianyan_record(raw),
            b matches Some(b) ==> backend_of_record(raw, b),
    {
        let device_type = match DeviceType::from_code(raw.code.as_str()) {
            Some(t) => t,
            None => return None,
        };
        let display_name = match &raw.name {
            Some(n) => n.clone(),
            None => raw.code.clone(),
        };
        let toll_code = match raw.is_toll {
            Some(t) => t,
            None => 0,
        };
        Some(
            TianyanBackend {
                display_name,
                device_type,
                name: raw.code,
                status: DeviceStatus::from_code(raw.status),
                toll: DeviceToll::from_code(toll_code),
            },
        )
    }

    /// Returns `true` when the device is [`DeviceStatus::Running`].
    pub fn is_available(&self) -> (r: bool)
        ensures
            r == (self.status == DeviceStatus::Running),
    {
        self.status == DeviceStatus::Running
    }
}

/// The Tianyan records of a device list, in list order.
pub open spec fn tianyan_records(s: Seq<RawDevice>) -> Seq<RawDevice>
    decreases s.len(),
{
    if s.len() == 0 {
        Seq::empty()
    } else if is_tianyan_record(s.last()) {
        tianyan_records(s.drop_last()).push(s.last())
    } else {
        tianyan_records(s.drop_last())
    }
}

/// The backends of a device list: one per Tianyan record, in list order.
pub open spec fn backends_of_records(records: Seq<RawDevice>, backends: Seq<TianyanBackend>) -> bool {
    let kept = tianyan_records(records);
    &&& backends.len() == kept.len()
    &&& forall|i: int| 0 <= i < kept.len() ==> backend_of_record(kept[i], #[trigger] backends[i])
}

/// Keep the Tianyan backends of a device list, in order.
pub fn backends_from_records(records: Vec<RawDevice>) -> (backends: Vec<TianyanBackend>)
    ensures
        backends_of_records(records@, backends@),
{
    let ghost s = records@;
    let mut rest = records;
    let mut out: Vec<TianyanBackend> = Vec::new();
    let mut taken: Vec<RawDevice> = Vec::new();
    // Walk the list from the front by reversing it once.
    let mut rev: Vec<RawDevice> = Vec::new();
    while rest.len() > 0
        invariant
            rev@.len() + rest@.len() == s.len(),
            forall|i: int| 0 <= i < rest@.len() ==> #[trigger] rest@[i] == s[i],
            forall|i: int|
                0 <= i < rev@.len() ==> #[trigger] rev@[i] == s[s.len() - 1 - i],
        decreases rest@.len(),
    {
        let r = rest.pop().unwrap();
        rev.push(r);
    }
    let n = rev.len();
    let mut i: usize = 0;
    while i < n
        invariant
            n == s.len(),
            rev@.len() == n - i,
            forall|k: int| 0 <= k < rev@.len() ==> #[trigger] rev@[k] == s[s.len() - 1 - k],
            out@.len() == tianyan_records(s.take(i as int)).len(),
            forall|k: int|
                0 <= k < out@.len() ==> backend_of_record(
                    tianyan_records(s.take(i as int))[k],
                    #[trigger] out@[k],
                ),
        decreases n - i,
    {
        let r = rev.pop().unwrap();
        assert(r == s[i as int]);
        let ghost before = tianyan_records(s.take(i as int));
        assert(s.take(i + 1).drop_last() =~= s.take(i as int));
        assert(s.take(i + 1).last() == s[i as int]);
        match TianyanBackend::from_raw(r) {
            Some(b) => {
                out.push(b);
                assert(tianyan_records(s.take(i + 1)) == before.push(s[i as int]));
            },
            None => {
                assert(tianyan_records(s.take(i + 1)) == before);
            },
        }
        i = i + 1;
    }
    assert(s.take(n as int) =~= s);
    out
}

/// The text of the refusal of configuration access for a backend that is
/// not superconducting.
pub open spec fn configuration_refusal_text(name: Seq<char>) -> Seq<char> {
    "device configuration is only available for superconducting backends, not '"@ + name
        + "'"@
}

/// Check, before any download, that the backend named `name` has a
/// configuration to download: only superconducting backends do.
pub fn check_configuration_access(name: &str) -> (r: Result<(), TianyanError>)
    ensures
        r is Ok <==> device_type_of(name@) == Some(DeviceType::Superconducting),
        r matches Err(e) ==> e matches TianyanError::InvalidInput(m) && m@
            == configuration_refusal_text(name@),
{
    match DeviceType::from_code(name) {
        Some(DeviceType::Superconducting) => Ok(()),
        _ => {
            let head = concat(
                "device configuration is only available for superconducting backends, not '",
                name,
            );
            Err(TianyanError::InvalidInput(concat(head.as_str(), "'")))
        },
    }
}

/// The first backend named `name`, or [`TianyanError::DeviceNotFound`].
pub open spec fn selected_backend(
    backends: Seq<TianyanBackend>,
    name: Seq<char>,
    r: Result<TianyanBackend, TianyanError>,
) -> bool {
    match r {
        Ok(b) => exists|i: int|
            0 <= i < backends.len() && backends[i] == b && b.name@ == name && forall|j: int|
                0 <= j < i ==> (#[trigger] backends[j]).name@ != name,
        Err(e) => e matches TianyanError::DeviceNotFound(n) && n@ == name && forall|j: int|
            0 <= j < backends.len() ==> (#[trigger] backends[j]).name@ != name,
    }
}

/// Pick the backend named `name` (case-sensitive) out of a device list.
pub fn select_backend(backends: Vec<TianyanBackend>, name: &str) -> (r: Result<
    TianyanBackend,
    TianyanError,
>)
    ensures
        selected_backend(backends@, name@, r),
{
    let ghost s = backends@;
    let mut pool = backends;
    let mut i: usize = 0;
    while i < pool.len()
        invariant
            pool@ == s,
            s == backends@,
            i <= s.len(),
            forall|j: int| 0 <= j < i ==> (#[trigger] s[j]).name@ != name@,
        decreases s.len() - i,
    {
        if text_eq(pool[i].name.as_str(), name) {
            let b = pool.remove(i);
            assert(s[i as int] == b);
            assert(0 <= i < s.len() && s[i as int] == b && b.name@ == name@ && forall|j: int|
                0 <= j < i ==> (#[trigger] s[j]).name@ != name@);
            return Ok(b);
        }
        i = i + 1;
    }
    Err(TianyanError::DeviceNotFound(String::from_str(name)))
}

} // verus!
