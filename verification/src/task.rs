//! Task submission and result retrieval rules: batch splitting, submission
//! checks, the calibration mode and what it asks for when results are
//! fetched, and the polling schedule.
//!
//! The platform accepts at most [`MAX_BATCH_SIZE`] (50) circuits per
//! submission request; larger inputs are split into consecutive batches whose
//! returned query ids are merged in order.

use crate::device::{device_type_of, DeviceType};
use crate::error::TianyanError;
use crate::text::{concat, i64_text, int_text, text_eq};
use vstd::prelude::*;

verus! {

/// Maximum number of circuits allowed in a single submission request.
pub const MAX_BATCH_SIZE: usize = 50;

/// Maximum number of measured qubits for which [`CalibrationMode::Auto`]
/// applies readout error mitigation.
pub const AUTO_CALIBRATION_MAX_QUBITS: usize = 14;

/// Controls whether readout error mitigation is applied when fetching results.
///
/// | Variant | Behaviour |
/// |---------|-----------|
/// | `Auto` | Apply mitigation when calibration data is available and the circuit measures at most [`AUTO_CALIBRATION_MAX_QUBITS`] qubits; otherwise return raw counts (default). |
/// | `Enabled` | Always apply mitigation; fail if calibration data is unavailable. |
/// | `Disabled` | Never apply mitigation. |
#[derive(Debug, Clone, Copy, PartialEq, Eq, Structural)]
pub enum CalibrationMode {
    Auto,
    Enabled,
    Disabled,
}

impl Default for CalibrationMode {
    /// [`CalibrationMode::Auto`].
    fn default() -> (m: Self)
        ensures
            m == CalibrationMode::Auto,
    {
        CalibrationMode::Auto
    }
}

/// The integer code of a calibration mode in the C interface.
pub open spec fn mode_code(m: CalibrationMode) -> i32 {
    match m {
        CalibrationMode::Auto => 0,
        CalibrationMode::Enabled => 1,
        CalibrationMode::Disabled => 2,
    }
}

/// The name of a calibration mode in the Python interface.
pub open spec fn mode_name(m: CalibrationMode) -> Seq<char> {
    match m {
        CalibrationMode::Auto => "auto"@,
        CalibrationMode::Enabled => "enabled"@,
        CalibrationMode::Disabled => "disabled"@,
    }
}

impl CalibrationMode {
    /// The C interface's code for this mode (0 = Auto, 1 = Enabled, 2 = Disabled).
    pub fn code(&self) -> (c: i32)
        ensures
            c == mode_code(*self),
            *self == CalibrationMode::Auto ==> c == 0,
            *self == CalibrationMode::Enabled ==> c == 1,
            *self == CalibrationMode::Disabled ==> c == 2,
    {
        match self {
            CalibrationMode::Auto => 0,
            CalibrationMode::Enabled => 1,
            CalibrationMode::Disabled => 2,
        }
    }

    /// The mode with C interface code `code`, or the error text for an unknown code.
    pub fn from_code(code: i32) -> (r: Result<CalibrationMode, String>)
        ensures
            0 <= code <= 2 ==> (r matches Ok(m) && mode_code(m) == code),
            code == 0 ==> r == Ok::<CalibrationMode, String>(CalibrationMode::Auto),
            code == 1 ==> r == Ok::<CalibrationMode, String>(CalibrationMode::Enabled),
            code == 2 ==> r == Ok::<CalibrationMode, String>(CalibrationMode::Disabled),
            !(0 <= code <= 2) ==> (r matches Err(msg) && msg@ == "Unknown CalibrationMode code "@
                + int_text(code as int) + "; expected 0=Auto, 1=Enabled, 2=Disabled"@),
    {
        match code {
            0 => Ok(CalibrationMode::Auto),
            1 => Ok(CalibrationMode::Enabled),
            2 => Ok(CalibrationMode::Disabled),
            other => {
                let head = concat("Unknown CalibrationMode code ", i64_text(other as i64).as_str());
                Err(concat(head.as_str(), "; expected 0=Auto, 1=Enabled, 2=Disabled"))
            },
        }
    }

    /// The Python interface's name for this mode.
    pub fn name(&self) -> (s: &'static str)
        ensures
            s@ == mode_name(*self),
            *self == CalibrationMode::Auto ==> s@ == "auto"@,
            *self == CalibrationMode::Enabled ==> s@ == "enabled"@,
            *self == CalibrationMode::Disabled ==> s@ == "disabled"@,
    {
        match self {
            CalibrationMode::Auto => "auto",
            CalibrationMode::Enabled => "enabled",
            CalibrationMode::Disabled => "disabled",
        }
    }

    /// The mode named `name` in the Python interface, or the error text for
    /// an unknown name.
    pub fn from_name(name: &str) -> (r: Result<CalibrationMode, String>)
        ensures
            r matches Ok(m) ==> mode_name(m) == name@,
            name@ == "auto"@ ==> r == Ok::<CalibrationMode, String>(CalibrationMode::Auto),
            name@ == "enabled"@ ==> r == Ok::<CalibrationMode, String>(CalibrationMode::Enabled),
            name@ == "disabled"@ ==> r == Ok::<CalibrationMode, String>(CalibrationMode::Disabled),
            (exists|m: CalibrationMode| mode_name(m) == name@) ==> r is Ok,
            r matches Err(msg) ==> msg@ == "Unknown CalibrationMode '"@ + name@
                + "'; expected 'auto', 'enabled', or 'disabled'"@,
    {
        proof {
            reveal_strlit("auto");
            reveal_strlit("enabled");
            reveal_strlit("disabled");
            assert("auto"@.len() == 4 && "enabled"@.len() == 7 && "disabled"@.len() == 8);
        }
        if text_eq(name, "auto") {
            Ok(CalibrationMode::Auto)
        } else if text_eq(name, "enabled") {
            Ok(CalibrationMode::Enabled)
        } else if text_eq(name, "disabled") {
            Ok(CalibrationMode::Disabled)
        } else {
            let head = concat("Unknown CalibrationMode '", name);
            Err(concat(head.as_str(), "'; expected 'auto', 'enabled', or 'disabled'"))
        }
    }
}

/// A mode's C code reads back as the same mode.
pub proof fn mode_code_round_trip(m: CalibrationMode)
    ensures
        0 <= mode_code(m) <= 2,
        forall|m2: CalibrationMode| mode_code(m2) == mode_code(m) ==> m2 == m,
{
}

/// The C interface numbers the modes `0 = Auto, 1 = Enabled, 2 = Disabled`
/// and the Python interface names them `auto`, `enabled` and `disabled`;
/// every other code or name is refused.
pub proof fn mode_codes_and_names_are_documented(code: i32, name: Seq<char>)
    ensures
        mode_code(CalibrationMode::Auto) == 0,
        mode_code(CalibrationMode::Enabled) == 1,
        mode_code(CalibrationMode::Disabled) == 2,
        !(0 <= code <= 2) ==> forall|m: CalibrationMode| mode_code(m) != code,
        mode_name(CalibrationMode::Auto) == "auto"@,
        mode_name(CalibrationMode::Enabled) == "enabled"@,
        mode_name(CalibrationMode::Disabled) == "disabled"@,
        name != "auto"@ && name != "enabled"@ && name != "disabled"@ ==> forall|m: CalibrationMode|
            mode_name(m) != name,
{
}

/// A mode's Python name reads back as the same mode.
pub proof fn mode_name_round_trip(m: CalibrationMode)
    ensures
        forall|m2: CalibrationMode| mode_name(m2) == mode_name(m) ==> m2 == m,
{
    reveal_strlit("auto");
    reveal_strlit("enabled");
    reveal_strlit("disabled");
    assert("auto"@.len() == 4);
    assert("enabled"@.len() == 7);
    assert("disabled"@.len() == 8);
}

// ── Submission ───────────────────────────────────────────────────────────────

/// Why a submission of `n_circuits` circuits with `shots` shots is refused,
/// if it is.
pub open spec fn submission_input_error(n_circuits: nat, shots: nat) -> Option<Seq<char>> {
    if n_circuits == 0 {
        Some("circuit list must not be empty"@)
    } else if shots == 0 {
        Some("shots must be greater than zero"@)
    } else {
        None
    }
}

/// Check the circuit count and shot count of a submission.
pub fn check_submission_input(n_circuits: usize, shots: usize) -> (r: Result<(), TianyanError>)
    ensures
        submission_input_error(n_circuits as nat, shots as nat) is None <==> r is Ok,
        r matches Err(e) ==> e matches TianyanError::InvalidInput(m) && Some(m@)
            == submission_input_error(n_circuits as nat, shots as nat),
{
    if n_circuits == 0 {
        return Err(TianyanError::InvalidInput(String::from_str("circuit list must not be empty")));
    }
    if shots == 0 {
        return Err(TianyanError::InvalidInput(String::from_str("shots must be greater than zero")));
    }
    Ok(())
}

/// The number of batches `n` items are split into.
pub open spec fn batch_count(n: nat) -> nat {
    if n == 0 {
        0
    } else {
        (((n - 1) as nat) / (MAX_BATCH_SIZE as nat) + 1) as nat
    }
}

/// Batch `i` of `s`: the items from `50 * i` up to `50 * (i + 1)` or the end.
pub open spec fn batch_window<T>(s: Seq<T>, i: int) -> Seq<T> {
    let lo = MAX_BATCH_SIZE * i;
    let hi = if MAX_BATCH_SIZE * (i + 1) < s.len() {
        MAX_BATCH_SIZE * (i + 1)
    } else {
        s.len() as int
    };
    s.subrange(lo, hi)
}

/// `batches` is `s` cut into consecutive batches of at most [`MAX_BATCH_SIZE`].
pub open spec fn is_batching<T>(s: Seq<T>, batches: Seq<Seq<T>>) -> bool {
    &&& batches.len() == batch_count(s.len())
    &&& forall|i: int| 0 <= i < batches.len() ==> #[trigger] batches[i] == batch_window(s, i)
}

/// Split `items` into consecutive batches of at most [`MAX_BATCH_SIZE`] items.
pub fn split_batches<T>(items: Vec<T>) -> (batches: Vec<Vec<T>>)
    ensures
        is_batching(items@, batches@.map_values(|b: Vec<T>| b@)),
{
    let ghost s = items@;
    let n = items.len();
    let mut batches: Vec<Vec<T>> = Vec::new();
    let mut rest = items;
    let mut k: usize = 0;
    while rest.len() > MAX_BATCH_SIZE
        invariant
            s.len() == n,
            k * MAX_BATCH_SIZE + rest@.len() == n,
            rest@ == s.subrange((k * MAX_BATCH_SIZE) as int, n as int),
            batches@.len() == k,
            forall|i: int| 0 <= i < k ==> #[trigger] batches@[i]@ == batch_window(s, i),
        decreases rest@.len(),
    {
        let tail = rest.split_off(MAX_BATCH_SIZE);
        assert(rest@ =~= batch_window(s, k as int));
        batches.push(rest);
        rest = tail;
        assert(rest@ =~= s.subrange(((k + 1) * MAX_BATCH_SIZE) as int, n as int));
        k = k + 1;
    }
    if rest.len() > 0 {
        assert(rest@ =~= batch_window(s, k as int));
        batches.push(rest);
        assert(batch_count(n as nat) == k + 1) by (nonlinear_arith)
            requires
                k * 50 + (n - k * 50) == n,
                0 < n - k * 50 <= 50,
        ;
    } else {
        assert(batch_count(n as nat) == k) by (nonlinear_arith)
            requires
                k * 50 == n,
                n == 0 || k > 0,
        ;
    }
    assert(batches@.map_values(|b: Vec<T>| b@).len() == batches@.len());
    batches
}

/// Every batch of a non-empty batching holds between 1 and
/// [`MAX_BATCH_SIZE`] items, every batch but the last holds exactly
/// [`MAX_BATCH_SIZE`], and the batches laid end to end give back `s`.
pub proof fn batching_covers_input<T>(s: Seq<T>, batches: Seq<Seq<T>>)
    requires
        is_batching(s, batches),
    ensures
        MAX_BATCH_SIZE == 50,
        forall|i: int| 0 <= i < batches.len() ==> 1 <= #[trigger] batches[i].len() <= MAX_BATCH_SIZE,
        forall|i: int| 0 <= i < batches.len() - 1 ==> #[trigger] batches[i].len() == MAX_BATCH_SIZE,
        batches.fold_left(Seq::<T>::empty(), |acc: Seq<T>, b: Seq<T>| acc + b) == s,
{
    assert forall|i: int| 0 <= i < batches.len() implies 1 <= #[trigger] batches[i].len()
        <= MAX_BATCH_SIZE by {
        assert(batches[i] == batch_window(s, i));
        assert(50 * i < s.len()) by (nonlinear_arith)
            requires
                0 <= i < batches.len(),
                batches.len() == batch_count(s.len()),
        ;
    }
    assert forall|i: int| 0 <= i < batches.len() - 1 implies #[trigger] batches[i].len()
        == MAX_BATCH_SIZE by {
        assert(batches[i] == batch_window(s, i));
        assert(50 * (i + 1) < s.len()) by (nonlinear_arith)
            requires
                0 <= i < batches.len() - 1,
                batches.len() == batch_count(s.len()),
        ;
    }
    lemma_prefix_fold(s, batches, batches.len() as int);
    assert(s.subrange(0, s.len() as int) =~= s);
}

proof fn lemma_prefix_fold<T>(s: Seq<T>, batches: Seq<Seq<T>>, k: int)
    requires
        is_batching(s, batches),
        0 <= k <= batches.len(),
    ensures
        batches.take(k).fold_left(Seq::<T>::empty(), |acc: Seq<T>, b: Seq<T>| acc + b)
            == s.subrange(0, if 50 * k < s.len() { 50 * k } else { s.len() as int }),
    decreases k,
{
    let f = |acc: Seq<T>, b: Seq<T>| acc + b;
    if k == 0 {
        assert(batches.take(0) =~= Seq::<Seq<T>>::empty());
        assert(s.subrange(0, 0) =~= Seq::<T>::empty());
    } else {
        lemma_prefix_fold(s, batches, k - 1);
        let prev = batches.take(k - 1);
        assert(batches.take(k).drop_last() =~= prev);
        assert(batches.take(k).last() == batches[k - 1]);
        assert(batches[k - 1] == batch_window(s, k - 1));
        assert(50 * (k - 1) < s.len()) by (nonlinear_arith)
            requires
                1 <= k <= batches.len(),
                batches.len() == batch_count(s.len()),
        ;
        let hi_prev = if 50 * (k - 1) < s.len() {
            50 * (k - 1)
        } else {
            s.len() as int
        };
        let hi = if 50 * k < s.len() {
            50 * k
        } else {
            s.len() as int
        };
        assert(s.subrange(0, hi_prev) + s.subrange(hi_prev, hi) =~= s.subrange(0, hi));
    }
}

/// The fields of one submission request, apart from the circuits it carries.
#[derive(Debug, Clone)]
pub struct SubmitFields {
    /// Quantum language identifier, always `"qcis"`.
    pub language: String,
    /// Task name; left empty so that repeated submissions are not refused as duplicates.
    pub name: String,
    pub shots: usize,
    /// The machine code of the target device.
    pub computer_code: String,
    pub is_verify: bool,
}

/// The request fields used for every batch sent to `device_name`.
pub fn submit_fields(shots: usize, device_name: &str) -> (f: SubmitFields)
    ensures
        f.language@ == "qcis"@,
        f.name@ == Seq::<char>::empty(),
        f.shots == shots,
        f.computer_code@ == device_name@,
        f.is_verify,
{
    SubmitFields {
        language: String::from_str("qcis"),
        name: String::new(),
        shots,
        computer_code: String::from_str(device_name),
        is_verify: true,
    }
}

/// Append the query ids one batch returned to the ids collected so far,
/// keeping batch order.
pub fn merge_batch_ids(all: &mut Vec<String>, batch: Vec<String>)
    ensures
        final(all)@ == old(all)@ + batch@,
{
    let mut batch = batch;
    all.append(&mut batch);
}

// ── Calibration decisions ────────────────────────────────────────────────────

/// Why a backend named `name` refuses tasks in mode `mode`, if it does:
/// only superconducting devices and simulators run tasks, and simulators
/// cannot be asked for readout calibration.
pub open spec fn submission_refusal(name: Seq<char>, mode: CalibrationMode) -> bool {
    match device_type_of(name) {
        Some(DeviceType::Superconducting) => false,
        Some(DeviceType::Simulator) => mode == CalibrationMode::Enabled,
        _ => true,
    }
}

/// The text of the refusal of calibration for a non-superconducting backend.
pub open spec fn calibration_refusal_text(name: Seq<char>) -> Seq<char> {
    "readout calibration is only available for superconducting backends, not '"@ + name
        + "'"@
}

/// The text of the refusal of a submission to `name`.
pub open spec fn submission_refusal_text(name: Seq<char>, mode: CalibrationMode) -> Seq<char> {
    if device_type_of(name) == Some(DeviceType::Simulator) {
        calibration_refusal_text(name)
    } else {
        "backend '"@ + name + "' does not accept task submissions"@
    }
}

fn calibration_refusal(name: &str) -> (e: TianyanError)
    ensures
        e matches TianyanError::InvalidInput(m) && m@ == calibration_refusal_text(name@),
{
    let head = concat(
        "readout calibration is only available for superconducting backends, not '",
        name,
    );
    TianyanError::InvalidInput(concat(head.as_str(), "'"))
}

/// Check that the backend named `name` accepts tasks in mode `mode`, before
/// anything is sent.
pub fn check_submission_target(name: &str, mode: CalibrationMode) -> (r: Result<(), TianyanError>)
    ensures
        r is Ok <==> !submission_refusal(name@, mode),
        r matches Err(e) ==> e matches TianyanError::InvalidInput(m) && m@
            == submission_refusal_text(name@, mode),
{
    let t = DeviceType::from_code(name);
    match t {
        Some(DeviceType::Superconducting) => Ok(()),
        Some(DeviceType::Simulator) => {
            if mode == CalibrationMode::Enabled {
                Err(calibration_refusal(name))
            } else {
                Ok(())
            }
        },
        _ => {
            let head = concat("backend '", name);
            Err(TianyanError::InvalidInput(concat(head.as_str(), "' does not accept task submissions")))
        },
    }
}

/// How results are to be fetched.
#[derive(Debug, Clone, Copy, PartialEq, Eq, Structural)]
pub enum FetchPlan {
    /// Fetch raw counts; download no configuration.
    Raw,
    /// Download the device configuration and calibrate with its readout data.
    Calibrated,
}

/// The fetch plan for a task on `name` in mode `mode`: raw counts when
/// calibration is disabled or the device is not superconducting, calibrated
/// counts otherwise; asking for calibration (`Enabled`) of a
/// non-superconducting device is refused.
pub open spec fn fetch_plan_rule(
    name: Seq<char>,
    mode: CalibrationMode,
    r: Result<FetchPlan, TianyanError>,
) -> bool {
    if mode == CalibrationMode::Disabled {
        r == Ok::<FetchPlan, TianyanError>(FetchPlan::Raw)
    } else if device_type_of(name) == Some(DeviceType::Superconducting) {
        r == Ok::<FetchPlan, TianyanError>(FetchPlan::Calibrated)
    } else if mode == CalibrationMode::Enabled {
        r matches Err(TianyanError::InvalidInput(m)) && m@ == calibration_refusal_text(name)
    } else {
        r == Ok::<FetchPlan, TianyanError>(FetchPlan::Raw)
    }
}

/// Decide how to fetch the results of a task on `name` in mode `mode`.
pub fn fetch_plan(name: &str, mode: CalibrationMode) -> (r: Result<FetchPlan, TianyanError>)
    ensures
        fetch_plan_rule(name@, mode, r),
{
    if mode == CalibrationMode::Disabled {
        return Ok(FetchPlan::Raw);
    }
    match DeviceType::from_code(name) {
        Some(DeviceType::Superconducting) => Ok(FetchPlan::Calibrated),
        _ => {
            if mode == CalibrationMode::Enabled {
                Err(calibration_refusal(name))
            } else {
                Ok(FetchPlan::Raw)
            }
        },
    }
}

/// After the configuration download: calibrate when readout data came with
/// it.  Without it, only a wait in `Auto` mode that came through the general
/// wait (`through_wait`) falls back to raw counts; a calibrated wait asked
/// for directly, or one in `Enabled` mode, fails.
pub open spec fn downloaded_calibration_rule(
    mode: CalibrationMode,
    has_data: bool,
    through_wait: bool,
    r: Result<bool, TianyanError>,
) -> bool {
    if has_data {
        r == Ok::<bool, TianyanError>(true)
    } else if through_wait && mode == CalibrationMode::Auto {
        r == Ok::<bool, TianyanError>(false)
    } else {
        r matches Err(TianyanError::InvalidInput(m)) && m@
            == "readout calibration data not available for this backend"@
    }
}

/// Whether to calibrate once the configuration is in hand; `through_wait`
/// tells whether the calibrated wait was reached through the general wait.
pub fn use_downloaded_calibration(mode: CalibrationMode, has_data: bool, through_wait: bool) -> (r:
    Result<bool, TianyanError>)
    ensures
        downloaded_calibration_rule(mode, has_data, through_wait, r),
{
    if has_data {
        Ok(true)
    } else if through_wait && mode == CalibrationMode::Auto {
        Ok(false)
    } else {
        Err(
            TianyanError::InvalidInput(
                String::from_str("readout calibration data not available for this backend"),
            ),
        )
    }
}

/// Whether a circuit measuring `n_qubits` qubits is calibrated, given
/// calibration data, in mode `mode`: always in `Enabled`, never in
/// `Disabled`, and in `Auto` only up to [`AUTO_CALIBRATION_MAX_QUBITS`] qubits.
pub open spec fn calibrates_circuit(mode: CalibrationMode, n_qubits: nat) -> bool {
    match mode {
        CalibrationMode::Auto => n_qubits <= AUTO_CALIBRATION_MAX_QUBITS,
        CalibrationMode::Enabled => true,
        CalibrationMode::Disabled => false,
    }
}

/// Whether to calibrate a circuit that measured `n_qubits` qubits.
pub fn calibrate_circuit(mode: CalibrationMode, n_qubits: usize) -> (r: bool)
    ensures
        r == calibrates_circuit(mode, n_qubits as nat),
{
    match mode {
        CalibrationMode::Auto => n_qubits <= AUTO_CALIBRATION_MAX_QUBITS,
        CalibrationMode::Enabled => true,
        CalibrationMode::Disabled => false,
    }
}

/// In `Auto` mode a circuit is calibrated exactly when it measures at most
/// 14 qubits; `Enabled` always calibrates and `Disabled` never does.
pub proof fn auto_calibration_stops_above_fourteen_qubits(n_qubits: nat)
    ensures
        calibrates_circuit(CalibrationMode::Auto, n_qubits) <==> n_qubits <= 14,
        calibrates_circuit(CalibrationMode::Enabled, n_qubits),
        !calibrates_circuit(CalibrationMode::Disabled, n_qubits),
{
}

/// A task whose mode is `Disabled` never downloads the device configuration,
/// and no task on a device that is not superconducting does.
pub proof fn configuration_download_only_when_calibrating(
    name: Seq<char>,
    mode: CalibrationMode,
    r: Result<FetchPlan, TianyanError>,
)
    requires
        fetch_plan_rule(name, mode, r),
        r == Ok::<FetchPlan, TianyanError>(FetchPlan::Calibrated),
    ensures
        mode != CalibrationMode::Disabled,
        device_type_of(name) == Some(DeviceType::Superconducting),
{
}

/// Every task that could be submitted can have its results fetched: a
/// target that passes the submission check never has its fetch plan refused.
pub proof fn submitted_tasks_can_be_fetched(
    name: Seq<char>,
    mode: CalibrationMode,
    r: Result<FetchPlan, TianyanError>,
)
    requires
        !submission_refusal(name, mode),
        fetch_plan_rule(name, mode, r),
    ensures
        r is Ok,
{
}

// ── Polling ──────────────────────────────────────────────────────────────────

/// The next step of a wait loop.
#[derive(Debug, Clone, Copy, PartialEq, Eq, Structural)]
pub enum PollStep {
    /// Every expected result is in.
    Done,
    /// The timeout has elapsed.
    TimedOut,
    /// Sleep this many nanoseconds, then poll again.
    Sleep(u128),
}

/// After a poll that returned `got` of `expected` results, `elapsed`
/// nanoseconds into a wait of at most `timeout`: done when all are in, timed
/// out once `elapsed >= timeout`, else sleep the poll interval or the time
/// left, whichever is shorter.
pub open spec fn poll_rule(
    expected: nat,
    got: nat,
    elapsed: u128,
    timeout: u128,
    interval: u128,
    step: PollStep,
) -> bool {
    if got == expected {
        step == PollStep::Done
    } else if elapsed >= timeout {
        step == PollStep::TimedOut
    } else {
        step == PollStep::Sleep(
            if interval < timeout - elapsed {
                interval
            } else {
                (timeout - elapsed) as u128
            },
        )
    }
}

/// Decide the next step of a wait loop.
pub fn poll_step(expected: usize, got: usize, elapsed: u128, timeout: u128, interval: u128) -> (step:
    PollStep)
    ensures
        poll_rule(expected as nat, got as nat, elapsed, timeout, interval, step),
{
    if got == expected {
        PollStep::Done
    } else if elapsed >= timeout {
        PollStep::TimedOut
    } else {
        let remaining = timeout - elapsed;
        if interval < remaining {
            PollStep::Sleep(interval)
        } else {
            PollStep::Sleep(remaining)
        }
    }
}

/// A wait never sleeps past its deadline, and never sleeps once the
/// deadline has passed.
pub proof fn polling_respects_deadline(
    expected: nat,
    got: nat,
    elapsed: u128,
    timeout: u128,
    interval: u128,
    step: PollStep,
)
    requires
        poll_rule(expected, got, elapsed, timeout, interval, step),
    ensures
        step matches PollStep::Sleep(d) ==> elapsed < timeout && elapsed + d <= timeout && d
            <= interval,
{
}

} // verus!
