//! Reading the device calibration configuration: qubit and coupler names,
//! the disabled-qubit list, the coupler map, and which qubits have both
//! readout fidelities.

use crate::text::{
    has_prefix, parse_unsigned, parse_unsigned_text, split_on, split_text, text_eq, trim_text,
    trimmed,
};
use crate::device::{device_type_of, DeviceType};
use crate::error::TianyanError;
use vstd::prelude::*;

verus! {

/// Every configuration must have its `overview` section: hand it on, or
/// refuse the configuration.
pub fn require_overview<T>(overview: Option<T>) -> (r: Result<T, TianyanError>)
    ensures
        match overview {
            Some(o) => r == Ok::<T, TianyanError>(o),
            None => r matches Err(TianyanError::InvalidInput(m)) && m@
                == "config JSON missing 'overview' section"@,
        },
{
    match overview {
        Some(o) => Ok(o),
        None => Err(TianyanError::InvalidInput(String::from_str("config JSON missing 'overview' section"))),
    }
}

/// The hardware index a qubit name like `Q3` stands for: the text after the
/// leading `Q`, read as a `u32`.
pub open spec fn qubit_index(name: Seq<char>) -> Option<u32> {
    if has_prefix(name, "Q"@) {
        match parse_unsigned(name.drop_first(), u32::MAX as int) {
            Some(v) => Some(v as u32),
            None => None,
        }
    } else {
        None
    }
}

/// Parse a qubit name like `"Q3"` into its index `3`.
pub fn parse_qubit(name: &str) -> (q: Option<u32>)
    ensures
        q == qubit_index(name@),
{
    proof {
        reveal_strlit("Q");
    }
    let n = name.unicode_len();
    if n == 0 || name.get_char(0) != 'Q' {
        assert(!has_prefix(name@, "Q"@)) by {
            if n > 0 {
                assert(name@.take(1)[0] == name@[0]);
            }
        }
        return None;
    }
    assert(name@.take(1) =~= "Q"@);
    let rest = name.substring_char(1, n);
    assert(rest@ =~= name@.drop_first());
    match parse_unsigned_text(rest, u32::MAX as u64) {
        Some(v) => Some(v as u32),
        None => None,
    }
}

/// The indices named in the pieces of a disabled-qubit list, skipping
/// pieces that are not qubit names.
pub open spec fn named_qubits(pieces: Seq<Seq<char>>) -> Seq<u32>
    decreases pieces.len(),
{
    if pieces.len() == 0 {
        Seq::empty()
    } else {
        let rest = named_qubits(pieces.drop_last());
        match qubit_index(trimmed(pieces.last())) {
            Some(q) => rest.push(q),
            None => rest,
        }
    }
}

/// The qubits a `disabledQubits` entry names: the comma-separated pieces,
/// trimmed, that are qubit names.
pub open spec fn disabled_qubit_list(list: Seq<char>) -> Seq<u32> {
    named_qubits(split_on(list, ','))
}

/// Parse a `disabledQubits` entry such as `"Q2,Q10"`.
pub fn parse_disabled_qubits(list: &str) -> (qs: Vec<u32>)
    ensures
        qs@ == disabled_qubit_list(list@),
{
    let pieces = split_text(list, ',');
    let ghost views = pieces@.map_values(|p: String| p@);
    let mut qs: Vec<u32> = Vec::new();
    let mut i: usize = 0;
    while i < pieces.len()
        invariant
            i <= pieces@.len(),
            views == pieces@.map_values(|p: String| p@),
            views == split_on(list@, ','),
            qs@ == named_qubits(views.take(i as int)),
        decreases pieces@.len() - i,
    {
        assert(views.take(i + 1).drop_last() =~= views.take(i as int));
        assert(views.take(i + 1).last() == pieces@[i as int]@);
        let t = trim_text(pieces[i].as_str());
        match parse_qubit(t.as_str()) {
            Some(q) => {
                qs.push(q);
            },
            None => {},
        }
        i = i + 1;
    }
    assert(views.take(pieces@.len() as int) =~= views);
    qs
}

/// One entry of the coupler map: a coupler name and the qubit names it joins.
#[derive(Debug, Clone)]
pub struct CouplerEntry {
    pub coupler: String,
    pub qubits: Vec<String>,
}

/// A coupling between two qubits, by hardware index, through a named coupler.
#[derive(Debug, Clone)]
pub struct Coupling {
    pub control: u32,
    pub target: u32,
    pub coupler: String,
}

/// The coupling an entry describes: exactly two qubit names, both valid.
pub open spec fn coupling_of(e: CouplerEntry) -> Option<(u32, u32)> {
    if e.qubits@.len() == 2 {
        match (qubit_index(e.qubits@[0]@), qubit_index(e.qubits@[1]@)) {
            (Some(a), Some(b)) => Some((a, b)),
            _ => None,
        }
    } else {
        None
    }
}

/// The couplings of a coupler map's entries, in entry order, skipping
/// entries that do not join two valid qubit names.
pub open spec fn couplings_of(entries: Seq<CouplerEntry>) -> Seq<(u32, u32, Seq<char>)>
    decreases entries.len(),
{
    if entries.len() == 0 {
        Seq::empty()
    } else {
        let rest = couplings_of(entries.drop_last());
        match coupling_of(entries.last()) {
            Some((a, b)) => rest.push((a, b, entries.last().coupler@)),
            None => rest,
        }
    }
}

/// The couplings that a coupler map describes.
pub fn parse_couplings(entries: &Vec<CouplerEntry>) -> (cs: Vec<Coupling>)
    ensures
        cs@.map_values(|c: Coupling| (c.control, c.target, c.coupler@)) == couplings_of(entries@),
{
    let mut cs: Vec<Coupling> = Vec::new();
    let mut i: usize = 0;
    while i < entries.len()
        invariant
            i <= entries@.len(),
            cs@.map_values(|c: Coupling| (c.control, c.target, c.coupler@)) == couplings_of(
                entries@.take(i as int),
            ),
        decreases entries@.len() - i,
    {
        let ghost before = cs@.map_values(|c: Coupling| (c.control, c.target, c.coupler@));
        assert(entries@.take(i + 1).drop_last() =~= entries@.take(i as int));
        assert(entries@.take(i + 1).last() == entries@[i as int]);
        let e = &entries[i];
        if e.qubits.len() == 2 {
            let a = parse_qubit(e.qubits[0].as_str());
            let b = parse_qubit(e.qubits[1].as_str());
            match (a, b) {
                (Some(a), Some(b)) => {
                    cs.push(Coupling { control: a, target: b, coupler: e.coupler.clone() });
                    assert(cs@.map_values(|c: Coupling| (c.control, c.target, c.coupler@))
                        =~= before.push((a, b, e.coupler@)));
                },
                _ => {},
            }
        }
        i = i + 1;
    }
    assert(entries@.take(entries@.len() as int) =~= entries@);
    cs
}

// ── Online qubits and usable couplings ───────────────────────────────────────

/// The qubits of `qs` that `disabled` does not list, in order.
pub open spec fn online_qubits(qs: Seq<u32>, disabled: Seq<u32>) -> Seq<u32>
    decreases qs.len(),
{
    if qs.len() == 0 {
        Seq::empty()
    } else {
        let rest = online_qubits(qs.drop_last(), disabled);
        if disabled.contains(qs.last()) {
            rest
        } else {
            rest.push(qs.last())
        }
    }
}

/// The disabled qubits that belong to the device, in order.
pub open spec fn invalid_qubits(disabled: Seq<u32>, qs: Seq<u32>) -> Seq<u32>
    decreases disabled.len(),
{
    if disabled.len() == 0 {
        Seq::empty()
    } else {
        let rest = invalid_qubits(disabled.drop_last(), qs);
        if qs.contains(disabled.last()) {
            rest.push(disabled.last())
        } else {
            rest
        }
    }
}

/// The couplings both of whose qubits are online, in order.
pub open spec fn usable_couplings(cs: Seq<Coupling>, online: Seq<u32>) -> Seq<Coupling>
    decreases cs.len(),
{
    if cs.len() == 0 {
        Seq::empty()
    } else {
        let rest = usable_couplings(cs.drop_last(), online);
        if online.contains(cs.last().control) && online.contains(cs.last().target) {
            rest.push(cs.last())
        } else {
            rest
        }
    }
}

/// How a device's qubits are laid out once disabled qubits are set aside.
#[derive(Debug, Clone)]
pub struct QubitLayout {
    /// The qubits in the topology: the device's qubits that are not disabled.
    pub online: Vec<u32>,
    /// The disabled qubits that belong to the device.
    pub invalid: Vec<u32>,
    /// The couplings between online qubits.
    pub couplings: Vec<Coupling>,
}

fn contains_u32(v: &Vec<u32>, x: u32) -> (r: bool)
    ensures
        r == v@.contains(x),
{
    let mut i: usize = 0;
    while i < v.len()
        invariant
            i <= v@.len(),
            forall|k: int| 0 <= k < i ==> v@[k] != x,
        decreases v@.len() - i,
    {
        if v[i] == x {
            assert(v@[i as int] == x);
            return true;
        }
        i = i + 1;
    }
    false
}

/// Set disabled qubits aside: the online qubits form the topology, only
/// couplings between online qubits are kept, and only disabled qubits that
/// belong to the device are marked invalid.
pub fn qubit_layout(qubits: &Vec<u32>, disabled: &Vec<u32>, couplings: Vec<Coupling>) -> (l:
    QubitLayout)
    ensures
        l.online@ == online_qubits(qubits@, disabled@),
        l.invalid@ == invalid_qubits(disabled@, qubits@),
        l.couplings@ == usable_couplings(couplings@, online_qubits(qubits@, disabled@)),
{
    let mut online: Vec<u32> = Vec::new();
    let mut i: usize = 0;
    while i < qubits.len()
        invariant
            i <= qubits@.len(),
            online@ == online_qubits(qubits@.take(i as int), disabled@),
        decreases qubits@.len() - i,
    {
        assert(qubits@.take(i + 1).drop_last() =~= qubits@.take(i as int));
        assert(qubits@.take(i + 1).last() == qubits@[i as int]);
        if !contains_u32(disabled, qubits[i]) {
            online.push(qubits[i]);
        }
        i = i + 1;
    }
    assert(qubits@.take(qubits@.len() as int) =~= qubits@);
    let mut invalid: Vec<u32> = Vec::new();
    let mut j: usize = 0;
    while j < disabled.len()
        invariant
            j <= disabled@.len(),
            invalid@ == invalid_qubits(disabled@.take(j as int), qubits@),
        decreases disabled@.len() - j,
    {
        assert(disabled@.take(j + 1).drop_last() =~= disabled@.take(j as int));
        assert(disabled@.take(j + 1).last() == disabled@[j as int]);
        if contains_u32(qubits, disabled[j]) {
            invalid.push(disabled[j]);
        }
        j = j + 1;
    }
    assert(disabled@.take(disabled@.len() as int) =~= disabled@);
    let ghost cs = couplings@;
    let mut kept: Vec<Coupling> = Vec::new();
    let mut rest = couplings;
    let mut rev: Vec<Coupling> = Vec::new();
    while rest.len() > 0
        invariant
            rev@.len() + rest@.len() == cs.len(),
            forall|k: int| 0 <= k < rest@.len() ==> #[trigger] rest@[k] == cs[k],
            forall|k: int| 0 <= k < rev@.len() ==> #[trigger] rev@[k] == cs[cs.len() - 1 - k],
        decreases rest@.len(),
    {
        let c = rest.pop().unwrap();
        rev.push(c);
    }
    let n = rev.len();
    let mut k: usize = 0;
    while k < n
        invariant
            n == cs.len(),
            rev@.len() == n - k,
            forall|t: int| 0 <= t < rev@.len() ==> #[trigger] rev@[t] == cs[cs.len() - 1 - t],
            kept@ == usable_couplings(cs.take(k as int), online@),
        decreases n - k,
    {
        let c = rev.pop().unwrap();
        assert(c == cs[k as int]);
        assert(cs.take(k + 1).drop_last() =~= cs.take(k as int));
        assert(cs.take(k + 1).last() == cs[k as int]);
        if contains_u32(&online, c.control) && contains_u32(&online, c.target) {
            kept.push(c);
        }
        k = k + 1;
    }
    assert(cs.take(n as int) =~= cs);
    QubitLayout { online, invalid, couplings: kept }
}

// ── Native gates ─────────────────────────────────────────────────────────────

/// A gate that a Tianyan superconducting device runs natively.
#[derive(Debug, Clone, Copy, PartialEq, Eq, Structural)]
pub enum NativeGate {
    RZ,
    X2P,
    X2M,
    Y2P,
    Y2M,
    XY2P,
    XY2M,
    CZ,
    FSIM,
}

/// The native gate set of a machine: superconducting Tianyan machines run
/// `RZ, X2P, X2M, Y2P, Y2M, XY2P, XY2M, CZ`, and `tianyan504` also `FSIM`;
/// no set is known for other machines.
pub open spec fn native_gate_set(machine: Seq<char>) -> Seq<NativeGate> {
    if device_type_of(machine) == Some(DeviceType::Superconducting) {
        let base = seq![
            NativeGate::RZ,
            NativeGate::X2P,
            NativeGate::X2M,
            NativeGate::Y2P,
            NativeGate::Y2M,
            NativeGate::XY2P,
            NativeGate::XY2M,
            NativeGate::CZ,
        ];
        if machine == "tianyan504"@ {
            base.push(NativeGate::FSIM)
        } else {
            base
        }
    } else {
        Seq::empty()
    }
}

/// The native gates of `machine`.
pub fn native_gates_for(machine: &str) -> (gates: Vec<NativeGate>)
    ensures
        gates@ == native_gate_set(machine@),
{
    let mut gates: Vec<NativeGate> = Vec::new();
    if DeviceType::from_code(machine) != Some(DeviceType::Superconducting) {
        return gates;
    }
    gates.push(NativeGate::RZ);
    gates.push(NativeGate::X2P);
    gates.push(NativeGate::X2M);
    gates.push(NativeGate::Y2P);
    gates.push(NativeGate::Y2M);
    gates.push(NativeGate::XY2P);
    gates.push(NativeGate::XY2M);
    gates.push(NativeGate::CZ);
    if text_eq(machine, "tianyan504") {
        gates.push(NativeGate::FSIM);
    }
    assert(gates@ =~= native_gate_set(machine@));
    gates
}

// ── Readout fidelities ───────────────────────────────────────────────────────

/// The last position at which `x` occurs among `names`.
pub open spec fn last_position(names: Seq<Seq<char>>, x: Seq<char>) -> Option<int>
    decreases names.len(),
{
    if names.len() == 0 {
        None
    } else if names.last() == x {
        Some(names.len() - 1)
    } else {
        last_position(names.drop_last(), x)
    }
}

/// For the first `k` qubits of the `|0>` list, in order, those that the
/// `|1>` list also names: the qubit's position in the `|0>` list and its
/// last position in the `|1>` list.
pub open spec fn fidelity_pairs(names0: Seq<Seq<char>>, names1: Seq<Seq<char>>, k: int) -> Seq<
    (int, int),
>
    decreases k,
{
    if k <= 0 {
        Seq::empty()
    } else {
        let rest = fidelity_pairs(names0, names1, k - 1);
        match last_position(names1, names0[k - 1]) {
            Some(j) => rest.push((k - 1, j)),
            None => rest,
        }
    }
}

/// Which readout fidelity values belong together, given the qubit lists of
/// the `|0>` and `|1>` fidelity arrays and how many values each array holds:
/// nothing when an array's names and values differ in number; otherwise,
/// for each qubit of the `|0>` list in order that the `|1>` list names, its
/// position in the first list and its last position in the second.
pub open spec fn fidelity_pairing_rule(
    names0: Seq<Seq<char>>,
    n_values0: nat,
    names1: Seq<Seq<char>>,
    n_values1: nat,
    r: Option<Seq<(int, int)>>,
) -> bool {
    if names0.len() != n_values0 || names1.len() != n_values1 {
        r is None
    } else {
        r == Some(fidelity_pairs(names0, names1, names0.len() as int))
    }
}

/// One qubit's positions in the `|0>` and `|1>` readout fidelity arrays.
#[derive(Debug, Clone, Copy)]
pub struct FidelityPair {
    pub index0: usize,
    pub index1: usize,
}

/// Where a calibration array `(qubit_used, param_list)` keeps the value for
/// `name`: the names are paired with the values position by position, as far
/// as both reach, and a name given twice keeps its last value.
pub open spec fn param_position(names: Seq<Seq<char>>, n_values: nat, name: Seq<char>) -> Option<
    int,
> {
    let paired = if names.len() <= n_values {
        names.len() as int
    } else {
        n_values as int
    };
    last_position(names.take(paired), name)
}

/// Find the position of the value for `name` in a calibration array whose
/// qubit list is `names` and which holds `n_values` values.
pub fn param_index(names: &Vec<String>, n_values: usize, name: &str) -> (r: Option<usize>)
    ensures
        match r {
            Some(j) => param_position(names@.map_values(|s: String| s@), n_values as nat, name@)
                == Some(j as int),
            None => param_position(names@.map_values(|s: String| s@), n_values as nat, name@) is None,
        },
{
    let ghost all = names@.map_values(|s: String| s@);
    let paired = if names.len() <= n_values {
        names.len()
    } else {
        n_values
    };
    let mut j: usize = paired;
    assert(all.take(paired as int).take(j as int) =~= all.take(paired as int));
    while j > 0
        invariant
            j <= paired <= names@.len(),
            paired == (if names@.len() <= n_values {
                names@.len()
            } else {
                n_values as nat
            }),
            all == names@.map_values(|s: String| s@),
            last_position(all.take(paired as int), name@) == last_position(all.take(j as int), name@),
        decreases j,
    {
        let ghost pre = all.take(j as int);
        assert(pre.last() == names@[j - 1]@);
        assert(pre.drop_last() =~= all.take(j - 1));
        if text_eq(names[j - 1].as_str(), name) {
            return Some(j - 1);
        }
        j = j - 1;
    }
    assert(all.take(0) =~= Seq::<Seq<char>>::empty());
    None
}

/// Pair up the qubits of the two readout fidelity arrays.
pub fn pair_readout_fidelities(
    names0: &Vec<String>,
    n_values0: usize,
    names1: &Vec<String>,
    n_values1: usize,
) -> (r: Option<Vec<FidelityPair>>)
    ensures
        fidelity_pairing_rule(
            names0@.map_values(|s: String| s@),
            n_values0 as nat,
            names1@.map_values(|s: String| s@),
            n_values1 as nat,
            match r {
                Some(v) => Some(v@.map_values(|p: FidelityPair| (p.index0 as int, p.index1 as int))),
                None => None,
            },
        ),
{
    if names0.len() != n_values0 || names1.len() != n_values1 {
        return None;
    }
    let ghost a = names0@.map_values(|s: String| s@);
    let ghost b = names1@.map_values(|s: String| s@);
    let mut pairs: Vec<FidelityPair> = Vec::new();
    let mut i: usize = 0;
    while i < names0.len()
        invariant
            i <= names0@.len(),
            a == names0@.map_values(|s: String| s@),
            b == names1@.map_values(|s: String| s@),
            pairs@.map_values(|p: FidelityPair| (p.index0 as int, p.index1 as int))
                == fidelity_pairs(a, b, i as int),
        decreases names0@.len() - i,
    {
        let ghost before = pairs@.map_values(|p: FidelityPair| (p.index0 as int, p.index1 as int));
        assert(a[i as int] == names0@[i as int]@);
        assert(b.take(b.len() as int) =~= b);
        match param_index(names1, names1.len(), names0[i].as_str()) {
            Some(j) => {
                pairs.push(FidelityPair { index0: i, index1: j });
                assert(pairs@.map_values(|p: FidelityPair| (p.index0 as int, p.index1 as int))
                    =~= before.push((i as int, j as int)));
            },
            None => {},
        }
        i = i + 1;
    }
    Some(pairs)
}

/// The layout of the calibration times in a device configuration, such as
/// `2025-08-07 15:16:22`.
pub const CALIBRATION_TIME_FORMAT: &'static str = "[year]-[month]-[day] [hour]:[minute]:[second]";

/// Seconds since the Unix epoch of the date and time that `text` gives in
/// the layout `format` (a `time` format description), taken as UTC; `None`
/// where `format` is no valid description or `text` does not follow it.
pub uninterp spec fn utc_timestamp_of(text: Seq<char>, format: Seq<char>) -> Option<i64>;

/// Calls `time::format_description::parse` on `format`, then
/// `time::PrimitiveDateTime::parse` on `text` with that description, and
/// reads the result as UTC (`assume_utc`, `unix_timestamp`).  Claimed: the
/// result depends on the two texts alone (`utc_timestamp_of`), and a failed
/// parse gives `None`.  What `time` accepts is not restated here.
#[verifier::external_body]
fn utc_timestamp(text: &str, format: &str) -> (r: Option<i64>)
    ensures
        r == utc_timestamp_of(text@, format@),
{
    let description = time::format_description::parse(format).ok()?;
    time::PrimitiveDateTime::parse(text, &description).ok().map(|dt| dt.assume_utc().unix_timestamp())
}

/// Parse a calibration time such as `"2025-08-07 15:16:22"` (taken as UTC)
/// into seconds since the Unix epoch.
pub fn parse_calibration_time(s: &str) -> (r: Option<i64>)
    ensures
        r == utc_timestamp_of(s@, CALIBRATION_TIME_FORMAT@),
{
    utc_timestamp(s, CALIBRATION_TIME_FORMAT)
}

} // verus!
