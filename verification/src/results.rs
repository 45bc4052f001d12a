//! Reading result records: the task id a record names, and the per-shot
//! measurement table (`resultStatus`) turned into measured qubits and exact
//! outcome counts.
//!
//! The table's first row lists the measured qubits, e.g. `[1, 8]` for Q1 and
//! Q8; each further row holds one shot's measurements in header order.  An
//! outcome is written big-endian: the measurement of the last header qubit
//! comes first, that of the first header qubit last.

use crate::text::{int_text, nat_text, push_char, text_eq, u64_text};
use vstd::prelude::*;

verus! {

/// The parts of a JSON value that result records are read through.
#[derive(Debug)]
pub enum JsonValue {
    /// A number that is an unsigned 64-bit integer.
    UInt(u64),
    /// Any other number, as JSON writes it.
    Number(String),
    /// A string.
    Text(String),
    /// An array.
    Array(Vec<JsonValue>),
    /// `null`, a boolean or an object.
    Other,
}

/// The value as an unsigned integer, if it is one.
pub open spec fn json_u64(v: JsonValue) -> Option<u64> {
    match v {
        JsonValue::UInt(n) => Some(n),
        _ => None,
    }
}

/// The text a record's task id is shown as: a string as it is, a number as
/// JSON writes it, anything else (or nothing) as `unknown`.
pub open spec fn task_id_of(id: Option<JsonValue>) -> Seq<char> {
    match id {
        Some(JsonValue::Text(s)) => s@,
        Some(JsonValue::UInt(n)) => nat_text(n as nat),
        Some(JsonValue::Number(t)) => t@,
        _ => "unknown"@,
    }
}

/// The task id a result record names.
pub fn task_id_text(id: &Option<JsonValue>) -> (s: String)
    ensures
        s@ == task_id_of(*id),
{
    match id {
        Some(JsonValue::Text(s)) => s.clone(),
        Some(JsonValue::UInt(n)) => u64_text(*n),
        Some(JsonValue::Number(t)) => t.clone(),
        _ => String::from_str("unknown"),
    }
}

/// The header row's qubit indices: its unsigned integers, each cast to `u32`,
/// other entries skipped.
pub open spec fn header_qubits(cells: Seq<JsonValue>) -> Seq<u32>
    decreases cells.len(),
{
    if cells.len() == 0 {
        Seq::empty()
    } else {
        let rest = header_qubits(cells.drop_last());
        match json_u64(cells.last()) {
            Some(x) => rest.push(x as u32),
            None => rest,
        }
    }
}

/// The outcome a shot row gives when it holds exactly `n` measurements:
/// character `j` is `1` when measurement `n - 1 - j` is the integer 1, else `0`.
pub open spec fn row_outcome(row: JsonValue, n: nat) -> Option<Seq<char>> {
    match row {
        JsonValue::Array(cells) => if cells@.len() == n {
            Some(
                Seq::new(
                    n,
                    |j: int|
                        if json_u64(cells@[n - 1 - j]) == Some(1u64) {
                            '1'
                        } else {
                            '0'
                        },
                ),
            )
        } else {
            None
        },
        _ => None,
    }
}

/// The outcomes of the shot rows, skipping rows of the wrong shape.
pub open spec fn shot_outcomes(rows: Seq<JsonValue>, n: nat) -> Seq<Seq<char>>
    decreases rows.len(),
{
    if rows.len() == 0 {
        Seq::empty()
    } else {
        let rest = shot_outcomes(rows.drop_last(), n);
        match row_outcome(rows.last(), n) {
            Some(o) => rest.push(o),
            None => rest,
        }
    }
}

/// How often `o` occurs in `shots`.
pub open spec fn occurrences(shots: Seq<Seq<char>>, o: Seq<char>) -> nat
    decreases shots.len(),
{
    if shots.len() == 0 {
        0
    } else {
        occurrences(shots.drop_last(), o) + if shots.last() == o {
            1nat
        } else {
            0nat
        }
    }
}

/// One outcome and the number of shots that gave it.
#[derive(Debug, Clone)]
pub struct OutcomeCount {
    /// The outcome, as a bit string.
    pub bits: String,
    /// How many shots gave it.
    pub count: usize,
}

/// `counts` tallies `shots`: its outcomes are distinct, each occurs among
/// the shots and is counted exactly as often as it occurs, and every shot's
/// outcome is among them.
pub open spec fn is_tally(shots: Seq<Seq<char>>, counts: Seq<OutcomeCount>) -> bool {
    &&& forall|i: int| 0 <= i < counts.len() ==> (#[trigger] counts[i]).count > 0
    &&& forall|i: int, j: int|
        0 <= i < j < counts.len() ==> (#[trigger] counts[i]).bits@ != (#[trigger] counts[j]).bits@
    &&& forall|i: int|
        0 <= i < counts.len() ==> (#[trigger] counts[i]).count == occurrences(
            shots,
            counts[i].bits@,
        )
    &&& forall|k: int|
        0 <= k < shots.len() ==> exists|i: int|
            0 <= i < counts.len() && (#[trigger] counts[i]).bits@ == #[trigger] shots[k]
}

proof fn lemma_occurrences_push(shots: Seq<Seq<char>>, b: Seq<char>, o: Seq<char>)
    ensures
        occurrences(shots.push(b), o) == occurrences(shots, o) + if b == o {
            1nat
        } else {
            0nat
        },
{
    assert(shots.push(b).drop_last() =~= shots);
}

proof fn lemma_occurrences_bound(shots: Seq<Seq<char>>, o: Seq<char>)
    ensures
        occurrences(shots, o) <= shots.len(),
    decreases shots.len(),
{
    if shots.len() > 0 {
        lemma_occurrences_bound(shots.drop_last(), o);
    }
}

/// Count how often each outcome occurs, outcomes in order of first occurrence.
pub fn tally(shots: &Vec<String>) -> (counts: Vec<OutcomeCount>)
    ensures
        is_tally(shots@.map_values(|s: String| s@), counts@),
        total_count(counts@) == shots@.len(),
{
    let ghost all = shots@.map_values(|s: String| s@);
    let mut counts: Vec<OutcomeCount> = Vec::new();
    let mut k: usize = 0;
    while k < shots.len()
        invariant
            k <= shots@.len(),
            all == shots@.map_values(|s: String| s@),
            is_tally(all.take(k as int), counts@),
            counts@.len() <= k,
        decreases shots@.len() - k,
    {
        let ghost prefix = all.take(k as int);
        let ghost next = all.take(k + 1);
        assert(next =~= prefix.push(all[k as int]));
        assert(all[k as int] == shots@[k as int]@);
        proof {
            assert forall|o: Seq<char>| occurrences(next, o) == occurrences(prefix, o) + if all[k
                as int] == o {
                1nat
            } else {
                0nat
            } by {
                lemma_occurrences_push(prefix, all[k as int], o);
            }
            lemma_occurrences_bound(prefix, shots@[k as int]@);
        }
        let b = &shots[k];
        let mut i: usize = 0;
        let mut found = false;
        while i < counts.len()
            invariant_except_break
                i <= counts@.len(),
                forall|t: int| 0 <= t < i ==> (#[trigger] counts@[t]).bits@ != b@,
                !found,
            ensures
                found ==> i < counts@.len() && counts@[i as int].bits@ == b@,
                !found ==> i == counts@.len() && forall|t: int|
                    0 <= t < i ==> (#[trigger] counts@[t]).bits@ != b@,
            decreases counts@.len() - i,
        {
            if counts[i].bits == *b {
                found = true;
                break;
            }
            i = i + 1;
        }
        if found {
            let ghost old_counts = counts@;
            assert(counts@[i as int].count == occurrences(prefix, b@));
            let c = counts[i].count + 1;
            let bits = counts[i].bits.clone();
            counts.set(i, OutcomeCount { bits, count: c });
            assert forall|t: int| 0 <= t < counts@.len() implies (#[trigger] counts@[t]).count
                == occurrences(next, counts@[t].bits@) by {
                if t != i {
                    assert(counts@[t] == old_counts[t]);
                }
            }
            assert forall|a: int, c2: int|
                0 <= a < c2 < counts@.len() implies (#[trigger] counts@[a]).bits@ != (
            #[trigger] counts@[c2]).bits@ by {
                assert(old_counts[a].bits@ != old_counts[c2].bits@);
                if a == i {
                    assert(counts@[a].bits@ == old_counts[a].bits@);
                    assert(counts@[c2] == old_counts[c2]);
                } else if c2 == i {
                    assert(counts@[c2].bits@ == old_counts[c2].bits@);
                    assert(counts@[a] == old_counts[a]);
                } else {
                    assert(counts@[a] == old_counts[a]);
                    assert(counts@[c2] == old_counts[c2]);
                }
            }
            assert forall|q: int| 0 <= q < next.len() implies exists|t: int|
                0 <= t < counts@.len() && (#[trigger] counts@[t]).bits@ == #[trigger] next[q] by {
                if q < k {
                    assert(next[q] == prefix[q]);
                    let t = choose|t: int|
                        0 <= t < old_counts.len() && (#[trigger] old_counts[t]).bits@
                            == prefix[q];
                    assert(counts@[t].bits@ == old_counts[t].bits@);
                } else {
                    assert(counts@[i as int].bits@ == next[q]);
                }
            }
        } else {
            let ghost old_counts = counts@;
            proof {
                assert(occurrences(prefix, b@) == 0) by {
                    if occurrences(prefix, b@) > 0 {
                        lemma_occurrence_witness(prefix, b@);
                        let q = choose|q: int| 0 <= q < prefix.len() && prefix[q] == b@;
                        let t = choose|t: int|
                            0 <= t < old_counts.len() && (#[trigger] old_counts[t]).bits@
                                == #[trigger] prefix[q];
                        assert(old_counts[t].bits@ != b@);
                    }
                }
            }
            counts.push(OutcomeCount { bits: b.clone(), count: 1 });
            assert forall|t: int| 0 <= t < counts@.len() implies (#[trigger] counts@[t]).count
                == occurrences(next, counts@[t].bits@) by {
                if t < old_counts.len() {
                    assert(counts@[t] == old_counts[t]);
                }
            }
            assert forall|a: int, c2: int|
                0 <= a < c2 < counts@.len() implies (#[trigger] counts@[a]).bits@ != (
            #[trigger] counts@[c2]).bits@ by {
                assert(counts@[a] == old_counts[a]);
                if c2 < old_counts.len() {
                    assert(counts@[c2] == old_counts[c2]);
                }
            }
            assert forall|q: int| 0 <= q < next.len() implies exists|t: int|
                0 <= t < counts@.len() && (#[trigger] counts@[t]).bits@ == #[trigger] next[q] by {
                if q < k {
                    assert(next[q] == prefix[q]);
                    let t = choose|t: int|
                        0 <= t < old_counts.len() && (#[trigger] old_counts[t]).bits@
                            == prefix[q];
                    assert(counts@[t] == old_counts[t]);
                } else {
                    assert(counts@[old_counts.len() as int].bits@ == next[q]);
                }
            }
        }
        k = k + 1;
    }
    assert(all.take(shots@.len() as int) =~= all);
    proof {
        tally_counts_every_shot_once(all, counts@);
    }
    counts
}

proof fn lemma_occurrence_witness(shots: Seq<Seq<char>>, o: Seq<char>)
    requires
        occurrences(shots, o) > 0,
    ensures
        exists|q: int| 0 <= q < shots.len() && shots[q] == o,
    decreases shots.len(),
{
    if shots.last() == o {
        assert(shots[shots.len() - 1] == o);
    } else {
        lemma_occurrence_witness(shots.drop_last(), o);
        let q = choose|q: int| 0 <= q < shots.drop_last().len() && shots.drop_last()[q] == o;
        assert(shots[q] == o);
    }
}

/// The sum of the counts.
pub open spec fn total_count(counts: Seq<OutcomeCount>) -> int
    decreases counts.len(),
{
    if counts.len() == 0 {
        0
    } else {
        total_count(counts.drop_last()) + counts.last().count
    }
}

/// How many shots of `shots` give one of the outcomes of `counts`, summed
/// outcome by outcome.
spec fn occurrence_sum(shots: Seq<Seq<char>>, counts: Seq<OutcomeCount>) -> int
    decreases counts.len(),
{
    if counts.len() == 0 {
        0
    } else {
        occurrence_sum(shots, counts.drop_last()) + occurrences(shots, counts.last().bits@)
    }
}

/// How many entries of `counts` are for the outcome `x`.
spec fn entries_for(counts: Seq<OutcomeCount>, x: Seq<char>) -> int
    decreases counts.len(),
{
    if counts.len() == 0 {
        0
    } else {
        entries_for(counts.drop_last(), x) + if counts.last().bits@ == x {
            1int
        } else {
            0int
        }
    }
}

proof fn lemma_occurrence_sum_push(shots: Seq<Seq<char>>, b: Seq<char>, counts: Seq<OutcomeCount>)
    ensures
        occurrence_sum(shots.push(b), counts) == occurrence_sum(shots, counts) + entries_for(
            counts,
            b,
        ),
    decreases counts.len(),
{
    if counts.len() > 0 {
        lemma_occurrence_sum_push(shots, b, counts.drop_last());
        lemma_occurrences_push(shots, b, counts.last().bits@);
    }
}

proof fn lemma_entries_for_distinct(counts: Seq<OutcomeCount>, x: Seq<char>)
    requires
        forall|i: int, j: int|
            0 <= i < j < counts.len() ==> (#[trigger] counts[i]).bits@ != (#[trigger] counts[j]).bits@,
    ensures
        entries_for(counts, x) == if exists|i: int| 0 <= i < counts.len() && counts[i].bits@ == x {
            1int
        } else {
            0int
        },
    decreases counts.len(),
{
    if counts.len() > 0 {
        let init = counts.drop_last();
        assert forall|i: int, j: int| 0 <= i < j < init.len() implies (#[trigger] init[i]).bits@
            != (#[trigger] init[j]).bits@ by {
            assert(init[i] == counts[i] && init[j] == counts[j]);
        }
        lemma_entries_for_distinct(init, x);
        let last = counts.len() - 1;
        if counts[last].bits@ == x {
            if exists|i: int| 0 <= i < init.len() && init[i].bits@ == x {
                let i = choose|i: int| 0 <= i < init.len() && init[i].bits@ == x;
                assert(counts[i] == init[i]);
                assert(counts[i].bits@ != counts[last].bits@);
            }
        } else {
            if exists|i: int| 0 <= i < counts.len() && counts[i].bits@ == x {
                let i = choose|i: int| 0 <= i < counts.len() && counts[i].bits@ == x;
                assert(init[i] == counts[i]);
            }
            if exists|i: int| 0 <= i < init.len() && init[i].bits@ == x {
                let i = choose|i: int| 0 <= i < init.len() && init[i].bits@ == x;
                assert(counts[i] == init[i]);
            }
        }
    }
}

proof fn lemma_prefix_occurrence_sum(shots: Seq<Seq<char>>, counts: Seq<OutcomeCount>, k: int)
    requires
        is_tally(shots, counts),
        0 <= k <= shots.len(),
    ensures
        occurrence_sum(shots.take(k), counts) == k,
    decreases k,
{
    if k == 0 {
        lemma_occurrence_sum_empty(shots.take(0), counts);
    } else {
        lemma_prefix_occurrence_sum(shots, counts, k - 1);
        assert(shots.take(k) =~= shots.take(k - 1).push(shots[k - 1]));
        lemma_occurrence_sum_push(shots.take(k - 1), shots[k - 1], counts);
        lemma_entries_for_distinct(counts, shots[k - 1]);
        let i = choose|i: int|
            0 <= i < counts.len() && (#[trigger] counts[i]).bits@ == #[trigger] shots[k - 1];
        assert(counts[i].bits@ == shots[k - 1]);
    }
}

proof fn lemma_occurrence_sum_empty(shots: Seq<Seq<char>>, counts: Seq<OutcomeCount>)
    requires
        shots.len() == 0,
    ensures
        occurrence_sum(shots, counts) == 0,
    decreases counts.len(),
{
    if counts.len() > 0 {
        lemma_occurrence_sum_empty(shots, counts.drop_last());
    }
}

proof fn lemma_total_is_occurrence_sum(shots: Seq<Seq<char>>, counts: Seq<OutcomeCount>)
    requires
        forall|i: int|
            0 <= i < counts.len() ==> (#[trigger] counts[i]).count == occurrences(
                shots,
                counts[i].bits@,
            ),
    ensures
        total_count(counts) == occurrence_sum(shots, counts),
    decreases counts.len(),
{
    if counts.len() > 0 {
        let init = counts.drop_last();
        assert forall|i: int| 0 <= i < init.len() implies (#[trigger] init[i]).count
            == occurrences(shots, init[i].bits@) by {
            assert(init[i] == counts[i]);
        }
        lemma_total_is_occurrence_sum(shots, init);
        assert(counts[counts.len() - 1] == counts.last());
    }
}

/// A tally counts every shot exactly once: its counts add up to the number
/// of shots.
pub proof fn tally_counts_every_shot_once(shots: Seq<Seq<char>>, counts: Seq<OutcomeCount>)
    requires
        is_tally(shots, counts),
    ensures
        total_count(counts) == shots.len(),
{
    lemma_prefix_occurrence_sum(shots, counts, shots.len() as int);
    assert(shots.take(shots.len() as int) =~= shots);
    lemma_total_is_occurrence_sum(shots, counts);
}

/// What the measurement table `table` gives: `None` unless it is an array
/// of at least two rows whose first row is an array naming at least one
/// qubit and some shot row has the header's length; otherwise the header's
/// qubits and the tally of the shot rows' outcomes.
pub open spec fn result_status_rule(
    table: JsonValue,
    r: Option<(Vec<u32>, Vec<OutcomeCount>)>,
) -> bool {
    match table {
        JsonValue::Array(rows) => if rows@.len() < 2 {
            r is None
        } else {
            match rows@[0] {
                JsonValue::Array(head) => {
                    let qubits = header_qubits(head@);
                    let shots = shot_outcomes(rows@.drop_first(), qubits.len());
                    if qubits.len() == 0 || shots.len() == 0 {
                        r is None
                    } else {
                        r matches Some((q, counts)) && q@ == qubits && is_tally(shots, counts@)
                    }
                },
                _ => r is None,
            }
        },
        _ => r is None,
    }
}

fn header_of(cells: &Vec<JsonValue>) -> (q: Vec<u32>)
    ensures
        q@ == header_qubits(cells@),
{
    let mut q: Vec<u32> = Vec::new();
    let mut i: usize = 0;
    while i < cells.len()
        invariant
            i <= cells@.len(),
            q@ == header_qubits(cells@.take(i as int)),
        decreases cells@.len() - i,
    {
        assert(cells@.take(i + 1).drop_last() =~= cells@.take(i as int));
        assert(cells@.take(i + 1).last() == cells@[i as int]);
        match &cells[i] {
            JsonValue::UInt(x) => {
                q.push(*x as u32);
            },
            _ => {},
        }
        i = i + 1;
    }
    assert(cells@.take(cells@.len() as int) =~= cells@);
    q
}

fn outcome_of_row(row: &JsonValue, n: usize) -> (o: Option<String>)
    ensures
        opt_view(o) == row_outcome(*row, n as nat),
{
    match row {
        JsonValue::Array(cells) => {
            if cells.len() != n {
                return None;
            }
            let mut s = String::new();
            let mut j: usize = 0;
            while j < n
                invariant
                    j <= n,
                    cells@.len() == n,
                    s@.len() == j,
                    forall|t: int|
                        0 <= t < j ==> #[trigger] s@[t] == (if json_u64(cells@[n - 1 - t]) == Some(
                            1u64,
                        ) {
                            '1'
                        } else {
                            '0'
                        }),
                decreases n - j,
            {
                let c = match &cells[n - 1 - j] {
                    JsonValue::UInt(v) => if *v == 1 {
                        '1'
                    } else {
                        '0'
                    },
                    _ => '0',
                };
                push_char(&mut s, c);
                j = j + 1;
            }
            assert(s@ =~= Seq::new(
                n as nat,
                |t: int|
                    if json_u64(cells@[n - 1 - t]) == Some(1u64) {
                        '1'
                    } else {
                        '0'
                    },
            ));
            Some(s)
        },
        _ => None,
    }
}

/// The text of an optional string.
pub open spec fn opt_view(o: Option<String>) -> Option<Seq<char>> {
    match o {
        Some(s) => Some(s@),
        None => None,
    }
}

/// Parse a `resultStatus` measurement table into the measured qubits and
/// the exact count of each outcome.
pub fn parse_result_status(table: &JsonValue) -> (r: Option<(Vec<u32>, Vec<OutcomeCount>)>)
    ensures
        result_status_rule(*table, r),
{
    let rows = match table {
        JsonValue::Array(rows) => rows,
        _ => return None,
    };
    if rows.len() < 2 {
        return None;
    }
    let qubits = match &rows[0] {
        JsonValue::Array(head) => header_of(head),
        _ => return None,
    };
    let n = qubits.len();
    if n == 0 {
        return None;
    }
    let ghost tail = rows@.drop_first();
    let mut shots: Vec<String> = Vec::new();
    let mut i: usize = 1;
    while i < rows.len()
        invariant
            1 <= i <= rows@.len(),
            tail == rows@.drop_first(),
            shots@.map_values(|s: String| s@) == shot_outcomes(tail.take(i - 1), n as nat),
        decreases rows@.len() - i,
    {
        let ghost before = shots@.map_values(|s: String| s@);
        assert(tail.take(i as int).drop_last() =~= tail.take(i - 1));
        assert(tail.take(i as int).last() == rows@[i as int]);
        match outcome_of_row(&rows[i], n) {
            Some(o) => {
                shots.push(o);
                assert(shots@.map_values(|s: String| s@) =~= before.push(
                    row_outcome(rows@[i as int], n as nat)->0,
                ));
            },
            None => {},
        }
        i = i + 1;
    }
    assert(tail.take(rows@.len() - 1) =~= tail);
    if shots.len() == 0 {
        return None;
    }
    let counts = tally(&shots);
    Some((qubits, counts))
}

// ── Submission order ─────────────────────────────────────────────────────────

/// Where `id` first stands among `ids`; `ids.len()` when it is not there.
pub open spec fn first_position(ids: Seq<Seq<char>>, id: Seq<char>) -> int
    decreases ids.len(),
{
    if ids.len() == 0 {
        0
    } else {
        let r = first_position(ids.drop_last(), id);
        if r < ids.len() - 1 {
            r
        } else if ids.last() == id {
            ids.len() - 1
        } else {
            ids.len() as int
        }
    }
}

proof fn lemma_first_position(ids: Seq<Seq<char>>, id: Seq<char>, i: int)
    requires
        0 <= i <= ids.len(),
        forall|k: int| 0 <= k < i ==> ids[k] != id,
        i < ids.len() ==> ids[i] == id,
    ensures
        first_position(ids, id) == i,
    decreases ids.len(),
{
    if ids.len() > 0 {
        let init = ids.drop_last();
        if i < ids.len() - 1 {
            assert(init[i] == ids[i]);
            assert forall|k: int| 0 <= k < i implies init[k] != id by {
                assert(init[k] == ids[k]);
            }
            lemma_first_position(init, id, i);
        } else {
            assert forall|k: int| 0 <= k < init.len() implies init[k] != id by {
                assert(init[k] == ids[k]);
            }
            lemma_first_position(init, id, init.len() as int);
        }
    }
}

/// Find where `id` first stands among `ids` (`ids.len()` when it is not there).
fn position_of(ids: &Vec<String>, id: &str) -> (r: usize)
    ensures
        r as int == first_position(ids@.map_values(|s: String| s@), id@),
        r <= ids@.len(),
{
    let ghost all = ids@.map_values(|s: String| s@);
    let mut i: usize = 0;
    while i < ids.len()
        invariant
            i <= ids@.len(),
            all == ids@.map_values(|s: String| s@),
            forall|k: int| 0 <= k < i ==> all[k] != id@,
        decreases ids@.len() - i,
    {
        assert(all[i as int] == ids@[i as int]@);
        if text_eq(ids[i].as_str(), id) {
            proof {
                lemma_first_position(all, id@, i as int);
            }
            return i;
        }
        i = i + 1;
    }
    proof {
        lemma_first_position(all, id@, all.len() as int);
    }
    i
}

/// Result `a`, whose id first stands at `ra` among the task ids, comes
/// before result `b` (at `rb`): by task position, then by the order the
/// results came in.
pub open spec fn comes_before(ra: int, a: int, rb: int, b: int) -> bool {
    ra < rb || (ra == rb && a < b)
}

/// `order` lists the positions of the results with ids `result_ids` in the
/// order of the submitted tasks `task_ids`: every result once, sorted by
/// where its id first stands among the task ids; results with the same id
/// keep the order they came in, and results whose id is no task's come last.
pub open spec fn in_submission_order(
    task_ids: Seq<Seq<char>>,
    result_ids: Seq<Seq<char>>,
    order: Seq<usize>,
) -> bool {
    &&& forall|k: int| 0 <= k < order.len() ==> #[trigger] order[k] < result_ids.len()
    &&& forall|j: usize| j < result_ids.len() ==> #[trigger] order.contains(j)
    &&& forall|a: int, b: int|
        0 <= a < b < order.len() ==> comes_before(
            first_position(task_ids, result_ids[#[trigger] order[a] as int]),
            order[a] as int,
            first_position(task_ids, result_ids[#[trigger] order[b] as int]),
            order[b] as int,
        )
}

/// Append, in increasing order, the positions whose rank is `k`.
fn append_rank(order: &mut Vec<usize>, ranks: &Vec<usize>, k: usize)
    requires
        forall|i: int| 0 <= i < old(order)@.len() ==> #[trigger] old(order)@[i] < ranks@.len(),
    ensures
        final(order)@.len() >= old(order)@.len(),
        forall|i: int| 0 <= i < old(order)@.len() ==> #[trigger] final(order)@[i] == old(order)@[i],
        forall|i: int|
            old(order)@.len() <= i < final(order)@.len() ==> #[trigger] final(order)@[i]
                < ranks@.len() && ranks@[final(order)@[i] as int] == k,
        forall|a: int, b: int|
            old(order)@.len() <= a < b < final(order)@.len() ==> #[trigger] final(order)@[a]
                < #[trigger] final(order)@[b],
        forall|j: int|
            0 <= j < ranks@.len() && ranks@[j] == k ==> final(order)@.contains(j as usize),
{
    let ghost start = order@;
    let mut j: usize = 0;
    while j < ranks.len()
        invariant
            j <= ranks@.len(),
            order@.len() >= start.len(),
            forall|i: int| 0 <= i < start.len() ==> #[trigger] order@[i] == start[i],
            forall|i: int|
                start.len() <= i < order@.len() ==> #[trigger] order@[i] < j && ranks@[order@[i]
                    as int] == k,
            forall|a: int, b: int|
                start.len() <= a < b < order@.len() ==> #[trigger] order@[a] < #[trigger] order@[b],
            forall|t: int| 0 <= t < j && ranks@[t] == k ==> order@.contains(t as usize),
        decreases ranks@.len() - j,
    {
        if ranks[j] == k {
            let ghost before = order@;
            order.push(j);
            assert(order@[before.len() as int] == j);
            assert forall|t: int| 0 <= t < j + 1 && ranks@[t] == k implies order@.contains(
                t as usize,
            ) by {
                if t < j {
                    let w = choose|w: int| 0 <= w < before.len() && before[w] == t as usize;
                    assert(order@[w] == before[w]);
                }
            }
        }
        j = j + 1;
    }
}

/// The positions of the results with ids `result_ids`, rearranged into the
/// order in which the tasks `task_ids` were submitted.
pub fn submission_order(task_ids: &Vec<String>, result_ids: &Vec<String>) -> (order: Vec<usize>)
    ensures
        in_submission_order(
            task_ids@.map_values(|s: String| s@),
            result_ids@.map_values(|s: String| s@),
            order@,
        ),
{
    let ghost tids = task_ids@.map_values(|s: String| s@);
    let ghost rids = result_ids@.map_values(|s: String| s@);
    let t = task_ids.len();
    let mut ranks: Vec<usize> = Vec::new();
    let mut j: usize = 0;
    while j < result_ids.len()
        invariant
            j <= result_ids@.len(),
            t == tids.len(),
            tids == task_ids@.map_values(|s: String| s@),
            rids == result_ids@.map_values(|s: String| s@),
            ranks@.len() == j,
            forall|i: int|
                0 <= i < j ==> #[trigger] ranks@[i] as int == first_position(tids, rids[i])
                    && ranks@[i] <= t,
        decreases result_ids@.len() - j,
    {
        assert(rids[j as int] == result_ids@[j as int]@);
        let r = position_of(task_ids, result_ids[j].as_str());
        ranks.push(r);
        j = j + 1;
    }
    let mut order: Vec<usize> = Vec::new();
    let mut k: usize = 0;
    loop
        invariant_except_break
            forall|i: int| 0 <= i < order@.len() ==> ranks@[#[trigger] order@[i] as int] < k,
            forall|i: int| 0 <= i < ranks@.len() && ranks@[i] < k ==> order@.contains(i as usize),
        invariant
            k <= t,
            ranks@.len() == rids.len(),
            forall|i: int|
                0 <= i < ranks@.len() ==> #[trigger] ranks@[i] as int == first_position(
                    tids,
                    rids[i],
                ) && ranks@[i] <= t,
            forall|i: int| 0 <= i < order@.len() ==> #[trigger] order@[i] < ranks@.len(),
            forall|a: int, b: int|
                0 <= a < b < order@.len() ==> comes_before(
                    ranks@[#[trigger] order@[a] as int] as int,
                    order@[a] as int,
                    ranks@[#[trigger] order@[b] as int] as int,
                    order@[b] as int,
                ),
        ensures
            forall|i: int| 0 <= i < order@.len() ==> #[trigger] order@[i] < ranks@.len(),
            forall|a: int, b: int|
                0 <= a < b < order@.len() ==> comes_before(
                    ranks@[#[trigger] order@[a] as int] as int,
                    order@[a] as int,
                    ranks@[#[trigger] order@[b] as int] as int,
                    order@[b] as int,
                ),
            k == t,
            forall|i: int| 0 <= i < ranks@.len() && ranks@[i] <= k ==> order@.contains(i as usize),
        decreases t - k,
    {
        let ghost before = order@;
        append_rank(&mut order, &ranks, k);
        assert forall|a: int, b: int| 0 <= a < b < order@.len() implies comes_before(
            ranks@[#[trigger] order@[a] as int] as int,
            order@[a] as int,
            ranks@[#[trigger] order@[b] as int] as int,
            order@[b] as int,
        ) by {
            if b < before.len() {
                assert(order@[a] == before[a] && order@[b] == before[b]);
            } else if a < before.len() {
                assert(order@[a] == before[a]);
            } else {
                assert(order@[a] < order@[b]);
            }
        }
        assert forall|i: int| 0 <= i < ranks@.len() && ranks@[i] < k + 1 implies order@.contains(
            i as usize,
        ) by {
            if ranks@[i] < k {
                let w = choose|w: int| 0 <= w < before.len() && before[w] == i as usize;
                assert(order@[w] == before[w]);
            }
        }
        if k == t {
            break;
        }
        k = k + 1;
    }
    assert forall|i: usize| i < rids.len() implies #[trigger] order@.contains(i) by {
        assert(ranks@[i as int] <= t);
    }
    assert forall|a: int, b: int| 0 <= a < b < order@.len() implies comes_before(
        first_position(tids, rids[#[trigger] order@[a] as int]),
        order@[a] as int,
        first_position(tids, rids[#[trigger] order@[b] as int]),
        order@[b] as int,
    ) by {
        assert(ranks@[order@[a] as int] as int == first_position(tids, rids[order@[a] as int]));
        assert(ranks@[order@[b] as int] as int == first_position(tids, rids[order@[b] as int]));
    }
    order
}

} // verus!
