use cqlib_tianyan::results::{
    parse_result_status, submission_order, tally, task_id_text, JsonValue,
};

fn row(v: &[u64]) -> JsonValue {
    JsonValue::Array(v.iter().map(|&x| JsonValue::UInt(x)).collect())
}

fn counts_of(table: &JsonValue) -> Option<(Vec<u32>, Vec<(String, usize)>)> {
    parse_result_status(table).map(|(q, c)| {
        let mut c: Vec<(String, usize)> = c.into_iter().map(|o| (o.bits, o.count)).collect();
        c.sort();
        (q, c)
    })
}

#[test]
fn result_status_counts_shots() {
    let table = JsonValue::Array(vec![row(&[0]), row(&[0]), row(&[0]), row(&[0]), row(&[1])]);
    let (q, c) = counts_of(&table).unwrap();
    assert_eq!(q, vec![0]);
    assert_eq!(c, vec![("0".to_string(), 3), ("1".to_string(), 1)]);
}

#[test]
fn result_status_is_big_endian_in_header_order() {
    // Header [1, 8]: the Q8 measurement is written first.
    let table = JsonValue::Array(vec![row(&[1, 8]), row(&[1, 0]), row(&[1, 0]), row(&[0, 1])]);
    let (q, c) = counts_of(&table).unwrap();
    assert_eq!(q, vec![1, 8]);
    assert_eq!(c, vec![("01".to_string(), 2), ("10".to_string(), 1)]);
}

#[test]
fn malformed_rows_are_skipped() {
    let table = JsonValue::Array(vec![
        row(&[2, 3]),
        row(&[1]),
        JsonValue::Other,
        row(&[1, 1]),
        JsonValue::Array(vec![JsonValue::UInt(1), JsonValue::Text("1".to_string())]),
    ]);
    let (_, c) = counts_of(&table).unwrap();
    assert_eq!(c, vec![("01".to_string(), 1), ("11".to_string(), 1)]);
}

#[test]
fn tables_without_shots_give_nothing() {
    assert!(counts_of(&JsonValue::Other).is_none());
    assert!(counts_of(&JsonValue::Array(vec![row(&[0])])).is_none());
    assert!(counts_of(&JsonValue::Array(vec![row(&[]), row(&[])])).is_none());
    assert!(counts_of(&JsonValue::Array(vec![row(&[0, 1]), row(&[1])])).is_none());
    assert!(counts_of(&JsonValue::Array(vec![JsonValue::Other, row(&[1])])).is_none());
}

#[test]
fn header_entries_are_cast_to_u32() {
    let table = JsonValue::Array(vec![row(&[(1u64 << 32) + 5]), row(&[1])]);
    let (q, _) = counts_of(&table).unwrap();
    assert_eq!(q, vec![5]);
}

#[test]
fn tally_counts_each_outcome_once() {
    let shots: Vec<String> = ["a", "b", "a", "c", "a"].iter().map(|s| s.to_string()).collect();
    let t = tally(&shots);
    let got: Vec<(String, usize)> = t.into_iter().map(|o| (o.bits, o.count)).collect();
    assert_eq!(
        got,
        vec![("a".to_string(), 3), ("b".to_string(), 1), ("c".to_string(), 1)]
    );
}

#[test]
fn task_ids_are_read_from_strings_and_numbers() {
    assert_eq!(task_id_text(&Some(JsonValue::Text("task-1".to_string()))), "task-1");
    assert_eq!(task_id_text(&Some(JsonValue::UInt(12345))), "12345");
    assert_eq!(task_id_text(&Some(JsonValue::Number("-7".to_string()))), "-7");
    assert_eq!(task_id_text(&Some(JsonValue::Other)), "unknown");
    assert_eq!(task_id_text(&None), "unknown");
}

#[test]
fn tally_counts_add_up_to_the_shots() {
    let shots: Vec<String> =
        ["01", "10", "01", "11", "01", "10", "00"].iter().map(|s| s.to_string()).collect();
    let total: usize = tally(&shots).iter().map(|o| o.count).sum();
    assert_eq!(total, shots.len());
    assert!(tally(&Vec::new()).is_empty());
}

#[test]
fn result_status_lists_only_outcomes_that_occurred() {
    let table =
        JsonValue::Array(vec![row(&[1, 8]), row(&[0, 1]), row(&[0, 1]), row(&[1, 1]), row(&[1])]);
    let (q, c) = counts_of(&table).unwrap();
    assert_eq!(q, vec![1, 8]);
    assert_eq!(c, vec![("10".to_string(), 2), ("11".to_string(), 1)]);
}

fn ids(v: &[&str]) -> Vec<String> {
    v.iter().map(|s| s.to_string()).collect()
}

#[test]
fn results_follow_the_submission_order() {
    let tasks = ids(&["t1", "t2", "t3", "t4"]);
    assert_eq!(submission_order(&tasks, &ids(&["t3", "t1", "t4", "t2"])), vec![1, 3, 0, 2]);
    // Missing results are simply absent; unknown ids come last, in arrival order.
    assert_eq!(
        submission_order(&tasks, &ids(&["unknown", "t4", "x", "t2"])),
        vec![3, 1, 0, 2]
    );
    // A task id given twice keeps its results in arrival order.
    assert_eq!(submission_order(&tasks, &ids(&["t2", "t1", "t2"])), vec![1, 0, 2]);
    assert!(submission_order(&tasks, &Vec::new()).is_empty());
}
