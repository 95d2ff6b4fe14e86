use ws_bench::report::{sort_by_total, BenchResult};
use ws_bench::workload::{capacity, make_payload, FRAME_OVERHEAD};

fn result(name: &'static str, total: u128) -> BenchResult {
    BenchResult { name, send: total / 4, echo: total / 2, recv: total / 4, total }
}

#[test]
fn capacity_adds_header_room_per_message() {
    assert_eq!(capacity(14, 100_000), 2_800_000);
    assert_eq!(capacity(10240, 50_000), (10240 + 14) * 50_000);
    assert_eq!(capacity(0, 3), 42);
    assert_eq!(capacity(1024, 0), 0);
    assert_eq!(FRAME_OVERHEAD, 14);
}

#[test]
fn make_payload_repeats_x() {
    assert_eq!(make_payload(0), "");
    assert_eq!(make_payload(3), "xxx");
    let p = make_payload(2048);
    assert_eq!(p.len(), 2048);
    assert!(p.bytes().all(|b| b == b'x'));
}

#[test]
fn sort_orders_by_total() {
    let mut v = vec![result("c", 30), result("a", 10), result("d", 40), result("b", 20)];
    sort_by_total(&mut v);
    let names: Vec<&str> = v.iter().map(|r| r.name).collect();
    assert_eq!(names, vec!["a", "b", "c", "d"]);
    let totals: Vec<u128> = v.iter().map(|r| r.total).collect();
    assert_eq!(totals, vec![10, 20, 30, 40]);
}

#[test]
fn sort_keeps_ties_in_order() {
    let mut v = vec![
        result("x", 5),
        result("first", 3),
        result("y", 1),
        result("second", 3),
        result("third", 3),
    ];
    sort_by_total(&mut v);
    let names: Vec<&str> = v.iter().map(|r| r.name).collect();
    assert_eq!(names, vec!["y", "first", "second", "third", "x"]);
}

#[test]
fn sort_handles_empty_and_single() {
    let mut e: Vec<BenchResult> = Vec::new();
    sort_by_total(&mut e);
    assert!(e.is_empty());
    let mut one = vec![result("only", 7)];
    sort_by_total(&mut one);
    assert_eq!(one[0].name, "only");
    assert_eq!(one[0].send, 1);
}

#[test]
fn sort_keeps_every_field() {
    let mut v = vec![
        BenchResult { name: "slow", send: 1, echo: 2, recv: 3, total: 900 },
        BenchResult { name: "fast", send: 4, echo: 5, recv: 6, total: 100 },
    ];
    sort_by_total(&mut v);
    assert_eq!((v[0].name, v[0].send, v[0].echo, v[0].recv, v[0].total), ("fast", 4, 5, 6, 100));
    assert_eq!((v[1].name, v[1].send, v[1].echo, v[1].recv, v[1].total), ("slow", 1, 2, 3, 900));
}

#[test]
fn sorting_a_sorted_report_changes_nothing() {
    let mut v = vec![result("a", 1), result("b", 2), result("c", 2), result("d", 9)];
    sort_by_total(&mut v);
    let names: Vec<&str> = v.iter().map(|r| r.name).collect();
    assert_eq!(names, vec!["a", "b", "c", "d"]);
}
