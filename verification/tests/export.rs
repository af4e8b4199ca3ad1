use std::collections::BTreeSet;

use tracedump::export::{chunk_rows, export_plan, select_rows, Event};

fn ev(name: &str, ts: u64) -> Event {
    Event { name: name.to_string(), ts }
}

fn names(rows: &[Event]) -> BTreeSet<String> {
    rows.iter().map(|e| e.name.clone()).collect()
}

#[test]
fn allow_list_keeps_exactly_the_intersection() {
    let events = vec![ev("a", 1), ev("b", 2), ev("a", 3), ev("c", 4)];
    let allow = Some(vec!["b".to_string(), "c".to_string(), "d".to_string()]);
    let kept = select_rows(&events, &allow, false);
    let expected: BTreeSet<String> = ["b", "c"].iter().map(|s| s.to_string()).collect();
    assert_eq!(names(&kept), expected);
    assert_eq!(kept.len(), 2);
    assert_eq!(kept[0].name, "b");
    assert_eq!(kept[1].name, "c");
}

#[test]
fn absent_allow_list_keeps_every_event() {
    let events = vec![ev("a", 1), ev("b", 2), ev("a", 3)];
    let kept = select_rows(&events, &None, false);
    assert_eq!(kept.len(), 3);
    assert_eq!(kept[0].name, "a");
    assert_eq!(kept[1].name, "b");
    assert_eq!(kept[2].name, "a");
    assert_eq!(kept[0].ts, 1);
    assert_eq!(kept[2].ts, 3);
}

#[test]
fn empty_allow_list_keeps_nothing() {
    let events = vec![ev("a", 1), ev("b", 2)];
    let allow = Some(Vec::new());
    let kept = select_rows(&events, &allow, false);
    assert!(kept.is_empty());
}

#[test]
fn chunk_count_at_boundaries() {
    // chunk_size = 4: exactly 4, 3 and 5 qualifying rows give 1, 1 and 2 chunks
    for (rows, chunks) in [(4usize, 1usize), (3, 1), (5, 2)] {
        let events: Vec<Event> = (0..rows as u64).map(|i| ev("e", i * 10)).collect();
        let plan = export_plan(&events, &None, false, 4);
        assert_eq!(plan.len(), chunks);
    }
}

#[test]
fn chunks_preserve_order_and_sizes() {
    let events: Vec<Event> = (0..5u64).map(|i| ev("e", i)).collect();
    let plan = chunk_rows(events, 2);
    assert_eq!(plan.len(), 3);
    assert_eq!(plan[0].len(), 2);
    assert_eq!(plan[1].len(), 2);
    assert_eq!(plan[2].len(), 1);
    let flat: Vec<u64> = plan.iter().flatten().map(|e| e.ts).collect();
    assert_eq!(flat, vec![0, 1, 2, 3, 4]);
}

#[test]
fn export_with_unique_timestamps_scenario() {
    // three events at [100, 100, 105] export as [100, 102, 105]
    let events = vec![ev("x", 100), ev("y", 100), ev("z", 105)];
    let plan = export_plan(&events, &None, true, 65536);
    assert_eq!(plan.len(), 1);
    let ts: Vec<u64> = plan[0].iter().map(|e| e.ts).collect();
    assert_eq!(ts, vec![100, 102, 105]);
}

#[test]
fn export_without_uniqueness_keeps_raw_timestamps() {
    let events = vec![ev("x", 100), ev("y", 100), ev("z", 105)];
    let plan = export_plan(&events, &None, false, 65536);
    let ts: Vec<u64> = plan[0].iter().map(|e| e.ts).collect();
    assert_eq!(ts, vec![100, 100, 105]);
}

#[test]
fn filter_and_normalize_compose() {
    let events = vec![ev("keep", 10), ev("drop", 10), ev("keep", 10), ev("keep", 11)];
    let allow = Some(vec!["keep".to_string()]);
    let kept = select_rows(&events, &allow, true);
    let ts: Vec<u64> = kept.iter().map(|e| e.ts).collect();
    assert_eq!(ts, vec![10, 12, 14]);
}
