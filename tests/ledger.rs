use ucloud_notify::chunk::{chunk_ranges, CHUNK_SIZE};
use ucloud_notify::ledger::{filter_pushed_undone_list, Ledger};
use ucloud_notify::model::{CourseInfo, UndoneList, UndoneListItem};

fn item(id: &str) -> UndoneListItem {
    UndoneListItem {
        site_id: 1,
        site_name: "site".to_string(),
        activity_name: format!("name {}", id),
        activity_id: id.to_string(),
        kind: 0,
        end_time: "2024-03-05 23:59:59".to_string(),
        assignment_type: 0,
        evaluation_status: 0,
        is_open_evaluation: 0,
        course_info: Some(CourseInfo {
            id: "c".to_string(),
            name: "Math".to_string(),
            teachers: "T".to_string(),
        }),
        description: None,
        start_time: None,
        is_overtime_commit: None,
    }
}

fn list(ids: &[&str]) -> UndoneList {
    UndoneList {
        site_num: 2,
        undone_num: ids.len() as i32,
        undone_list: ids.iter().map(|i| item(i)).collect(),
    }
}

fn ids(l: &UndoneList) -> Vec<String> {
    l.undone_list.iter().map(|i| i.activity_id.clone()).collect()
}

#[test]
fn empty_list_filters_to_empty() {
    let ledger = Ledger::new();
    let r = ledger.filter_unseen(&list(&[]));
    assert_eq!(r.undone_num, 0);
    assert!(r.undone_list.is_empty());
    assert_eq!(r.site_num, 2);
    assert!(chunk_ranges(0, CHUNK_SIZE).is_empty());
}

#[test]
fn recorded_items_are_excluded() {
    let mut ledger = Ledger::new();
    let a = list(&["a1", "a2"]);
    ledger.record(&a.undone_list);
    let r = ledger.filter_unseen(&list(&["a1", "a2", "b1", "b2"]));
    assert_eq!(ids(&r), vec!["b1", "b2"]);
    assert_eq!(r.undone_num, 2);
}

#[test]
fn record_twice_keeps_identifiers() {
    let mut ledger = Ledger::new();
    let x = list(&["a1", "a2", "a3"]);
    ledger.record(&x.undone_list);
    assert_eq!(ledger.len(), 3);
    ledger.record(&x.undone_list);
    assert_eq!(ledger.len(), 3);
    let before = ledger.get(&"a2".to_string()).unwrap();
    ledger.record(&x.undone_list);
    let after = ledger.get(&"a2".to_string()).unwrap();
    assert_eq!(ledger.len(), 3);
    assert_eq!(before.end_time, after.end_time);
    assert_eq!(before.activity_name, after.activity_name);
}

#[test]
fn rerecord_refreshes_only_due_time_and_status() {
    let mut ledger = Ledger::new();
    let first = item("a1");
    ledger.record(&vec![first]);
    let mut again = item("a1");
    again.end_time = "2024-04-01 00:00:00".to_string();
    again.evaluation_status = 5;
    again.activity_name = "renamed".to_string();
    ledger.record(&vec![again]);
    assert_eq!(ledger.len(), 1);
    let e = ledger.get(&"a1".to_string()).unwrap();
    assert_eq!(e.end_time, "2024-04-01 00:00:00");
    assert_eq!(e.evaluation_status, 5);
    assert_eq!(e.activity_name, "name a1");
    assert!(ledger.filter_unseen(&list(&["a1"])).undone_list.is_empty());
}

#[test]
fn chunks_of_250_are_100_100_50() {
    assert_eq!(chunk_ranges(250, 100), vec![(0, 100), (100, 200), (200, 250)]);
    assert_eq!(chunk_ranges(100, 100), vec![(0, 100)]);
    assert_eq!(chunk_ranges(1, 100), vec![(0, 1)]);
}

#[test]
fn chunked_ledger_matches_unchunked() {
    let names: Vec<String> = (0..250).map(|i| format!("id{}", i)).collect();
    let refs: Vec<&str> = names.iter().map(|s| s.as_str()).collect();
    let all = list(&refs);
    let half = list(&refs[..125]);
    let mut chunked = Ledger::with_chunk_size(100);
    let mut whole = Ledger::with_chunk_size(1000);
    chunked.record(&half.undone_list);
    whole.record(&half.undone_list);
    let a = chunked.filter_unseen(&all);
    let b = whole.filter_unseen(&all);
    assert_eq!(ids(&a), ids(&b));
    assert_eq!(a.undone_list.len(), 125);
    assert_eq!(a.undone_list[0].activity_id, "id125");
    chunked.record(&all.undone_list);
    whole.record(&all.undone_list);
    assert_eq!(chunked.len(), 250);
    assert_eq!(whole.len(), 250);
}

#[test]
fn end_to_end_two_runs() {
    let mut ledger = Ledger::new();
    let first = ledger.filter_unseen(&list(&["a1", "a2"]));
    assert_eq!(ids(&first), vec!["a1", "a2"]);
    ledger.record(&first.undone_list);
    let second = ledger.filter_unseen(&list(&["a1", "a3"]));
    assert_eq!(ids(&second), vec!["a3"]);
    assert_eq!(second.undone_num, 1);
}

#[test]
fn purge_makes_everything_new_again() {
    let mut ledger = Ledger::new();
    let x = list(&["a1", "a2", "a3"]);
    ledger.record(&x.undone_list);
    assert!(ledger.filter_unseen(&x).undone_list.is_empty());
    ledger.purge();
    assert_eq!(ledger.len(), 0);
    assert_eq!(ids(&ledger.filter_unseen(&x)), vec!["a1", "a2", "a3"]);
}

#[test]
fn cursor_is_last_write_wins() {
    let mut ledger = Ledger::new();
    assert_eq!(ledger.get_cursor(), None);
    ledger.set_cursor("t1".to_string());
    ledger.set_cursor("t2".to_string());
    assert_eq!(ledger.get_cursor(), Some("t2".to_string()));
    ledger.purge();
    assert_eq!(ledger.get_cursor(), Some("t2".to_string()));
}

#[test]
fn filter_by_known_identifiers() {
    let l = list(&["a1", "a2", "a3"]);
    let r = filter_pushed_undone_list(&l, &vec!["a2".to_string(), "zz".to_string()]);
    assert_eq!(ids(&r), vec!["a1", "a3"]);
    assert_eq!(r.undone_num, 2);
    let none = filter_pushed_undone_list(&list(&[]), &vec!["a2".to_string()]);
    assert_eq!(none.undone_num, 0);
}

#[test]
fn duplicate_identifiers_in_one_list() {
    let mut ledger = Ledger::new();
    let l = list(&["a1", "a1", "a2"]);
    assert_eq!(ids(&ledger.filter_unseen(&l)), vec!["a1", "a1", "a2"]);
    ledger.record(&l.undone_list);
    assert_eq!(ledger.len(), 2);
    assert!(ledger.contains(&"a1".to_string()));
}
