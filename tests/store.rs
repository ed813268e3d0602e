use ucloud_notify::d1::{insert_statement, query_params, row_params, save_activities_batch, select_statement, SqlValue};
use ucloud_notify::model::{UndoneList, UndoneListItem};
use ucloud_notify::routes::{route, telegram_reply, Reply, Route};
use ucloud_notify::ucloud::{apply_details, detail_url, undone_list_url, HomeworkDetail};

fn item(id: &str) -> UndoneListItem {
    UndoneListItem {
        site_id: 1,
        site_name: "s".to_string(),
        activity_name: "n".to_string(),
        activity_id: id.to_string(),
        kind: 3,
        end_time: "e".to_string(),
        assignment_type: 4,
        evaluation_status: 5,
        is_open_evaluation: 6,
        course_info: None,
        description: None,
        start_time: Some("st".to_string()),
        is_overtime_commit: None,
    }
}

const HEAD: &str = "INSERT OR IGNORE INTO activities (activity_id, activity_name, type, end_time, assignment_type, evaluation_status, is_open_evaluation, course_info, description, start_time) VALUES ";
const TAIL: &str = " ON CONFLICT(activity_id) DO UPDATE SET end_time = excluded.end_time, evaluation_status = excluded.evaluation_status";

#[test]
fn insert_statement_numbers_placeholders() {
    assert_eq!(insert_statement(1), format!("{}(?1, ?2, ?3, ?4, ?5, ?6, ?7, ?8, ?9, ?10){}", HEAD, TAIL));
    assert_eq!(
        insert_statement(2),
        format!("{}(?1, ?2, ?3, ?4, ?5, ?6, ?7, ?8, ?9, ?10),(?11, ?12, ?13, ?14, ?15, ?16, ?17, ?18, ?19, ?20){}", HEAD, TAIL)
    );
    assert!(select_statement().contains("json_each(?1)"));
}

#[test]
fn row_parameters_in_column_order() {
    let r = row_params(&item("a1"), &"{}".to_string());
    assert_eq!(r.len(), 10);
    assert!(matches!(&r[0], SqlValue::Text(s) if s == "a1"));
    assert!(matches!(&r[2], SqlValue::Int(3)));
    assert!(matches!(&r[6], SqlValue::Int(6)));
    assert!(matches!(&r[7], SqlValue::Text(s) if s == "{}"));
    assert!(matches!(&r[8], SqlValue::Text(s) if s.is_empty()));
    assert!(matches!(&r[9], SqlValue::Text(s) if s == "st"));
}

#[test]
fn upserts_are_batched() {
    let items: Vec<UndoneListItem> = (0..250).map(|i| item(&format!("i{}", i))).collect();
    let courses: Vec<String> = items.iter().map(|_| String::new()).collect();
    let b = save_activities_batch(&items, &courses, 100);
    assert_eq!(b.len(), 3);
    assert_eq!(b[0].rows.len(), 100);
    assert_eq!(b[2].rows.len(), 50);
    assert_eq!(b[2].sql, insert_statement(50));
    assert!(matches!(&b[1].rows[0][0], SqlValue::Text(s) if s == "i100"));
    assert!(save_activities_batch(&vec![], &vec![], 100).is_empty());
}

#[test]
fn membership_queries_are_batched() {
    let l = UndoneList { site_num: 1, undone_num: 3, undone_list: vec![item("a1"), item("a2"), item("a3")] };
    assert_eq!(query_params(&l, 2), vec!["[\"a1\",\"a2\"]".to_string(), "[\"a3\"]".to_string()]);
    let empty = UndoneList { site_num: 1, undone_num: 0, undone_list: vec![] };
    assert!(query_params(&empty, 100).is_empty());
}

#[test]
fn upstream_endpoints_and_details() {
    assert_eq!(undone_list_url("https://api"), "https://api/undoneList");
    assert_eq!(detail_url("https://api", "7"), "https://api/homework?id=7");
    let mut l = UndoneList { site_num: 1, undone_num: 2, undone_list: vec![item("a"), item("b")] };
    let details = vec![
        HomeworkDetail { assignment_content: "c1".to_string(), assignment_begin_time: "b1".to_string(), is_overtime_commit: 0 },
        HomeworkDetail { assignment_content: "c2".to_string(), assignment_begin_time: "b2".to_string(), is_overtime_commit: 1 },
    ];
    apply_details(&mut l, &details);
    assert_eq!(l.undone_list[0].description.as_deref(), Some("c1"));
    assert_eq!(l.undone_list[0].is_overtime_commit, Some(true));
    assert_eq!(l.undone_list[1].start_time.as_deref(), Some("b2"));
    assert_eq!(l.undone_list[1].is_overtime_commit, Some(false));
    assert_eq!(l.undone_list[1].activity_id, "b");
}

#[test]
fn requests_are_routed() {
    assert_eq!(route(false, Some("push")), Route::MethodNotAllowed);
    assert_eq!(route(true, Some("ping")), Route::Ping);
    assert_eq!(route(true, Some("push")), Route::Push);
    assert_eq!(route(true, Some("telegram")), Route::Telegram);
    assert_eq!(route(true, Some("auth")), Route::Auth);
    assert_eq!(route(true, Some("refresh")), Route::Refresh);
    assert_eq!(route(true, Some("other")), Route::NotFound);
    assert_eq!(route(true, None), Route::NotFound);
}

#[test]
fn chat_commands() {
    assert_eq!(telegram_reply(false, Some(1), 1, Some("/push")), Reply::NotAMessage);
    assert_eq!(telegram_reply(true, Some(2), 1, Some("/push")), Reply::Unauthorized);
    assert_eq!(telegram_reply(true, None, 1, Some("/push")), Reply::Unauthorized);
    assert_eq!(telegram_reply(true, Some(1), 1, None), Reply::NoText);
    assert_eq!(telegram_reply(true, Some(1), 1, Some("/push")), Reply::Push);
    assert_eq!(telegram_reply(true, Some(1), 1, Some("/clear")), Reply::Clear);
    assert_eq!(telegram_reply(true, Some(1), 1, Some("hi")), Reply::UnknownCommand);
}
