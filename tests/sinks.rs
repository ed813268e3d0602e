use ucloud_notify::lark::Lark;
use ucloud_notify::model::{CourseInfo, UndoneList, UndoneListItem};
use ucloud_notify::telegram::{filter_and_extract_image, item_message, sanitize_tokens, HtmlToken, Telegram};
use ucloud_notify::text::decimal_string;
use ucloud_notify::ticktick::{check_state, find_project, task_from_dates, AuthError, TaskStep, TickTick};

fn item(id: &str, course: bool) -> UndoneListItem {
    UndoneListItem {
        site_id: 1,
        site_name: "site".to_string(),
        activity_name: "HW1".to_string(),
        activity_id: id.to_string(),
        kind: 0,
        end_time: "2024-03-05 23:59:59".to_string(),
        assignment_type: 0,
        evaluation_status: 0,
        is_open_evaluation: 0,
        course_info: if course {
            Some(CourseInfo { id: "c".to_string(), name: "Math".to_string(), teachers: "Li".to_string() })
        } else {
            None
        },
        description: Some("<p>Read <b>ch 3</b><img src=\"x.png\"></p>".to_string()),
        start_time: Some("2024-03-01 08:00".to_string()),
        is_overtime_commit: Some(true),
    }
}

#[test]
fn decimal_numerals() {
    assert_eq!(decimal_string(0), "0");
    assert_eq!(decimal_string(7), "7");
    assert_eq!(decimal_string(10), "10");
    assert_eq!(decimal_string(18446744073709551615), "18446744073709551615");
}

#[test]
fn lark_counts_items() {
    let lark = Lark::new("k=v".to_string());
    let l = UndoneList { site_num: 1, undone_num: 3, undone_list: vec![item("a", true), item("b", true), item("c", false)] };
    assert_eq!(lark.description(&l), "拼尽全力仍有 3 个DDL");
    assert_eq!(lark.cookie(), "k=v");
}

#[test]
fn html_is_cut_to_allowed_tags() {
    let (text, images) = filter_and_extract_image("<p>Read <b>ch 3</b><img src=\"x.png\"></p><div>x</div><br>").unwrap();
    assert_eq!(text, "Read <b>ch 3</b>\nx");
    assert_eq!(images, vec!["x.png".to_string()]);
}

#[test]
fn html_comment_is_refused() {
    assert!(filter_and_extract_image("a<!-- c -->b").is_none());
}

#[test]
fn sanitize_given_tokens() {
    let tokens = vec![
        HtmlToken::StartTag("i".to_string(), None),
        HtmlToken::Char('x'),
        HtmlToken::EndTag("i".to_string()),
        HtmlToken::EndTag("br".to_string()),
        HtmlToken::StartTag("img".to_string(), Some("u".to_string())),
        HtmlToken::EndOfFile,
    ];
    let (text, images) = sanitize_tokens(&tokens).unwrap();
    assert_eq!(text, "<i>x</i>\n");
    assert_eq!(images, vec!["u".to_string()]);
    assert!(sanitize_tokens(&vec![HtmlToken::Other]).is_none());
}

#[test]
fn message_with_course_and_detail() {
    let m = item_message(&item("a", true), "  Read <b>ch 3</b>\n ").unwrap();
    assert_eq!(
        m,
        "<b>❤️小助手提醒你写作业啦！</b>\n\n<b>课程</b>：Math\n<b>作业</b>：HW1\n<b>开始时间</b>：2024-03-01 08:00\n<b>结束时间</b>：2024-03-05 23:59:59\n<b>能否补交</b>：能\n\n<b>详细：</b>\n\nRead <b>ch 3</b>"
    );
}

#[test]
fn message_without_course_or_detail() {
    let mut it = item("a", false);
    it.is_overtime_commit = Some(false);
    let m = item_message(&it, " \n ").unwrap();
    assert_eq!(
        m,
        "<b>❤️小助手提醒你写作业啦！</b>\n\n<b>作业</b>：HW1\n<b>开始时间</b>：2024-03-01 08:00\n<b>结束时间</b>：2024-03-05 23:59:59\n<b>能否补交</b>：否"
    );
    it.start_time = None;
    assert!(item_message(&it, "").is_none());
}

#[test]
fn telegram_posts_per_item() {
    let bot = Telegram::new("TOKEN".to_string(), "42".to_string());
    assert_eq!(bot.send_message_url(), "https://api.telegram.org/botTOKEN/sendMessage");
    assert_eq!(bot.send_media_group_url(), "https://api.telegram.org/botTOKEN/sendMediaGroup");
    assert_eq!(bot.chat_id(), "42");
    let l = UndoneList { site_num: 1, undone_num: 2, undone_list: vec![item("a", true), item("b", false)] };
    let posts = bot.render(&l).unwrap();
    assert_eq!(posts.len(), 2);
    assert_eq!(posts[0].image_urls, vec!["x.png".to_string()]);
    assert!(posts[0].text.ends_with("\n\n<b>详细：</b>\n\nRead <b>ch 3</b>"));
    assert!(posts[1].text.contains("<b>作业</b>：HW1"));
    assert!(!posts[1].text.contains("课程"));
}

#[test]
fn ticktick_task_dates_in_utc8() {
    let tt = TickTick::new("id".to_string(), "secret".to_string(), "proj".to_string(), Some("tok".to_string()));
    let t = tt.task_for(&item("a", true)).unwrap();
    assert_eq!(t.title, "HW1");
    assert_eq!(t.project_id, "proj");
    assert_eq!(t.start_date.as_deref(), Some("2024-03-01T08:00:00+0800"));
    assert_eq!(t.due_date.as_deref(), Some("2024-03-05T23:59:59+0800"));
    assert_eq!(
        t.content.as_deref(),
        Some("课程：Math\n教师：Li\n\n<p>Read <b>ch 3</b><img src=\"x.png\"></p>\n")
    );
    let mut bad = item("b", false);
    bad.end_time = "soon".to_string();
    assert!(tt.task_for(&bad).is_none());
    let l = UndoneList { site_num: 1, undone_num: 2, undone_list: vec![item("a", true), bad] };
    assert!(tt.tasks_for(&l).is_none());
}

#[test]
fn task_content_without_course() {
    let it = item("a", false);
    let t = task_from_dates(&it, &"p".to_string(), "s".to_string(), "d".to_string());
    assert_eq!(t.content, it.description);
    assert_eq!(t.start_date, Some("s".to_string()));
    assert_eq!(t.due_date, Some("d".to_string()));
}

#[test]
fn ticktick_authorization_pieces() {
    let tt = TickTick::new("id".to_string(), "secret".to_string(), "proj".to_string(), None);
    assert!(tt.needs_login());
    assert_eq!(tt.bearer(), None);
    assert_eq!(tt.basic_authorization(), "Basic aWQ6c2VjcmV0");
    assert_eq!(
        tt.login_url(12345, "https://x/auth"),
        "https://dida365.com/oauth/authorize?scope=tasks:write,tasks:read&client_id=id&state=12345&redirect_uri=https://x/auth&response_type=code"
    );
    assert!(tt.login_message(1, "r").starts_with("请点击链接登录滴答清单：https://dida365.com/oauth/authorize?"));
    assert_eq!(
        TickTick::token_request_body("C", "R"),
        "code=C&grant_type=authorization_code&scope=tasks:write,tasks:read&redirect_uri=R"
    );
    let with = TickTick::new("id".to_string(), "s".to_string(), "p".to_string(), Some("tok".to_string()));
    assert_eq!(with.bearer(), Some("Bearer tok".to_string()));
    assert!(!with.needs_login());
}

#[test]
fn state_check() {
    assert_eq!(check_state(&None, &"1".to_string()), Err(AuthError::StateNotFound));
    assert_eq!(check_state(&Some("1".to_string()), &"2".to_string()), Err(AuthError::StateMismatch));
    assert_eq!(check_state(&Some("1".to_string()), &"1".to_string()), Ok(()));
}

#[test]
fn project_lookup() {
    let ps = vec![("A".to_string(), 7i64), ("B".to_string(), 4294967298i64), ("B".to_string(), 1)];
    assert_eq!(find_project(&ps, &"A".to_string()), Some(7));
    assert_eq!(find_project(&ps, &"B".to_string()), Some(2));
    assert_eq!(find_project(&ps, &"C".to_string()), None);
}

#[test]
fn ticktick_step_depends_on_token() {
    let l = UndoneList { site_num: 1, undone_num: 1, undone_list: vec![item("a", true)] };
    let without = TickTick::new("id".to_string(), "s".to_string(), "p".to_string(), None);
    assert!(matches!(without.next_step(&l), TaskStep::SendLoginLink));
    let with = TickTick::new("id".to_string(), "s".to_string(), "p".to_string(), Some("t".to_string()));
    match with.next_step(&l) {
        TaskStep::CreateTasks(ts) => {
            assert_eq!(ts.len(), 1);
            assert_eq!(ts[0].due_date.as_deref(), Some("2024-03-05T23:59:59+0800"));
        }
        _ => panic!("expected tasks"),
    }
    let mut bad = item("b", false);
    bad.start_time = Some("later".to_string());
    let l2 = UndoneList { site_num: 1, undone_num: 1, undone_list: vec![bad] };
    assert!(matches!(with.next_step(&l2), TaskStep::Unusable));
}

#[test]
fn leap_second_is_kept() {
    let tt = TickTick::new("id".to_string(), "s".to_string(), "p".to_string(), Some("t".to_string()));
    let mut it = item("a", false);
    it.end_time = "2016-12-31 23:59:60".to_string();
    let t = tt.task_for(&it).unwrap();
    assert_eq!(t.due_date.as_deref(), Some("2016-12-31T23:59:60+0800"));
}
