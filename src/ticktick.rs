//! The task-tracker sink: one task per new item, dated in UTC+8, and the
//! pieces of its one-time authorization flow.
use vstd::prelude::*;
use base64::prelude::BASE64_STANDARD;
use base64::Engine;
use chrono::{Datelike, Timelike};
use std::fmt::Write;
use crate::model::{Task, UndoneList, UndoneListItem, copy_opt_string};
use crate::text::{decimal, decimal_string};

verus! {

/// A wall-clock date and time, as read from the upstream source.
#[derive(PartialEq, Eq, Structural, Clone, Copy, Debug)]
pub struct Stamp {
    pub year: i32,
    pub month: u32,
    pub day: u32,
    pub hour: u32,
    pub minute: u32,
    pub second: u32,
    /// Nanoseconds past the second; a leap second shows here as a value of a
    /// billion or more.
    pub nanosecond: u32,
}

/// What `chrono`'s parser reads from `s` in the format `fmt`.
pub uninterp spec fn parsed_stamp(s: Seq<char>, fmt: Seq<char>) -> Option<Stamp>;

/// The offset of the task tracker's times from UTC: eight hours, in seconds.
pub const UTC8_OFFSET_SECS: i32 = 8 * 3600;

/// The ISO-8601 form that task times are written in.
pub open spec fn iso_format() -> Seq<char> {
    "%Y-%m-%dT%H:%M:%S%z"@
}

/// What `chrono` writes for the wall-clock time `st` placed at `offset_secs`
/// east of UTC, in the format `fmt`.
pub uninterp spec fn offset_iso(st: Stamp, offset_secs: i32, fmt: Seq<char>) -> Option<Seq<char>>;

/// Relies on `chrono::NaiveDateTime::parse_from_str`: the date and time that
/// `s` states in the format `fmt`, if it states one. Its fields form a valid
/// date and time, so one in the years 1 to 9999 can be placed at any offset
/// of less than a day and written in ISO-8601.
#[verifier::external_body]
fn parse_stamp(s: &str, fmt: &str) -> (r: Option<Stamp>)
    ensures
        r == parsed_stamp(s@, fmt@),
        r matches Some(st) ==> (1 <= st.year <= 9999 ==> forall|off: i32|
            -86400 < off < 86400 ==> (#[trigger] offset_iso(st, off, iso_format())) is Some),
{
    chrono::NaiveDateTime::parse_from_str(s, fmt).ok().map(|d| Stamp {
        year: d.year(),
        month: d.month(),
        day: d.day(),
        hour: d.hour(),
        minute: d.minute(),
        second: d.second(),
        nanosecond: d.nanosecond(),
    })
}

/// Relies on `chrono`: `NaiveDate::from_ymd_opt` and `and_hms_nano_opt` make
/// the wall-clock time, `FixedOffset::east_opt` and `and_local_timezone`
/// place it at the offset, and `DateTime::format` writes it; `None` when one
/// of these refuses or the format cannot be written.
#[verifier::external_body]
fn format_at_offset(st: &Stamp, offset_secs: i32, fmt: &str) -> (r: Option<String>)
    ensures
        r matches Some(s) ==> offset_iso(*st, offset_secs, fmt@) == Some(s@),
        r is None <==> offset_iso(*st, offset_secs, fmt@) is None,
{
    let naive = chrono::NaiveDate::from_ymd_opt(st.year, st.month, st.day)?
        .and_hms_nano_opt(st.hour, st.minute, st.second, st.nanosecond)?;
    let at = naive.and_local_timezone(chrono::FixedOffset::east_opt(offset_secs)?).single()?;
    let mut out = String::new();
    write!(out, "{}", at.format(fmt)).ok()?;
    Some(out)
}

/// The ISO-8601 time at UTC+8 of a time written as `s` in the format `fmt`.
pub open spec fn iso_of(s: Seq<char>, fmt: Seq<char>) -> Option<Seq<char>> {
    match parsed_stamp(s, fmt) {
        Some(st) => offset_iso(st, UTC8_OFFSET_SECS, iso_format()),
        None => None,
    }
}

/// `s` reads as a date and time in the format `fmt`, in the years 1 to 9999.
pub open spec fn ordinary_time(s: Seq<char>, fmt: Seq<char>) -> bool {
    parsed_stamp(s, fmt) matches Some(st) && 1 <= st.year <= 9999
}

/// The format of an item's start time.
pub open spec fn start_format() -> Seq<char> {
    "%Y-%m-%d %H:%M"@
}

/// The format of an item's end time.
pub open spec fn end_format() -> Seq<char> {
    "%Y-%m-%d %H:%M:%S"@
}

fn iso_time(s: &str, fmt: &str) -> (r: Option<String>)
    ensures
        r matches Some(t) ==> iso_of(s@, fmt@) == Some(t@),
        r is None <==> iso_of(s@, fmt@) is None,
        ordinary_time(s@, fmt@) ==> r is Some,
{
    proof {
        reveal_strlit("%Y-%m-%dT%H:%M:%S%z");
    }
    match parse_stamp(s, fmt) {
        Some(st) => format_at_offset(&st, UTC8_OFFSET_SECS, "%Y-%m-%dT%H:%M:%S%z"),
        None => None,
    }
}

/// The view of an optional string.
pub open spec fn opt_view(o: Option<String>) -> Option<Seq<char>> {
    match o {
        Some(s) => Some(s@),
        None => None,
    }
}

/// The content of an item's task: with a course, its name, its teachers and
/// the description; without one, the description as it is.
pub open spec fn task_content(item: UndoneListItem) -> Option<Seq<char>> {
    match item.course_info {
        Some(ci) => Some(
            "课程："@ + ci.name@ + "\n教师："@ + ci.teachers@ + "\n\n"@ + match item.description {
                Some(d) => d@,
                None => Seq::empty(),
            } + "\n"@,
        ),
        None => opt_view(item.description),
    }
}

/// The task for `item` in project `project_id`, given its start and due times
/// already written in ISO-8601.
pub fn task_from_dates(item: &UndoneListItem, project_id: &String, start: String, due: String) -> (t: Task)
    ensures
        t.title@ == item.activity_name@,
        t.project_id@ == project_id@,
        t.start_date == Some(start),
        t.due_date == Some(due),
        opt_view(t.content) == task_content(*item),
{
    let content = match &item.course_info {
        Some(ci) => {
            let mut c = String::from_str("课程：");
            c.append(ci.name.as_str());
            c.append("\n教师：");
            c.append(ci.teachers.as_str());
            c.append("\n\n");
            match &item.description {
                Some(d) => c.append(d.as_str()),
                None => {},
            }
            c.append("\n");
            Some(c)
        },
        None => copy_opt_string(&item.description),
    };
    proof {
        if item.course_info is Some {
            let ci = item.course_info->0;
            assert(content->0@ =~= task_content(*item)->0);
        }
    }
    Task {
        title: item.activity_name.clone(),
        project_id: project_id.clone(),
        start_date: Some(start),
        due_date: Some(due),
        content,
    }
}

/// Why an authorization callback is refused.
#[derive(PartialEq, Eq, Structural, Clone, Copy, Debug)]
pub enum AuthError {
    /// No login was started: no state was stored.
    StateNotFound,
    /// The callback's state is not the stored one.
    StateMismatch,
}

/// Checks an authorization callback's `state` against the one stored when the
/// login link was sent.
pub fn check_state(saved: &Option<String>, state: &String) -> (r: Result<(), AuthError>)
    ensures
        saved is None ==> r == Err::<(), AuthError>(AuthError::StateNotFound),
        saved matches Some(s) ==> (r is Ok <==> s@ == state@),
        saved matches Some(s) ==> (s@ != state@ ==> r == Err::<(), AuthError>(AuthError::StateMismatch)),
{
    match saved {
        Some(s) => if *s == *state {
            Ok(())
        } else {
            Err(AuthError::StateMismatch)
        },
        None => Err(AuthError::StateNotFound),
    }
}

/// The standard base64 encoding of the UTF-8 bytes of a string.
pub uninterp spec fn base64_of(s: Seq<char>) -> Seq<char>;

/// Relies on `base64`'s `STANDARD` engine: the padded standard encoding of the
/// UTF-8 bytes of `s`.
#[verifier::external_body]
fn base64_encode(s: &str) -> (r: String)
    ensures
        r@ == base64_of(s@),
{
    BASE64_STANDARD.encode(s)
}

/// A task-tracker sink: the OAuth client, the target project, and the access
/// token once authorization is done.
pub struct TickTick {
    client_id: String,
    client_secret: String,
    project_id: String,
    pub access_token: Option<String>,
}

impl TickTick {
    /// The OAuth client identifier.
    pub closed spec fn client_id_view(&self) -> Seq<char> {
        self.client_id@
    }

    /// The OAuth client secret.
    pub closed spec fn client_secret_view(&self) -> Seq<char> {
        self.client_secret@
    }

    /// The project that tasks go to.
    pub closed spec fn project_view(&self) -> Seq<char> {
        self.project_id@
    }

    /// The stored access token.
    pub closed spec fn token_view(&self) -> Option<String> {
        self.access_token
    }

    /// A sink for the given client and project, with the stored access token.
    pub fn new(
        client_id: String,
        client_secret: String,
        project_id: String,
        access_token: Option<String>,
    ) -> (r: Self)
        ensures
            r.client_id_view() == client_id@,
            r.client_secret_view() == client_secret@,
            r.project_view() == project_id@,
            r.token_view() == access_token,
    {
        Self { client_id, client_secret, project_id, access_token }
    }

    /// Whether tasks can be created: only once an access token is stored;
    /// before that the user is to be sent the login link instead.
    pub fn needs_login(&self) -> (r: bool)
        ensures
            r == self.token_view() is None,
    {
        self.access_token.is_none()
    }

    /// The authorization link, carrying `state` and `redirect_uri`.
    pub fn login_url(&self, state: u64, redirect_uri: &str) -> (r: String)
        ensures
            r@ == "https://dida365.com/oauth/authorize?scope=tasks:write,tasks:read&client_id="@
                + self.client_id_view() + "&state="@ + decimal(state as nat) + "&redirect_uri="@
                + redirect_uri@ + "&response_type=code"@,
    {
        let mut u = String::from_str(
            "https://dida365.com/oauth/authorize?scope=tasks:write,tasks:read&client_id=",
        );
        u.append(self.client_id.as_str());
        u.append("&state=");
        let s = decimal_string(state);
        u.append(s.as_str());
        u.append("&redirect_uri=");
        u.append(redirect_uri);
        u.append("&response_type=code");
        u
    }

    /// The chat message that carries the authorization link.
    pub fn login_message(&self, state: u64, redirect_uri: &str) -> (r: String)
        ensures
            r@ == "请点击链接登录滴答清单："@ + "https://dida365.com/oauth/authorize?scope=tasks:write,tasks:read&client_id="@
                + self.client_id_view() + "&state="@ + decimal(state as nat) + "&redirect_uri="@
                + redirect_uri@ + "&response_type=code"@,
    {
        let mut m = String::from_str("请点击链接登录滴答清单：");
        let u = self.login_url(state, redirect_uri);
        m.append(u.as_str());
        m
    }

    /// The `Authorization` header of the token request: the client's
    /// credentials in base64.
    pub fn basic_authorization(&self) -> (r: String)
        ensures
            r@ == "Basic "@ + base64_of(self.client_id_view() + ":"@ + self.client_secret_view()),
    {
        let mut cred = self.client_id.clone();
        cred.append(":");
        cred.append(self.client_secret.as_str());
        let mut h = String::from_str("Basic ");
        let enc = base64_encode(cred.as_str());
        h.append(enc.as_str());
        h
    }

    /// The form body that trades the authorization `code` for a token.
    pub fn token_request_body(code: &str, redirect_uri: &str) -> (r: String)
        ensures
            r@ == "code="@ + code@ + "&grant_type=authorization_code&scope=tasks:write,tasks:read&redirect_uri="@
                + redirect_uri@,
    {
        let mut b = String::from_str("code=");
        b.append(code);
        b.append("&grant_type=authorization_code&scope=tasks:write,tasks:read&redirect_uri=");
        b.append(redirect_uri);
        b
    }

    /// The `Authorization` header for API calls; `None` without a token.
    pub fn bearer(&self) -> (r: Option<String>)
        ensures
            r is None <==> self.token_view() is None,
            r matches Some(h) ==> h@ == "Bearer "@ + self.token_view()->0@,
    {
        match &self.access_token {
            Some(t) => {
                let mut h = String::from_str("Bearer ");
                h.append(t.as_str());
                Some(h)
            },
            None => None,
        }
    }

    /// The task for `item`: its name as title, this sink's project, and its
    /// start and end times in ISO-8601 at UTC+8. `None` when the item has no
    /// start time or a time does not parse.
    pub fn task_for(&self, item: &UndoneListItem) -> (r: Option<Task>)
        ensures
            r is Some <==> item.start_time is Some && iso_of(item.start_time->0@, start_format()) is Some
                && iso_of(item.end_time@, end_format()) is Some,
            r matches Some(t) ==> t.title@ == item.activity_name@ && t.project_id@ == self.project_view()
                && opt_view(t.start_date) == iso_of(item.start_time->0@, start_format())
                && opt_view(t.due_date) == iso_of(item.end_time@, end_format())
                && opt_view(t.content) == task_content(*item),
            ordinary_times(*item) ==> r is Some,
    {
        proof {
            reveal_strlit("%Y-%m-%d %H:%M");
            reveal_strlit("%Y-%m-%d %H:%M:%S");
        }
        let start = match &item.start_time {
            Some(s) => s,
            None => return None,
        };
        let start_iso = match iso_time(start.as_str(), "%Y-%m-%d %H:%M") {
            Some(t) => t,
            None => return None,
        };
        let due_iso = match iso_time(item.end_time.as_str(), "%Y-%m-%d %H:%M:%S") {
            Some(t) => t,
            None => return None,
        };
        Some(task_from_dates(item, &self.project_id, start_iso, due_iso))
    }

    /// Decides the sink's step for the new items: without an access token the
    /// user is sent the login link and no task is attempted; with one, a task
    /// is made for every item, or none when one of them cannot be made.
    pub fn next_step(&self, list: &UndoneList) -> (r: TaskStep)
        ensures
            self.token_view() is None <==> r is SendLoginLink,
            self.token_view() is Some ==> (r is Unusable <==> exists|i: int|
                0 <= i < list.undone_list@.len() && !task_possible(#[trigger] list.undone_list@[i])),
            r matches TaskStep::CreateTasks(ts) ==> ts@.len() == list.undone_list@.len() && forall|i: int|
                0 <= i < ts@.len() ==> #[trigger] task_matches(
                    ts@[i],
                    list.undone_list@[i],
                    self.project_view(),
                ),
            self.token_view() is Some && (forall|i: int|
                0 <= i < list.undone_list@.len() ==> ordinary_times(#[trigger] list.undone_list@[i]))
                ==> r is CreateTasks,
    {
        if self.needs_login() {
            return TaskStep::SendLoginLink;
        }
        match self.tasks_for(list) {
            Some(ts) => TaskStep::CreateTasks(ts),
            None => TaskStep::Unusable,
        }
    }

    /// The tasks for the items of `list`, one per item and in order; `None`
    /// when one of them cannot be made.
    pub fn tasks_for(&self, list: &UndoneList) -> (r: Option<Vec<Task>>)
        ensures
            r is None <==> exists|i: int|
                0 <= i < list.undone_list@.len() && !task_possible(#[trigger] list.undone_list@[i]),
            (forall|i: int| 0 <= i < list.undone_list@.len() ==> ordinary_times(#[trigger] list.undone_list@[i]))
                ==> r is Some,
            r matches Some(ts) ==> ts@.len() == list.undone_list@.len() && forall|i: int|
                0 <= i < ts@.len() ==> #[trigger] task_matches(
                    ts@[i],
                    list.undone_list@[i],
                    self.project_view(),
                ),
    {
        let items = &list.undone_list;
        let mut ts: Vec<Task> = Vec::new();
        let mut i: usize = 0;
        while i < items.len()
            invariant
                items@ == list.undone_list@,
                i <= items@.len(),
                ts@.len() == i,
                forall|j: int|
                    0 <= j < i ==> #[trigger] task_matches(ts@[j], items@[j], self.project_view()),
                forall|j: int| 0 <= j < i ==> task_possible(#[trigger] items@[j]),
            decreases items@.len() - i,
        {
            match self.task_for(&items[i]) {
                Some(t) => ts.push(t),
                None => {
                    assert(!task_possible(items@[i as int]));
                    assert(!ordinary_times(items@[i as int]));
                    return None;
                },
            }
            i += 1;
        }
        Some(ts)
    }
}

/// What the task-tracker sink does with the new items.
pub enum TaskStep {
    /// No access token yet: send the login link through the chat instead.
    SendLoginLink,
    /// Create these tasks, one per item and in order.
    CreateTasks(Vec<Task>),
    /// Some item cannot become a task.
    Unusable,
}

/// The start and end times of `item` read as ordinary dates in their formats.
pub open spec fn ordinary_times(item: UndoneListItem) -> bool {
    &&& item.start_time is Some
    &&& ordinary_time(item.start_time->0@, start_format())
    &&& ordinary_time(item.end_time@, end_format())
}

/// Whether a task can be made for `item`.
pub open spec fn task_possible(item: UndoneListItem) -> bool {
    item.start_time is Some && iso_of(item.start_time->0@, start_format()) is Some && iso_of(
        item.end_time@,
        end_format(),
    ) is Some
}

/// `t` is the task for `item` in the project `project`.
pub open spec fn task_matches(t: Task, item: UndoneListItem, project: Seq<char>) -> bool {
    &&& t.title@ == item.activity_name@
    &&& t.project_id@ == project
    &&& opt_view(t.start_date) == iso_of(item.start_time->0@, start_format())
    &&& opt_view(t.due_date) == iso_of(item.end_time@, end_format())
    &&& opt_view(t.content) == task_content(item)
}

/// The identifier of the project named `name` among `(name, id)` pairs, cut
/// to 32 bits; `None` when no project has that name.
pub fn find_project(projects: &Vec<(String, i64)>, name: &String) -> (r: Option<i32>)
    ensures
        r is None <==> forall|i: int| 0 <= i < projects@.len() ==> #[trigger] projects@[i].0@ != name@,
        r matches Some(id) ==> exists|i: int|
            0 <= i < projects@.len() && #[trigger] projects@[i].0@ == name@ && id == projects@[i].1 as i32
                && forall|j: int| 0 <= j < i ==> projects@[j].0@ != name@,
{
    let mut i: usize = 0;
    while i < projects.len()
        invariant
            i <= projects@.len(),
            forall|j: int| 0 <= j < i ==> #[trigger] projects@[j].0@ != name@,
        decreases projects@.len() - i,
    {
        if projects[i].0 == *name {
            return Some(projects[i].1 as i32);
        }
        i += 1;
    }
    None
}

} // verus!
