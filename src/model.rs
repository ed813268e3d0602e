//! The records handed around by one run: what the upstream source lists and
//! what the task tracker is given.
use vstd::prelude::*;

verus! {

/// A homework note: an identifier and its text.
pub struct Homework {
    pub id: String,
    pub info: String,
}

/// The course an assignment belongs to.
pub struct CourseInfo {
    pub id: String,
    pub name: String,
    pub teachers: String,
}

impl Clone for CourseInfo {
    fn clone(&self) -> (r: Self)
        ensures
            r == *self,
    {
        CourseInfo { id: self.id.clone(), name: self.name.clone(), teachers: self.teachers.clone() }
    }
}

/// Copies an optional string; the copy equals its source.
pub fn copy_opt_string(s: &Option<String>) -> (r: Option<String>)
    ensures
        r == *s,
{
    match s {
        Some(v) => Some(v.clone()),
        None => None,
    }
}

/// One outstanding assignment, identified by `activity_id`.
pub struct UndoneListItem {
    pub site_id: i32,
    pub site_name: String,
    pub activity_name: String,
    pub activity_id: String,
    pub kind: i32,
    pub end_time: String,
    pub assignment_type: i32,
    pub evaluation_status: i32,
    pub is_open_evaluation: i32,
    pub course_info: Option<CourseInfo>,
    pub description: Option<String>,
    pub start_time: Option<String>,
    pub is_overtime_commit: Option<bool>,
}

impl Clone for UndoneListItem {
    fn clone(&self) -> (r: Self)
        ensures
            r == *self,
    {
        UndoneListItem {
            site_id: self.site_id,
            site_name: self.site_name.clone(),
            activity_name: self.activity_name.clone(),
            activity_id: self.activity_id.clone(),
            kind: self.kind,
            end_time: self.end_time.clone(),
            assignment_type: self.assignment_type,
            evaluation_status: self.evaluation_status,
            is_open_evaluation: self.is_open_evaluation,
            course_info: match &self.course_info {
                Some(c) => Some(c.clone()),
                None => None,
            },
            description: copy_opt_string(&self.description),
            start_time: copy_opt_string(&self.start_time),
            is_overtime_commit: self.is_overtime_commit,
        }
    }
}

/// The identifiers of a sequence of items, in order.
pub open spec fn ids_of(items: Seq<UndoneListItem>) -> Seq<Seq<char>> {
    items.map_values(|it: UndoneListItem| it.activity_id@)
}

/// What one fetch returns: the site count, the item count and the items.
pub struct UndoneList {
    pub site_num: i32,
    pub undone_num: i32,
    pub undone_list: Vec<UndoneListItem>,
}

/// A task to create in the task tracker.
pub struct Task {
    pub title: String,
    pub project_id: String,
    pub start_date: Option<String>,
    pub due_date: Option<String>,
    pub content: Option<String>,
}

/// A file attached to an assignment.
pub struct Resource {
    pub resource_id: String,
    pub resource_name: String,
    pub resource_type: String,
}

/// A stored file referenced from an assignment's detail.
pub struct ResourceDetail {
    pub storage_id: String,
    pub name: String,
    pub ext: String,
    pub id: String,
}

} // verus!
