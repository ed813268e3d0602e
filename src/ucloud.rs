//! The upstream source: where its lists and details are found, and how a
//! detail completes an item.
use vstd::prelude::*;
use crate::model::{UndoneList, UndoneListItem};

verus! {

/// The parts of an assignment's detail that complete an item.
pub struct HomeworkDetail {
    pub assignment_content: String,
    pub assignment_begin_time: String,
    pub is_overtime_commit: i32,
}

/// The endpoint listing the outstanding assignments.
pub fn undone_list_url(api_url: &str) -> (r: String)
    ensures
        r@ == api_url@ + "/undoneList"@,
{
    let mut u = String::from_str(api_url);
    u.append("/undoneList");
    u
}

/// The endpoint of one assignment's detail.
pub fn detail_url(api_url: &str, id: &str) -> (r: String)
    ensures
        r@ == api_url@ + "/homework?id="@ + id@,
{
    let mut u = String::from_str(api_url);
    u.append("/homework?id=");
    u.append(id);
    u
}

/// `after` is `before` completed by `d`: its description and start time come
/// from the detail, late submission is allowed when the detail's flag is zero,
/// and every other field is kept.
pub open spec fn completed_by(before: UndoneListItem, after: UndoneListItem, d: HomeworkDetail) -> bool {
    after == UndoneListItem {
        description: Some(d.assignment_content),
        start_time: Some(d.assignment_begin_time),
        is_overtime_commit: Some(d.is_overtime_commit == 0),
        ..before
    }
}

/// Completes `item` with its detail.
pub fn apply_detail(item: &mut UndoneListItem, detail: &HomeworkDetail)
    ensures
        completed_by(*old(item), *final(item), *detail),
{
    item.description = Some(detail.assignment_content.clone());
    item.start_time = Some(detail.assignment_begin_time.clone());
    item.is_overtime_commit = Some(detail.is_overtime_commit == 0);
}

/// Completes every item of `list` with the detail at the same position; the
/// counts are kept. `details` must hold one detail per item.
pub fn apply_details(list: &mut UndoneList, details: &Vec<HomeworkDetail>)
    requires
        details@.len() == old(list).undone_list@.len(),
    ensures
        final(list).site_num == old(list).site_num,
        final(list).undone_num == old(list).undone_num,
        final(list).undone_list@.len() == old(list).undone_list@.len(),
        forall|i: int|
            0 <= i < details@.len() ==> #[trigger] completed_by(
                old(list).undone_list@[i],
                final(list).undone_list@[i],
                details@[i],
            ),
{
    let ghost start = list.undone_list@;
    let n = list.undone_list.len();
    let mut i: usize = 0;
    while i < n
        invariant
            n == start.len(),
            details@.len() == n,
            i <= n,
            list.site_num == old(list).site_num,
            list.undone_num == old(list).undone_num,
            list.undone_list@.len() == n,
            start == old(list).undone_list@,
            forall|j: int| 0 <= j < i ==> #[trigger] completed_by(start[j], list.undone_list@[j], details@[j]),
            forall|j: int| i <= j < n ==> #[trigger] list.undone_list@[j] == start[j],
        decreases n - i,
    {
        let mut item = list.undone_list[i].clone();
        apply_detail(&mut item, &details[i]);
        list.undone_list.set(i, item);
        i += 1;
    }
}

} // verus!
