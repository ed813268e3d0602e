//! The status sink: a profile description that states how many assignments
//! are outstanding.
use vstd::prelude::*;
use crate::model::UndoneList;
use crate::text::{decimal, decimal_string};

verus! {

/// The status text for `n` outstanding assignments.
pub open spec fn lark_description(n: nat) -> Seq<char> {
    "拼尽全力仍有 "@ + decimal(n) + " 个DDL"@
}

/// A status sink authenticated by a session cookie.
pub struct Lark {
    cookie: String,
}

impl Lark {
    /// The session cookie.
    pub closed spec fn cookie_view(&self) -> Seq<char> {
        self.cookie@
    }

    /// A sink that authenticates with `cookie`.
    pub fn new(cookie: String) -> (r: Self)
        ensures
            r.cookie_view() == cookie@,
    {
        Self { cookie }
    }

    /// The session cookie.
    pub fn cookie(&self) -> (r: &str)
        ensures
            r@ == self.cookie_view(),
    {
        self.cookie.as_str()
    }

    /// The status text for a fetched list: the number of its items.
    pub fn description(&self, list: &UndoneList) -> (r: String)
        ensures
            r@ == lark_description(list.undone_list@.len()),
    {
        let mut s = String::from_str("拼尽全力仍有 ");
        let n = decimal_string(list.undone_list.len() as u64);
        s.append(n.as_str());
        s.append(" 个DDL");
        s
    }
}

} // verus!
