//! The rows this core fills for the page store: a new page pointing at
//! its first revision, and content bodies. Queries and inserts belong
//! to the external store.

use vstd::prelude::*;

verus! {

use crate::output::Body;

/// A page row to be inserted: its title and the revision it shows. A
/// fresh page's root revision is the revision it is created with.
pub struct NewPage<'a> {
    pub title: &'a str,
    pub rev_id: i64,
    pub root_id: i64,
}

impl<'a> NewPage<'a> {
    pub fn new(title: &'a str, rev_id: i64) -> (p: NewPage<'a>)
        ensures
            p.title@ == title@,
            p.rev_id == rev_id,
            p.root_id == rev_id,
    {
        NewPage { title, rev_id, root_id: rev_id }
    }
}

/// A stored content row: its identifier and its body.
pub struct Content {
    pub id: i64,
    pub body: Body,
}

/// A content row to be inserted.
pub struct NewContent {
    pub body: Body,
}

} // verus!
