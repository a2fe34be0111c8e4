//! The page controller's query data: which action a request asks of a
//! page, and how that action is rendered back into a query string.

use vstd::prelude::*;

verus! {

use vstd::string::StringExecFns;

/// The `action` query parameter of a page request, if any.
#[derive(Debug, Clone, Copy)]
pub struct Action {
    pub kind: Option<ActionKind>,
}

impl Action {
    /// Renders this action back into a query fragment: empty when no
    /// action was asked for.
    pub fn into_query(self) -> (r: String)
        ensures
            r@ == (match self.kind {
                Some(a) => "?action="@ + a.spec_text(),
                None => Seq::<char>::empty(),
            }),
    {
        match self.kind {
            Some(a) => String::from_str("?action=").concat(a.as_text()),
            None => String::new(),
        }
    }
}

/// What a page request asks for; viewing is the default.
#[derive(Debug, Clone, Copy, PartialEq, Eq, Structural)]
pub enum ActionKind {
    View,
    Edit,
    Submit,
}

impl Default for ActionKind {
    fn default() -> (r: Self)
        ensures
            r == ActionKind::View,
    {
        ActionKind::View
    }
}

impl ActionKind {
    /// The text of this action in a query string.
    pub open spec fn spec_text(self) -> Seq<char> {
        match self {
            ActionKind::View => "view"@,
            ActionKind::Submit => "submit"@,
            ActionKind::Edit => "edit"@,
        }
    }

    pub fn as_text(&self) -> (r: &'static str)
        ensures
            r@ == self.spec_text(),
    {
        match self {
            ActionKind::View => "view",
            ActionKind::Submit => "submit",
            ActionKind::Edit => "edit",
        }
    }
}

/// What a page edit form submits: the new content.
#[derive(Debug, Clone)]
pub struct EditPage {
    pub content: String,
}

} // verus!
