//! The tracker-agnostic issue record and the capability interface that each
//! tracker backend offers: paginated listing and single-issue creation.

use vstd::prelude::*;

verus! {

/// One normalized tracker issue: its tracker-assigned number, its title,
/// and its state (`"open"` or `"closed"`).
#[derive(Clone, Debug, PartialEq, Eq)]
pub struct Issue {
    pub number: i64,
    pub title: String,
    pub state: String,
}

pub ghost struct IssueView {
    pub number: int,
    pub title: Seq<char>,
    pub state: Seq<char>,
}

impl View for Issue {
    type V = IssueView;

    open spec fn view(&self) -> IssueView {
        IssueView { number: self.number as int, title: self.title@, state: self.state@ }
    }
}

impl DeepView for Issue {
    type V = IssueView;

    open spec fn deep_view(&self) -> IssueView {
        self.view()
    }
}

impl Issue {
    /// A structurally equal copy, usable in verified code (the derived
    /// `Clone` carries no specification).
    pub fn duplicate(&self) -> (r: Issue)
        ensures
            r@ == self@,
    {
        Issue { number: self.number, title: self.title.clone(), state: self.state.clone() }
    }
}

/// The uniform tracker interface. The two backends perform HTTP, so the
/// callers that drive a run implement this outside the verified library,
/// on top of the verified request-building and response-normalizing
/// functions here.
pub trait IssueAPI {
    fn get_issues(&self) -> Option<Vec<Issue>>;

    fn get_closed_issues(&self) -> Option<Vec<Issue>>;

    fn create_issue(&self, title: &str) -> Option<Issue>;

    fn repo(&self) -> String;
}

} // verus!
