//! Assignments as the course service hands them over.
use vstd::prelude::*;

use crate::timestamp::Timestamp;

verus! {

/// An assignment of a course, as the course service lists it.
#[derive(Clone, Debug)]
pub struct Assignment {
    pub id: String,
    pub name: String,
    /// The assignment's text, in HTML.
    pub description: Option<String>,
    pub due_at: Timestamp,
    pub html_url: String,
    /// Whether the assignment has been handed in.
    pub submitted: bool,
}

pub struct AssignmentView {
    pub id: Seq<char>,
    pub name: Seq<char>,
    pub description: Option<Seq<char>>,
    pub due_at: Timestamp,
    pub html_url: Seq<char>,
    pub submitted: bool,
}

impl View for Assignment {
    type V = AssignmentView;

    open spec fn view(&self) -> AssignmentView {
        AssignmentView {
            id: self.id@,
            name: self.name@,
            description: match self.description {
                Some(d) => Some(d@),
                None => None,
            },
            due_at: self.due_at,
            html_url: self.html_url@,
            submitted: self.submitted,
        }
    }
}

impl Assignment {
    /// Whether the assignment has been handed in: the card's completion flag.
    pub fn submitted(&self) -> (r: bool)
        ensures
            r == self.submitted,
    {
        self.submitted
    }
}

} // verus!
