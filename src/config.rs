//! The settings of a run: which board, which list, which courses.
use vstd::prelude::*;

verus! {

#[verifier::external_type_specification]
#[verifier::external_body]
pub struct ExUrl(url::Url);

/// The settings of a run.
#[derive(Debug)]
pub struct Config {
    pub trello: Trello,
    pub canvas: Canvas,
    pub mapping: Vec<Mapping>,
}

/// The board to keep in step, and the list new cards go to.
#[derive(Clone, Debug)]
pub struct Trello {
    pub board_id: String,
    pub add_to_list: String,
}

/// Where the course service answers queries.
#[derive(Debug)]
pub struct Canvas {
    pub graphql_endpoint: url::Url,
}

/// One course to keep in step, and the label its cards carry.
#[derive(Clone, Debug)]
pub struct Mapping {
    pub canvas_course_id: String,
    pub trello_label_name: String,
}

} // verus!
