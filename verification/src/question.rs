//! The question record handled by the quiz API.

use vstd::prelude::*;

verus! {

/// A quiz question bound to its template.
#[derive(Debug)]
pub struct Question {
    pub answer: String,
    pub id: String,
    pub question: String,
    pub quiz_template_id: String,
}

} // verus!
