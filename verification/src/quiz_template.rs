//! The quiz template records handled by the quiz API.

use vstd::prelude::*;

verus! {

/// A stored quiz template.
#[derive(Debug)]
pub struct QuizTemplate {
    pub id: String,
    pub name: String,
    pub user_id: String,
}

/// The payload for creating a quiz template.
#[derive(Debug)]
pub struct NewQuizTemplate {
    pub name: String,
}

/// The payload for renaming a quiz template.
#[derive(Debug)]
pub struct UpdateQuizTemplate {
    pub name: String,
}

} // verus!
