//! The query and mutation surface of the quiz API.
//!
//! The handlers that reach the document store are wired up outside the
//! library; here stand the schema roots, the input payloads with their
//! conversions to model records, and the liveness answer.

use vstd::prelude::*;

use crate::question::Question as QuestionModel;
use crate::quiz_template::{NewQuizTemplate, UpdateQuizTemplate};

verus! {

/// An account as presented by the API.
#[derive(Debug)]
pub struct User {
    pub id: String,
    pub username: String,
}

impl User {
    /// Presents a stored account.
    pub fn from_model(model: &crate::user::User) -> (u: Self)
        ensures
            u.id@ == model.id@,
            u.username@ == model.username@,
    {
        User { id: model.id.clone(), username: model.username.clone() }
    }
}

/// A question as presented by the API.
#[derive(Debug)]
pub struct Question {
    pub answer: String,
    pub id: String,
    pub question: String,
}

impl Question {
    /// Presents a stored question.
    pub fn from_model(model: &QuestionModel) -> (q: Self)
        ensures
            q.answer@ == model.answer@,
            q.id@ == model.id@,
            q.question@ == model.question@,
    {
        Question {
            answer: model.answer.clone(),
            id: model.id.clone(),
            question: model.question.clone(),
        }
    }
}

/// A quiz template as presented by the API.
#[derive(Debug)]
pub struct QuizTemplate {
    pub id: String,
    pub name: String,
}

impl QuizTemplate {
    /// Presents a stored quiz template.
    pub fn from_model(model: &crate::quiz_template::QuizTemplate) -> (t: Self)
        ensures
            t.id@ == model.id@,
            t.name@ == model.name@,
    {
        QuizTemplate { id: model.id.clone(), name: model.name.clone() }
    }

    /// The template's identifier.
    pub fn id(&self) -> (r: String)
        ensures
            r@ == self.id@,
    {
        self.id.clone()
    }

    /// The template's name.
    pub fn name(&self) -> (r: &str)
        ensures
            r@ == self.name@,
    {
        self.name.as_str()
    }
}

/// The payload for editing a question.
#[derive(Debug)]
pub struct EditQuestion {
    pub answer: String,
    pub question: String,
    pub quiz_template_id: String,
}

impl EditQuestion {
    /// The model record that the edit writes under the given id.
    pub fn to_model(&self, id: &str) -> (q: QuestionModel)
        ensures
            q.answer@ == self.answer@,
            q.id@ == id@,
            q.question@ == self.question@,
            q.quiz_template_id@ == self.quiz_template_id@,
    {
        QuestionModel {
            answer: self.answer.clone(),
            id: String::from_str(id),
            question: self.question.clone(),
            quiz_template_id: self.quiz_template_id.clone(),
        }
    }
}

/// The payload for creating a quiz template.
#[derive(Debug)]
pub struct CreateQuizTemplate {
    pub name: String,
}

impl CreateQuizTemplate {
    /// The model record that the creation stores.
    pub fn to_model(&self) -> (t: NewQuizTemplate)
        ensures
            t.name@ == self.name@,
    {
        NewQuizTemplate { name: self.name.clone() }
    }
}

/// The payload for renaming a quiz template.
#[derive(Debug)]
pub struct EditQuizTemplate {
    pub name: String,
}

impl EditQuizTemplate {
    /// The model record that the edit writes.
    pub fn to_model(&self) -> (t: UpdateQuizTemplate)
        ensures
            t.name@ == self.name@,
    {
        UpdateQuizTemplate { name: self.name.clone() }
    }
}

/// The root of question mutations.
#[derive(Clone, Copy, Debug, PartialEq, Eq, Structural)]
pub struct QuestionMutation;

/// The root of question queries.
#[derive(Clone, Copy, Debug, PartialEq, Eq, Structural)]
pub struct QuestionQuery;

/// The root of quiz template mutations.
#[derive(Clone, Copy, Debug, PartialEq, Eq, Structural)]
pub struct QuizTemplateMutation;

/// The root of quiz template queries.
#[derive(Clone, Copy, Debug, PartialEq, Eq, Structural)]
pub struct QuizTemplateQuery;

/// The mutation root of the API schema.
#[derive(Clone, Copy, Debug, PartialEq, Eq, Structural)]
pub struct Mutation;

impl Mutation {
    /// The question mutation root.
    pub fn question(&self) -> (r: QuestionMutation)
        ensures
            r == (QuestionMutation),
    {
        QuestionMutation
    }

    /// The quiz template mutation root.
    pub fn quiz_template(&self) -> (r: QuizTemplateMutation)
        ensures
            r == (QuizTemplateMutation),
    {
        QuizTemplateMutation
    }
}

/// The query root of the API schema.
#[derive(Clone, Copy, Debug, PartialEq, Eq, Structural)]
pub struct Query;

impl Query {
    /// The version the API reports.
    pub fn api_version(&self) -> (v: &'static str)
        ensures
            v@ == "1.0"@,
    {
        "1.0"
    }

    /// The question query root.
    pub fn question(&self) -> (r: QuestionQuery)
        ensures
            r == (QuestionQuery),
    {
        QuestionQuery
    }

    /// The quiz template query root.
    pub fn quiz_template(&self) -> (r: QuizTemplateQuery)
        ensures
            r == (QuizTemplateQuery),
    {
        QuizTemplateQuery
    }
}

/// The liveness probe answer.
pub fn health_check() -> (r: &'static str)
    ensures
        r@ == "OK"@,
{
    "OK"
}

} // verus!
