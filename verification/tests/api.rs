//! Tests of the API schema glue and identifier rendering.

use quiz_auth::graphql::{
    health_check, CreateQuizTemplate, EditQuestion, EditQuizTemplate, Mutation, Query,
    QuestionMutation, QuestionQuery, QuizTemplateMutation, QuizTemplateQuery, User,
};
use quiz_auth::ident::decimal_string;
use quiz_auth::question::Question;

#[test]
fn api_version_is_fixed() {
    assert_eq!(Query.api_version(), "1.0");
}

#[test]
fn health_check_answers_ok() {
    assert_eq!(health_check(), "OK");
}

#[test]
fn schema_roots_are_reachable() {
    assert_eq!(Query.question(), QuestionQuery);
    assert_eq!(Query.quiz_template(), QuizTemplateQuery);
    assert_eq!(Mutation.question(), QuestionMutation);
    assert_eq!(Mutation.quiz_template(), QuizTemplateMutation);
}

#[test]
fn edit_question_converts_to_model() {
    let edit = EditQuestion {
        answer: "42".to_string(),
        question: "What is the answer?".to_string(),
        quiz_template_id: "3".to_string(),
    };
    let model = edit.to_model("9");
    assert_eq!(model.answer, "42");
    assert_eq!(model.id, "9");
    assert_eq!(model.question, "What is the answer?");
    assert_eq!(model.quiz_template_id, "3");
}

#[test]
fn quiz_template_payloads_convert_to_models() {
    let created = CreateQuizTemplate { name: "Capitals".to_string() }.to_model();
    assert_eq!(created.name, "Capitals");
    let edited = EditQuizTemplate { name: "Rivers".to_string() }.to_model();
    assert_eq!(edited.name, "Rivers");
}

#[test]
fn presentation_structs_copy_model_fields() {
    let model = Question {
        answer: "blue".to_string(),
        id: "5".to_string(),
        question: "Sky color?".to_string(),
        quiz_template_id: "2".to_string(),
    };
    let shown = quiz_auth::graphql::Question::from_model(&model);
    assert_eq!(shown.answer, "blue");
    assert_eq!(shown.id, "5");
    assert_eq!(shown.question, "Sky color?");

    let account = quiz_auth::user::User { id: "0".to_string(), username: "alice".to_string() };
    let shown = User::from_model(&account);
    assert_eq!(shown.id, "0");
    assert_eq!(shown.username, "alice");
}

#[test]
fn quiz_template_presentation_copies_fields() {
    let model = quiz_auth::quiz_template::QuizTemplate {
        id: "11".to_string(),
        name: "Capitals".to_string(),
        user_id: "0".to_string(),
    };
    let shown = quiz_auth::graphql::QuizTemplate::from_model(&model);
    assert_eq!(shown.id(), "11");
    assert_eq!(shown.name(), "Capitals");
}

#[test]
fn connection_uri_is_assembled_exactly() {
    assert_eq!(
        quiz_auth::config::mongodb_connection_uri("user", "pw", "db.example", "quiz"),
        "mongodb://user:pw@db.example/quiz"
    );
}

#[test]
fn decimal_rendering_is_exact() {
    assert_eq!(decimal_string(0), "0");
    assert_eq!(decimal_string(7), "7");
    assert_eq!(decimal_string(10), "10");
    assert_eq!(decimal_string(12345), "12345");
    assert_eq!(decimal_string(u64::MAX), "18446744073709551615");
}
