//! Endpoint value types and the compute parts of the endpoints.

use md2db::api::{health_status, parse_and_save, ApiError};
use md2db::database::MockRepository;

#[test]
fn test_health_check() {
    let response = health_status();
    assert_eq!(response.status, "ok");
    assert!(!response.version.is_empty());
}

#[test]
fn test_parse_endpoint() {
    let mut repo = MockRepository::new();
    let result = parse_and_save(&mut repo, "# Test\n\n* A. Option1\n* B. Option2");
    assert!(result.is_ok());

    let response = result.unwrap();
    assert_eq!(response.count, 1);
    assert_eq!(response.question_ids.len(), 1);
    assert_eq!(response.questions.len(), 1);
    assert!(response.warnings.is_empty());
}

#[test]
fn test_parse_multiple_questions() {
    let mut repo = MockRepository::new();
    let markdown = "# Question 1\n\n* A. Option 1\n* B. Option 2\n\n# Question 2\n\n* C. Option 3\n* D. Option 4\n";
    let result = parse_and_save(&mut repo, markdown);
    assert!(result.is_ok());

    let response = result.unwrap();
    assert_eq!(response.count, 2);
    assert_eq!(response.question_ids.len(), 2);
}

#[test]
fn test_api_error_into_response() {
    let error = ApiError::ParseError("Test error".to_string());
    assert_eq!(error.status_code(), 400);
    assert_eq!(error.error_kind(), "parse_error");
    assert_eq!(error.message(), "Test error");
}

#[test]
fn test_database_error_into_response() {
    let error = ApiError::DatabaseError("DB error".to_string());
    assert_eq!(error.status_code(), 500);
    assert_eq!(error.error_kind(), "database_error");
    assert_eq!(error.message(), "DB error");
}

#[test]
fn test_invalid_file_error_into_response() {
    let error = ApiError::InvalidFile("Invalid file".to_string());
    assert_eq!(error.status_code(), 400);
    assert_eq!(error.error_kind(), "invalid_file");
    assert_eq!(error.message(), "Invalid file");
}

#[test]
fn test_saved_ids_match_questions() {
    let mut repo = MockRepository::new();
    let response = parse_and_save(&mut repo, "# Only one\n\n* A. yes\n* B. no").unwrap();
    assert_eq!(response.question_ids[0], response.questions[0].id);
    let found = md2db::database::QuestionRepository::find_by_id(&repo, response.question_ids[0]);
    assert!(found.is_some());
    assert_eq!(found.unwrap().stem, "Only one");
}
