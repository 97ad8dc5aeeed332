//! Question type classification.

use md2db::classifier::{NlpClassifier, SemanticRuleClassifier, StructuralClassifier};
use md2db::models::{QuestionType, REVIEW_THRESHOLD};

#[test]
fn test_explicit_markers() {
    let result = StructuralClassifier::classify("[单选]题目内容", &vec![]);
    assert!(result.is_some());
    assert_eq!(result.unwrap().qtype, QuestionType::Choice);
}

#[test]
fn test_binary_options() {
    let options = vec!["正确".to_string(), "错误".to_string()];
    let result = StructuralClassifier::classify("题目内容", &options);
    assert!(result.is_some());
    assert_eq!(result.unwrap().qtype, QuestionType::TrueFalse);
}

#[test]
fn test_fill_in_blank_parens() {
    let result = SemanticRuleClassifier::classify("Complete the () sentence", &vec![]);
    assert!(result.is_some());
    assert_eq!(result.unwrap().qtype, QuestionType::FillInTheBlank);
}

#[test]
fn test_nlp_multiple_choice_chinese() {
    let stem = "以下全部正确的是：";
    let options = vec![
        "A. 选项1".to_string(),
        "B. 选项2".to_string(),
        "C. 选项3".to_string(),
        "D. 选项4".to_string(),
    ];
    let result = NlpClassifier::classify(stem, &options);
    assert!(result.is_some());
    assert_eq!(result.unwrap().qtype, QuestionType::MultipleChoice);
}

#[test]
fn test_nlp_multiple_choice_english() {
    let stem = "Select all that apply:";
    let options = vec![
        "A. Option 1".to_string(),
        "B. Option 2".to_string(),
        "C. Option 3".to_string(),
    ];
    let result = NlpClassifier::classify(stem, &options);
    assert!(result.is_some());
    assert_eq!(result.unwrap().qtype, QuestionType::MultipleChoice);
}

#[test]
fn test_nlp_single_choice_best_answer() {
    let stem = "Which of the following is the best approach?";
    let options = vec![
        "A. Approach 1".to_string(),
        "B. Approach 2".to_string(),
        "C. Approach 3".to_string(),
    ];
    let result = NlpClassifier::classify(stem, &options);
    assert!(result.is_some());
    assert_eq!(result.unwrap().qtype, QuestionType::Choice);
}

#[test]
fn test_nlp_fill_in_blank() {
    let stem = "Please fill in the blank: The capital of France is ____.";
    let result = NlpClassifier::classify(stem, &vec![]);
    assert!(result.is_some());
    assert_eq!(result.unwrap().qtype, QuestionType::FillInTheBlank);
}

#[test]
fn test_nlp_confidence_scoring() {
    let stem = "以下全部正确";
    let options = vec!["A. 1".to_string(), "B. 2".to_string(), "C. 3".to_string()];
    let result = NlpClassifier::classify(stem, &options).unwrap();
    // An explicit keyword match scores high (confidence is in thousandths).
    assert!(result.confidence >= 700);
}

#[test]
fn test_nlp_analysis() {
    let stem = "以下全部正确的是哪些？";
    let options = vec!["A. 1".to_string(), "B. 2".to_string()];
    let analysis = NlpClassifier::analyze(stem, &options);
    assert!(!analysis.multiple_choice_matches.is_empty());
    assert_eq!(analysis.option_count, 2);
}

#[test]
fn test_nlp_low_confidence_returns_none() {
    let stem = "This is a very generic question without clear indicators.";
    let options = vec!["Option A".to_string()];
    let result = NlpClassifier::classify(stem, &options);
    assert!(result.is_none());
}

#[test]
fn test_nlp_uppercase_stem_is_lowercased() {
    // Keyword matching happens on the lowercased stem.
    let stem = "SELECT ALL THAT APPLY:";
    let options = vec![
        "A. Option 1".to_string(),
        "B. Option 2".to_string(),
        "C. Option 3".to_string(),
    ];
    let result = NlpClassifier::classify(stem, &options);
    assert!(result.is_some());
    assert_eq!(result.unwrap().qtype, QuestionType::MultipleChoice);
}

#[test]
fn test_needs_review_is_derived_from_threshold() {
    // The review flag holds exactly below the threshold.
    let certain = md2db::models::ClassificationResult::certain(QuestionType::Choice);
    assert!(!certain.needs_review);
    let low = md2db::models::ClassificationResult::uncertain(
        QuestionType::Choice,
        REVIEW_THRESHOLD - 1,
    );
    assert!(low.needs_review);
    let at = md2db::models::ClassificationResult::uncertain(QuestionType::Choice, REVIEW_THRESHOLD);
    assert!(!at.needs_review);
}

#[test]
fn test_semantic_letter_prefixes() {
    let options = vec!["A. one".to_string(), "B. two".to_string()];
    let result = SemanticRuleClassifier::classify("Pick something", &options);
    assert!(result.is_some());
    assert_eq!(result.unwrap().qtype, QuestionType::Choice);
}

#[test]
fn test_structural_multi_select_keyword() {
    let result = StructuralClassifier::classify("以下全部正确的是", &vec![]);
    assert!(result.is_some());
    let r = result.unwrap();
    assert_eq!(r.qtype, QuestionType::MultipleChoice);
    assert_eq!(r.confidence, 900);
}
