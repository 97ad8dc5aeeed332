//! The pipeline: configuration, result bookkeeping, and runs over every
//! input shape.

use md2db::database::{MockRepository, QuestionRepository};
use md2db::models::Question;
use md2db::parser::parse_markdown;
use md2db::processor::{InputSource, ProcessResult, ProcessorConfig, SingleMachineProcessor};
use rayon::iter::{IntoParallelIterator, ParallelIterator};

fn create_test_markdown() -> String {
    "# What is 2+2?\n\n* A. 3\n* B. 4\n* C. 5\n\n# What is the capital of France?\n\n* A. London\n* B. Berlin\n* C. Paris".to_string()
}

fn build_zip(entries: &[(&str, &[u8])]) -> Vec<u8> {
    let mut buf = std::io::Cursor::new(Vec::new());
    let mut writer = zip::ZipWriter::new(&mut buf);
    let options = zip::write::SimpleFileOptions::default();
    for (name, data) in entries {
        writer.start_file(*name, options).unwrap();
        std::io::Write::write_all(&mut writer, data).unwrap();
    }
    writer.finish().unwrap();
    buf.into_inner()
}

#[test]
fn test_processor_config_default() {
    let config = ProcessorConfig::default();
    assert!(config.max_cpu_workers > 0);
    assert!(config.max_io_workers > 0);
    assert_eq!(config.batch_size, 100);
    assert_eq!(config.max_concurrent_zips, 4);
}

#[test]
fn test_processor_config_builder() {
    let config = ProcessorConfig::default()
        .with_cpu_workers(8)
        .with_io_workers(16)
        .with_batch_size(50)
        .with_max_concurrent_zips(2);

    assert_eq!(config.max_cpu_workers, 8);
    assert_eq!(config.max_io_workers, 16);
    assert_eq!(config.batch_size, 50);
    assert_eq!(config.max_concurrent_zips, 2);
}

#[test]
fn test_process_result_empty() {
    let result = ProcessResult::new();
    assert_eq!(result.total_questions, 0);
    assert_eq!(result.saved_questions, 0);
    assert_eq!(result.failed_questions, 0);
    assert!(result.is_success());
    assert_eq!(result.success_rate_percent(), 100);
}

#[test]
fn test_process_result_partial_failure() {
    let mut result = ProcessResult::new();
    result.total_questions = 10;
    result.saved_questions = 8;
    result.failed_questions = 2;

    assert!(!result.is_success());
    assert_eq!(result.success_rate_percent(), 80);
}

#[test]
fn test_process_result_add_warning() {
    let mut result = ProcessResult::new();
    result.add_warning("unit failed".to_string());
    assert_eq!(result.warnings, vec!["unit failed".to_string()]);
    assert_eq!(result.total_questions, 0);
}

#[test]
fn test_processor_creation() {
    let repo = MockRepository::new();
    let processor = SingleMachineProcessor::new(repo);

    assert!(processor.cpu_cores() > 0);
    assert_eq!(processor.config().batch_size, 100);
}

#[test]
fn test_processor_with_custom_config() {
    let repo = MockRepository::new();
    let config = ProcessorConfig::default().with_cpu_workers(4).with_batch_size(50);

    let processor = SingleMachineProcessor::with_config(repo, config);

    assert_eq!(processor.cpu_cores(), 4);
    assert_eq!(processor.config().batch_size, 50);
}

#[test]
fn test_process_single_markdown() {
    let repo = MockRepository::new();
    let mut processor = SingleMachineProcessor::new(repo);

    let markdown = create_test_markdown();
    let input = InputSource::Markdown { content: markdown, source: "test.md".to_string() };

    let result = processor.process(input).unwrap();

    assert_eq!(result.total_questions, 2);
    assert_eq!(result.saved_questions, 2);
    assert!(result.is_success());
    assert_eq!(result.success_rate_percent(), 100);
}

#[test]
fn test_process_multiple_markdown() {
    let repo = MockRepository::new();
    let mut processor = SingleMachineProcessor::new(repo);

    let contents = vec![
        (create_test_markdown(), "test1.md".to_string()),
        (create_test_markdown(), "test2.md".to_string()),
    ];

    let input = InputSource::MultipleMarkdown { contents };

    let result = processor.process(input).unwrap();

    assert_eq!(result.total_questions, 4);
    assert_eq!(result.saved_questions, 4);
    assert!(result.is_success());
}

#[test]
fn test_parse_markdown_parallel() {
    let contents: Vec<_> = (0..10)
        .map(|i| {
            (
                format!("# Question {}?\n\n* A. Option 1\n* B. Option 2", i),
                format!("test{}.md", i),
            )
        })
        .collect();

    let questions: Vec<_> = contents
        .into_par_iter()
        .map(|(content, _)| parse_markdown(&content))
        .flatten()
        .collect();

    assert_eq!(questions.len(), 10);
}

#[test]
fn test_empty_markdown_processing() {
    let repo = MockRepository::new();
    let mut processor = SingleMachineProcessor::new(repo);

    let input = InputSource::Markdown { content: String::new(), source: "empty.md".to_string() };

    let result = processor.process(input).unwrap();

    assert_eq!(result.total_questions, 0);
    assert!(result.is_success());
}

#[test]
fn test_empty_document_list() {
    // Absence of content is not an error.
    let repo = MockRepository::new();
    let mut processor = SingleMachineProcessor::new(repo);

    let result = processor.process(InputSource::MultipleMarkdown { contents: vec![] }).unwrap();

    assert_eq!(result.total_questions, 0);
    assert_eq!(result.saved_questions, 0);
    assert_eq!(result.failed_questions, 0);
    assert!(result.is_success());
}

#[test]
fn test_mock_repository() {
    let mut repo = MockRepository::new();
    let question = Question::default();

    let ids = repo.save_batch(vec![question.clone()]).unwrap();
    assert_eq!(ids.len(), 1);

    let found = repo.find_by_id(ids[0]);
    assert!(found.is_some());

    let all = repo.find_by_type(question.qtype);
    assert_eq!(all.len(), 1);
}

#[test]
fn test_small_batches_conserve_counts() {
    // saved + failed == total and the batch size only shapes the chunks.
    let repo = MockRepository::new();
    let config = ProcessorConfig::default().with_batch_size(1);
    let mut processor = SingleMachineProcessor::with_config(repo, config);

    let contents = vec![
        (create_test_markdown(), "a.md".to_string()),
        (create_test_markdown(), "b.md".to_string()),
        (create_test_markdown(), "c.md".to_string()),
    ];
    let result = processor.process(InputSource::MultipleMarkdown { contents }).unwrap();
    assert_eq!(result.total_questions, 6);
    assert_eq!(result.saved_questions + result.failed_questions, result.total_questions);
    assert_eq!(result.failed_questions, 0);
}

#[test]
fn test_process_single_zip_input() {
    let repo = MockRepository::new();
    let mut processor = SingleMachineProcessor::new(repo);
    let data = build_zip(&[
        ("doc.md", b"# Q\n\n* A. 1\n* B. 2\n".as_slice()),
        ("pic.png", &[0x89, 0x50, 0x4E, 0x47, 0x0D, 0x0A, 0x1A, 0x0A, 3]),
    ]);
    let result = processor.process(InputSource::Zip { data, source: "up.zip".to_string() }).unwrap();
    assert_eq!(result.total_questions, 1);
    assert_eq!(result.saved_questions, 1);
    assert_eq!(result.total_images, 1);
    assert!(result.warnings.is_empty());
}

#[test]
fn test_process_corrupt_single_zip_fails() {
    let repo = MockRepository::new();
    let mut processor = SingleMachineProcessor::new(repo);
    let result = processor.process(InputSource::Zip {
        data: vec![9, 9, 9, 9],
        source: "bad.zip".to_string(),
    });
    assert!(result.is_err());
}

#[test]
fn test_process_multiple_zips_isolates_failure() {
    // One corrupt archive contributes one warning naming it and nothing
    // else; its sibling's questions are all saved.
    let repo = MockRepository::new();
    let mut processor = SingleMachineProcessor::new(repo);
    let good = build_zip(&[("doc.md", b"# Q\n\n* A. 1\n".as_slice())]);
    let result = processor
        .process(InputSource::MultipleZip {
            files: vec![(good, "good.zip".to_string()), (vec![0, 1, 2], "bad.zip".to_string())],
        })
        .unwrap();
    assert_eq!(result.total_questions, 1);
    assert_eq!(result.saved_questions, 1);
    assert_eq!(result.failed_questions, 0);
    assert_eq!(result.warnings.len(), 1);
    assert!(result.warnings[0].contains("bad.zip"));
}

#[test]
fn test_failure_isolation_across_documents() {
    // Three documents in one archive, the second malformed: two questions
    // parse and save, nothing fails, and exactly one warning names it.
    let repo = MockRepository::new();
    let mut processor = SingleMachineProcessor::new(repo);
    let data = build_zip(&[
        ("doc1.md", b"# Q1\n\n* A. x\n".as_slice()),
        ("doc2.md", &[0xFF, 0xFE, 0x01]),
        ("doc3.md", b"# Q3\n\n* B. y\n".as_slice()),
    ]);
    let result = processor.process(InputSource::Zip { data, source: "three.zip".to_string() }).unwrap();
    assert_eq!(result.total_questions, 2);
    assert_eq!(result.failed_questions, 0);
    assert_eq!(result.saved_questions, 2);
    assert_eq!(result.warnings.len(), 1);
    assert!(result.warnings[0].contains("doc2.md"));
}

#[test]
fn test_image_dedup_across_archives() {
    let repo = MockRepository::new();
    let mut processor = SingleMachineProcessor::new(repo);
    let png = [0x89u8, 0x50, 0x4E, 0x47, 0x0D, 0x0A, 0x1A, 0x0A, 5];
    let one = build_zip(&[("a.png", png.as_slice())]);
    let two = build_zip(&[("b.png", png.as_slice())]);
    let result = processor
        .process(InputSource::MultipleZip {
            files: vec![(one, "one.zip".to_string()), (two, "two.zip".to_string())],
        })
        .unwrap();
    assert_eq!(result.total_images, 1);
}
