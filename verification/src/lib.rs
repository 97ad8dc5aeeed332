//! Batch ingestion of exam-style documents: markdown sources and archives of
//! markdown plus images are turned into structured question records, the
//! images are deduplicated by content hash, and the records are persisted in
//! bounded batches with per-unit failure isolation.
//!
//! The extraction state machine, the archive filtering rules, the media
//! fingerprinting, the classification rules and the pipeline's count
//! bookkeeping are all verified; archive decompression, markdown
//! tokenization, hashing and Unicode case mapping are delegated to outside
//! libraries under stated contracts.

use vstd::prelude::*;

pub mod api;
pub mod classifier;
pub mod database;
pub mod media;
pub mod models;
pub mod parser;
pub mod processor;
pub mod text;
pub mod zip;

pub use models::{ImageRef, Question, QuestionOption, QuestionType};

verus! {

/// Parse markdown text into questions: exactly what the extraction state
/// machine yields for the document's event stream, in order.
pub fn parse_markdown_text(text: &str) -> (r: Vec<Question>)
    ensures
        r@.map_values(|q: Question| q@) == parser::spec_parse_questions(
            parser::md_events_of(text@),
        ),
{
    parser::parse_markdown(text)
}

/// Parse the documents of an archive given as raw bytes: extraction,
/// filtering, image deduplication and per-document parsing, with an
/// unreadable container failing the call as a whole.
pub fn parse_markdown_zip(data: &[u8]) -> (r: Result<zip::ZipProcessResult, zip::ArchiveError>)
    ensures
        r is Ok <==> zip::archive_entries_of(data@) is Some,
        r is Ok ==> {
            let es = zip::archive_entries_of(data@)->0;
            &&& r->Ok_0.questions@.map_values(|q: Question| q@) == zip::spec_zip_questions(
                zip::spec_doc_entries(es),
            )
            &&& r->Ok_0.images@.map_values(|p: (String, Vec<u8>)| (p.0@, p.1@))
                == zip::spec_image_map(zip::spec_image_entries(es))
            &&& r->Ok_0.warnings@.map_values(|w: String| w@) == zip::spec_zip_warnings(
                zip::spec_doc_entries(es),
            )
        },
{
    let processor = zip::ZipProcessor::new();
    processor.process_zip(vstd::slice::slice_to_vec(data))
}

} // verus!
