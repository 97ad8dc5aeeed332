//! The ingestion pipeline: dispatch over the input shape, merge of the
//! sub-flows' questions, images and warnings, and batched persistence.
//!
//! The surrounding program may fan the per-unit work out over worker pools
//! bounded by the configured caps; the counts, warnings and stored records
//! any schedule must produce are fixed by the contracts here. Failures are
//! isolated per unit: a failed document or archive contributes one warning,
//! a failed persistence chunk counts its full size as failed, and siblings
//! are never affected.

use vstd::prelude::*;
use crate::database::QuestionRepository;
use crate::models::{now_millis, Question, QuestionData};
use crate::parser::{md_events_of, parse_markdown, spec_parse_questions};
use crate::text::lemma_map_values_remove0;
use crate::zip::{
    archive_entries_of, merge_image_maps, merge_images, spec_doc_entries, spec_image_entries,
    spec_image_map, spec_zip_questions, spec_zip_warnings, ArchiveError, ZipProcessor,
    DEFAULT_WORKERS,
};

verus! {

/// Default size of one persistence batch.
pub const DEFAULT_BATCH_SIZE: usize = 100;

/// Default cap on concurrently processed archives: deliberately smaller than
/// the worker cap, since each archive fans out further.
pub const DEFAULT_MAX_CONCURRENT_ZIPS: usize = 4;

/// Configuration for the pipeline: concurrency caps and the persistence
/// batch size.
#[derive(Debug, Clone)]
pub struct ProcessorConfig {
    /// Cap on workers doing parse work
    pub max_cpu_workers: usize,
    /// Cap on workers doing persistence and extraction work
    pub max_io_workers: usize,
    /// Size of one persistence batch
    pub batch_size: usize,
    /// Cap on concurrently processed archives
    pub max_concurrent_zips: usize,
}

impl ProcessorConfig {
    /// Every cap is at least one.
    pub open spec fn wf(&self) -> bool {
        &&& self.max_cpu_workers >= 1
        &&& self.max_io_workers >= 1
        &&& self.batch_size >= 1
        &&& self.max_concurrent_zips >= 1
    }

    /// Set the parse-worker cap; values below one are raised to one.
    pub fn with_cpu_workers(self, workers: usize) -> (r: Self)
        ensures
            r.max_cpu_workers == if workers >= 1 {
                workers
            } else {
                1usize
            },
            r.max_io_workers == self.max_io_workers,
            r.batch_size == self.batch_size,
            r.max_concurrent_zips == self.max_concurrent_zips,
    {
        let mut c = self;
        c.max_cpu_workers = if workers >= 1 {
            workers
        } else {
            1
        };
        c
    }

    /// Set the persistence-worker cap; values below one are raised to one.
    pub fn with_io_workers(self, workers: usize) -> (r: Self)
        ensures
            r.max_io_workers == if workers >= 1 {
                workers
            } else {
                1usize
            },
            r.max_cpu_workers == self.max_cpu_workers,
            r.batch_size == self.batch_size,
            r.max_concurrent_zips == self.max_concurrent_zips,
    {
        let mut c = self;
        c.max_io_workers = if workers >= 1 {
            workers
        } else {
            1
        };
        c
    }

    /// Set the persistence batch size; values below one are raised to one.
    pub fn with_batch_size(self, batch_size: usize) -> (r: Self)
        ensures
            r.batch_size == if batch_size >= 1 {
                batch_size
            } else {
                1usize
            },
            r.max_cpu_workers == self.max_cpu_workers,
            r.max_io_workers == self.max_io_workers,
            r.max_concurrent_zips == self.max_concurrent_zips,
    {
        let mut c = self;
        c.batch_size = if batch_size >= 1 {
            batch_size
        } else {
            1
        };
        c
    }

    /// Set the archive-concurrency cap; values below one are raised to one.
    pub fn with_max_concurrent_zips(self, max: usize) -> (r: Self)
        ensures
            r.max_concurrent_zips == if max >= 1 {
                max
            } else {
                1usize
            },
            r.max_cpu_workers == self.max_cpu_workers,
            r.max_io_workers == self.max_io_workers,
            r.batch_size == self.batch_size,
    {
        let mut c = self;
        c.max_concurrent_zips = if max >= 1 {
            max
        } else {
            1
        };
        c
    }
}

impl Default for ProcessorConfig {
    /// The fallback configuration: the worker caps derive from the fallback
    /// parallelism; the surrounding program passes detected parallelism
    /// through the builder methods.
    fn default() -> (r: Self)
        ensures
            r.max_cpu_workers == DEFAULT_WORKERS,
            r.max_io_workers == 2 * DEFAULT_WORKERS,
            r.batch_size == DEFAULT_BATCH_SIZE,
            r.max_concurrent_zips == DEFAULT_MAX_CONCURRENT_ZIPS,
            r.wf(),
    {
        ProcessorConfig {
            max_cpu_workers: DEFAULT_WORKERS,
            max_io_workers: 2 * DEFAULT_WORKERS,
            batch_size: DEFAULT_BATCH_SIZE,
            max_concurrent_zips: DEFAULT_MAX_CONCURRENT_ZIPS,
        }
    }
}

/// Summary of one pipeline run.
#[derive(Debug)]
pub struct ProcessResult {
    /// Total number of questions processed
    pub total_questions: usize,
    /// Number of questions successfully saved
    pub saved_questions: usize,
    /// Number of questions that failed to save
    pub failed_questions: usize,
    /// Number of images processed
    pub total_images: usize,
    /// Warnings generated during processing
    pub warnings: Vec<String>,
    /// Processing time in milliseconds
    pub processing_time_ms: u64,
}

impl ProcessResult {
    /// An empty result: all counts at zero.
    pub fn new() -> (r: Self)
        ensures
            r.total_questions == 0,
            r.saved_questions == 0,
            r.failed_questions == 0,
            r.total_images == 0,
            r.warnings@.len() == 0,
            r.processing_time_ms == 0,
    {
        ProcessResult {
            total_questions: 0,
            saved_questions: 0,
            failed_questions: 0,
            total_images: 0,
            warnings: Vec::new(),
            processing_time_ms: 0,
        }
    }

    /// Record one warning.
    pub fn add_warning(&mut self, warning: String)
        ensures
            final(self).warnings@ == old(self).warnings@.push(warning),
            final(self).total_questions == old(self).total_questions,
            final(self).saved_questions == old(self).saved_questions,
            final(self).failed_questions == old(self).failed_questions,
            final(self).total_images == old(self).total_images,
            final(self).processing_time_ms == old(self).processing_time_ms,
    {
        self.warnings.push(warning);
    }

    /// A run succeeded when nothing failed to save.
    pub fn is_success(&self) -> (r: bool)
        ensures
            r == (self.failed_questions == 0),
    {
        self.failed_questions == 0
    }

    /// The success rate as an integer percentage: 100 for an empty run.
    pub fn success_rate_percent(&self) -> (r: u64)
        ensures
            self.total_questions == 0 ==> r == 100,
            self.total_questions > 0 && self.saved_questions <= self.total_questions ==> r == 100
                * self.saved_questions as int / self.total_questions as int,
    {
        if self.total_questions == 0 {
            100
        } else {
            let p = (self.saved_questions as u128 * 100) / (self.total_questions as u128);
            proof {
                let s = self.saved_questions as int;
                let t = self.total_questions as int;
                if s <= t {
                    vstd::arithmetic::div_mod::lemma_div_is_ordered(100 * s, 100 * t, t);
                    vstd::arithmetic::div_mod::lemma_div_multiples_vanish(100, t);
                }
            }
            if p > 100 {
                100
            } else {
                p as u64
            }
        }
    }
}

/// Input source for one pipeline run.
#[derive(Debug, Clone)]
pub enum InputSource {
    /// Single markdown document: content and source label
    Markdown { content: String, source: String },
    /// Multiple markdown documents: content and source label pairs
    MultipleMarkdown { contents: Vec<(String, String)> },
    /// One archive: raw bytes and source label
    Zip { data: Vec<u8>, source: String },
    /// Multiple archives: raw bytes and source label pairs
    MultipleZip { files: Vec<(Vec<u8>, String)> },
}

/// The questions of a sequence of documents, concatenated in document order.
pub open spec fn spec_docs_questions(docs: Seq<Seq<char>>) -> Seq<QuestionData>
    decreases docs.len(),
{
    if docs.len() == 0 {
        Seq::empty()
    } else {
        spec_docs_questions(docs.drop_last()) + spec_parse_questions(md_events_of(docs.last()))
    }
}

/// The questions of a sequence of archives: each readable archive
/// contributes its documents' questions; an unreadable one contributes
/// nothing.
pub open spec fn spec_archives_questions(files: Seq<(Seq<u8>, Seq<char>)>) -> Seq<QuestionData>
    decreases files.len(),
{
    if files.len() == 0 {
        Seq::empty()
    } else {
        let prev = spec_archives_questions(files.drop_last());
        match archive_entries_of(files.last().0) {
            Option::Some(es) => prev + spec_zip_questions(spec_doc_entries(es)),
            Option::None => prev,
        }
    }
}

/// The merged image map of a sequence of archives: each readable archive's
/// deduplicated map folded in, first occurrence of a hash kept.
pub open spec fn spec_archives_images(files: Seq<(Seq<u8>, Seq<char>)>) -> Seq<
    (Seq<char>, Seq<u8>),
>
    decreases files.len(),
{
    if files.len() == 0 {
        Seq::empty()
    } else {
        let prev = spec_archives_images(files.drop_last());
        match archive_entries_of(files.last().0) {
            Option::Some(es) => merge_image_maps(prev, spec_image_map(spec_image_entries(es))),
            Option::None => prev,
        }
    }
}

/// The warning raised for an archive whose container cannot be read.
pub open spec fn spec_archive_warning(label: Seq<char>) -> Seq<char> {
    "Failed to process ZIP "@ + label
}

/// The warnings of a sequence of archives: a readable archive contributes
/// its documents' warnings; an unreadable one contributes a single warning
/// naming its source label.
pub open spec fn spec_archives_warnings(files: Seq<(Seq<u8>, Seq<char>)>) -> Seq<Seq<char>>
    decreases files.len(),
{
    if files.len() == 0 {
        Seq::empty()
    } else {
        let prev = spec_archives_warnings(files.drop_last());
        match archive_entries_of(files.last().0) {
            Option::Some(es) => prev + spec_zip_warnings(spec_doc_entries(es)),
            Option::None => prev.push(spec_archive_warning(files.last().1)),
        }
    }
}

/// Whether a run over this input returns a result at all: only a single
/// archive whose container cannot be read fails the whole call; every other
/// failure is isolated inside the run.
pub open spec fn spec_input_ok(input: InputSource) -> bool {
    match input {
        InputSource::Zip { data, source } => archive_entries_of(data@) is Some,
        _ => true,
    }
}

/// The questions a run over this input gathers, before persistence.
pub open spec fn spec_input_questions(input: InputSource) -> Seq<QuestionData> {
    match input {
        InputSource::Markdown { content, source } => spec_parse_questions(
            md_events_of(content@),
        ),
        InputSource::MultipleMarkdown { contents } => spec_docs_questions(
            contents@.map_values(|p: (String, String)| p.0@),
        ),
        InputSource::Zip { data, source } => spec_zip_questions(
            spec_doc_entries(archive_entries_of(data@)->0),
        ),
        InputSource::MultipleZip { files } => spec_archives_questions(
            files@.map_values(|p: (Vec<u8>, String)| (p.0@, p.1@)),
        ),
    }
}

/// The deduplicated image map a run over this input gathers.
pub open spec fn spec_input_images(input: InputSource) -> Seq<(Seq<char>, Seq<u8>)> {
    match input {
        InputSource::Markdown { content, source } => Seq::empty(),
        InputSource::MultipleMarkdown { contents } => Seq::empty(),
        InputSource::Zip { data, source } => spec_image_map(
            spec_image_entries(archive_entries_of(data@)->0),
        ),
        InputSource::MultipleZip { files } => spec_archives_images(
            files@.map_values(|p: (Vec<u8>, String)| (p.0@, p.1@)),
        ),
    }
}

/// The warnings a run over this input gathers, one per failed unit.
pub open spec fn spec_input_warnings(input: InputSource) -> Seq<Seq<char>> {
    match input {
        InputSource::Markdown { content, source } => Seq::empty(),
        InputSource::MultipleMarkdown { contents } => Seq::empty(),
        InputSource::Zip { data, source } => spec_zip_warnings(
            spec_doc_entries(archive_entries_of(data@)->0),
        ),
        InputSource::MultipleZip { files } => spec_archives_warnings(
            files@.map_values(|p: (Vec<u8>, String)| (p.0@, p.1@)),
        ),
    }
}

proof fn lemma_docs_questions_ordered(docs: Seq<Seq<char>>)
    ensures
        forall|i: int|
            0 <= i < spec_docs_questions(docs).len() ==> crate::parser::options_ordered(
                #[trigger] spec_docs_questions(docs)[i],
            ),
    decreases docs.len(),
{
    if docs.len() > 0 {
        lemma_docs_questions_ordered(docs.drop_last());
        crate::parser::lemma_parse_options_ordered(md_events_of(docs.last()));
        let prev = spec_docs_questions(docs.drop_last());
        let tail = spec_parse_questions(md_events_of(docs.last()));
        assert forall|i: int| 0 <= i < spec_docs_questions(docs).len() implies
            crate::parser::options_ordered(#[trigger] spec_docs_questions(docs)[i]) by {
            if i < prev.len() {
                assert(spec_docs_questions(docs)[i] == prev[i]);
            } else {
                assert(spec_docs_questions(docs)[i] == tail[i - prev.len()]);
            }
        }
    }
}

proof fn lemma_archives_questions_ordered(files: Seq<(Seq<u8>, Seq<char>)>)
    ensures
        forall|i: int|
            0 <= i < spec_archives_questions(files).len() ==> crate::parser::options_ordered(
                #[trigger] spec_archives_questions(files)[i],
            ),
    decreases files.len(),
{
    if files.len() > 0 {
        lemma_archives_questions_ordered(files.drop_last());
        let prev = spec_archives_questions(files.drop_last());
        match archive_entries_of(files.last().0) {
            Option::Some(es) => {
                crate::zip::lemma_zip_questions_ordered(spec_doc_entries(es));
                let tail = spec_zip_questions(spec_doc_entries(es));
                assert forall|i: int| 0 <= i < spec_archives_questions(files).len() implies
                    crate::parser::options_ordered(#[trigger] spec_archives_questions(files)[i]) by {
                    if i < prev.len() {
                        assert(spec_archives_questions(files)[i] == prev[i]);
                    } else {
                        assert(spec_archives_questions(files)[i] == tail[i - prev.len()]);
                    }
                }
            },
            Option::None => {},
        }
    }
}

/// Order preservation across the whole pipeline: whatever the input shape,
/// every question a run gathers — and so every record it persists — carries
/// its options with `sort_order` equal to their position, a contiguous
/// zero-based sequence in extraction order.
pub proof fn lemma_input_questions_ordered(input: InputSource)
    ensures
        forall|i: int|
            0 <= i < spec_input_questions(input).len() ==> crate::parser::options_ordered(
                #[trigger] spec_input_questions(input)[i],
            ),
{
    match input {
        InputSource::Markdown { content, source } => {
            crate::parser::lemma_parse_options_ordered(md_events_of(content@));
        },
        InputSource::MultipleMarkdown { contents } => {
            lemma_docs_questions_ordered(contents@.map_values(|p: (String, String)| p.0@));
        },
        InputSource::Zip { data, source } => {
            crate::zip::lemma_zip_questions_ordered(
                spec_doc_entries(archive_entries_of(data@)->0),
            );
        },
        InputSource::MultipleZip { files } => {
            lemma_archives_questions_ordered(
                files@.map_values(|p: (Vec<u8>, String)| (p.0@, p.1@)),
            );
        },
    }
}

/// Empty input: a run over an empty document list gathers no questions, no
/// images and no warnings, so the result of processing it has every count at
/// zero and succeeds.
pub proof fn lemma_empty_input(input: InputSource)
    requires
        input matches InputSource::MultipleMarkdown { contents } && contents@.len() == 0,
    ensures
        spec_input_ok(input),
        spec_input_questions(input).len() == 0,
        spec_input_images(input).len() == 0,
        spec_input_warnings(input).len() == 0,
{
    match input {
        InputSource::MultipleMarkdown { contents } => {
            assert(contents@.map_values(|p: (String, String)| p.0@).len() == 0);
        },
        _ => {},
    }
}

/// A repository value that accepts every batch.
pub open spec fn always_accepts<R: QuestionRepository>() -> bool {
    forall|rep: R, qs: Seq<Question>| #[trigger] rep.batch_ok(qs)
}

/// The pipeline: dispatches on the input shape, merges what the sub-flows
/// yield, and persists the merged questions in bounded batches.
pub struct SingleMachineProcessor<R> {
    repository: R,
    config: ProcessorConfig,
    zip_processor: ZipProcessor,
}

impl<R: QuestionRepository> SingleMachineProcessor<R> {
    /// The configuration this processor runs under.
    pub closed spec fn spec_config(&self) -> ProcessorConfig {
        self.config
    }

    /// The repository this processor saves into.
    pub closed spec fn spec_repository(&self) -> R {
        self.repository
    }

    /// The processor's invariant: its configuration caps are positive.
    pub open spec fn inv(&self) -> bool {
        self.spec_config().wf()
    }

    /// Create a new processor with the fallback configuration.
    pub fn new(repository: R) -> (r: Self)
        ensures
            r.inv(),
            r.spec_repository() == repository,
            r.spec_config().batch_size == DEFAULT_BATCH_SIZE,
            r.spec_config().max_cpu_workers == DEFAULT_WORKERS,
    {
        Self::with_config(repository, ProcessorConfig::default())
    }

    /// Create a new processor with a custom configuration; caps below one
    /// are raised to one.
    pub fn with_config(repository: R, config: ProcessorConfig) -> (r: Self)
        ensures
            r.inv(),
            r.spec_repository() == repository,
            r.spec_config().max_cpu_workers == if config.max_cpu_workers >= 1 {
                config.max_cpu_workers
            } else {
                1usize
            },
            r.spec_config().max_io_workers == if config.max_io_workers >= 1 {
                config.max_io_workers
            } else {
                1usize
            },
            r.spec_config().batch_size == if config.batch_size >= 1 {
                config.batch_size
            } else {
                1usize
            },
            r.spec_config().max_concurrent_zips == if config.max_concurrent_zips >= 1 {
                config.max_concurrent_zips
            } else {
                1usize
            },
    {
        let cpu = config.max_cpu_workers;
        let io = config.max_io_workers;
        let batch = config.batch_size;
        let zips = config.max_concurrent_zips;
        let config = config.with_cpu_workers(cpu).with_io_workers(io).with_batch_size(
            batch,
        ).with_max_concurrent_zips(zips);
        let zip_processor = ZipProcessor::with_workers(config.max_cpu_workers);
        SingleMachineProcessor { repository, config, zip_processor }
    }

    /// The processor configuration.
    pub fn config(&self) -> (r: &ProcessorConfig)
        ensures
            *r == self.spec_config(),
    {
        &self.config
    }

    /// The parse-worker cap in use.
    pub fn cpu_cores(&self) -> (r: usize)
        ensures
            r == self.spec_config().max_cpu_workers,
    {
        self.config.max_cpu_workers
    }

    /// Parse one document. Treated as one bounded unit of parse work; a
    /// single document contributes no images and no warnings.
    fn process_single_markdown(&self, content: String, source: String) -> (r: (
        Vec<Question>,
        Vec<(String, Vec<u8>)>,
        Vec<String>,
    ))
        ensures
            r.0@.map_values(|q: Question| q@) == spec_parse_questions(md_events_of(content@)),
            r.1@.len() == 0,
            r.2@.len() == 0,
    {
        let questions = parse_markdown(content.as_str());
        (questions, Vec::new(), Vec::new())
    }

    /// Parse a set of documents: one unit per document, results concatenated
    /// in input order.
    fn process_multiple_markdown(&self, contents: Vec<(String, String)>) -> (r: (
        Vec<Question>,
        Vec<(String, Vec<u8>)>,
        Vec<String>,
    ))
        ensures
            r.0@.map_values(|q: Question| q@) == spec_docs_questions(
                contents@.map_values(|p: (String, String)| p.0@),
            ),
            r.1@.len() == 0,
            r.2@.len() == 0,
    {
        let ghost docs = contents@.map_values(|p: (String, String)| p.0@);
        let mut questions: Vec<Question> = Vec::new();
        let n = contents.len();
        for i in 0..n
            invariant
                n == contents@.len(),
                docs == contents@.map_values(|p: (String, String)| p.0@),
                questions@.map_values(|q: Question| q@) =~= spec_docs_questions(
                    docs.take(i as int),
                ),
        {
            proof {
                assert(docs.take(i + 1).drop_last() =~= docs.take(i as int));
                assert(docs.take(i + 1).last() == docs[i as int]);
                assert(docs[i as int] == contents@[i as int].0@);
            }
            let mut qs = parse_markdown(contents[i].0.as_str());
            let ghost qs_view = qs@.map_values(|q: Question| q@);
            questions.append(&mut qs);
            proof {
                assert(questions@.map_values(|q: Question| q@) =~= spec_docs_questions(
                    docs.take(i as int),
                ) + qs_view);
            }
        }
        proof {
            assert(docs.take(n as int) =~= docs);
        }
        (questions, Vec::new(), Vec::new())
    }

    /// Process one archive; an unreadable container fails the whole call.
    fn process_single_zip(&self, data: Vec<u8>, source: String) -> (r: Result<
        (Vec<Question>, Vec<(String, Vec<u8>)>, Vec<String>),
        ArchiveError,
    >)
        ensures
            r is Ok <==> archive_entries_of(data@) is Some,
            r is Ok ==> {
                let es = archive_entries_of(data@)->0;
                &&& r->Ok_0.0@.map_values(|q: Question| q@) == spec_zip_questions(
                    spec_doc_entries(es),
                )
                &&& r->Ok_0.1@.map_values(|p: (String, Vec<u8>)| (p.0@, p.1@)) == spec_image_map(
                    spec_image_entries(es),
                )
                &&& r->Ok_0.2@.map_values(|w: String| w@) == spec_zip_warnings(
                    spec_doc_entries(es),
                )
            },
    {
        match self.zip_processor.process_zip(data) {
            Result::Ok(zr) => Result::Ok((zr.questions, zr.images, zr.warnings)),
            Result::Err(e) => Result::Err(e),
        }
    }

    /// Process a set of archives: one unit per archive. A whole-archive
    /// extraction failure is recorded as one warning naming the archive's
    /// label and contributes nothing; sibling archives are unaffected.
    fn process_multiple_zips(&self, files: Vec<(Vec<u8>, String)>) -> (r: (
        Vec<Question>,
        Vec<(String, Vec<u8>)>,
        Vec<String>,
    ))
        ensures
            r.0@.map_values(|q: Question| q@) == spec_archives_questions(
                files@.map_values(|p: (Vec<u8>, String)| (p.0@, p.1@)),
            ),
            r.1@.map_values(|p: (String, Vec<u8>)| (p.0@, p.1@)) == spec_archives_images(
                files@.map_values(|p: (Vec<u8>, String)| (p.0@, p.1@)),
            ),
            r.2@.map_values(|w: String| w@) == spec_archives_warnings(
                files@.map_values(|p: (Vec<u8>, String)| (p.0@, p.1@)),
            ),
    {
        let ghost all = files@.map_values(|p: (Vec<u8>, String)| (p.0@, p.1@));
        let ghost n: int = all.len() as int;
        let ghost mut k: int = 0;
        let mut rest = files;
        let mut questions: Vec<Question> = Vec::new();
        let mut images: Vec<(String, Vec<u8>)> = Vec::new();
        let mut warnings: Vec<String> = Vec::new();
        while rest.len() > 0
            invariant
                n == all.len(),
                0 <= k,
                k + rest@.len() == n,
                rest@.map_values(|p: (Vec<u8>, String)| (p.0@, p.1@)) =~= all.skip(k),
                questions@.map_values(|q: Question| q@) =~= spec_archives_questions(all.take(k)),
                images@.map_values(|p: (String, Vec<u8>)| (p.0@, p.1@)) =~= spec_archives_images(
                    all.take(k),
                ),
                warnings@.map_values(|w: String| w@) =~= spec_archives_warnings(all.take(k)),
            decreases rest@.len(),
        {
            let ghost pre = rest@;
            let f = rest.remove(0);
            proof {
                assert((f.0@, f.1@) == pre.map_values(|p: (Vec<u8>, String)| (p.0@, p.1@))[0]);
                assert((f.0@, f.1@) == all[k]);
                assert(all.take(k + 1).drop_last() =~= all.take(k));
                assert(all.take(k + 1).last() == all[k]);
                lemma_map_values_remove0(pre, |p: (Vec<u8>, String)| (p.0@, p.1@));
                assert(all.skip(k).skip(1) =~= all.skip(k + 1));
                assert(rest@.map_values(|p: (Vec<u8>, String)| (p.0@, p.1@)) =~= all.skip(k + 1));
            }
            let (data, label) = f;
            match self.zip_processor.process_zip(data) {
                Result::Ok(zr) => {
                    let mut zq = zr.questions;
                    let mut zw = zr.warnings;
                    let ghost zq_view = zq@.map_values(|q: Question| q@);
                    let ghost zw_view = zw@.map_values(|w: String| w@);
                    questions.append(&mut zq);
                    merge_images(&mut images, zr.images);
                    warnings.append(&mut zw);
                    proof {
                        assert(questions@.map_values(|q: Question| q@) =~= spec_archives_questions(
                            all.take(k),
                        ) + zq_view);
                        assert(warnings@.map_values(|w: String| w@) =~= spec_archives_warnings(
                            all.take(k),
                        ) + zw_view);
                        assert(questions@.map_values(|q: Question| q@) =~= spec_archives_questions(
                            all.take(k + 1),
                        ));
                        assert(images@.map_values(|p: (String, Vec<u8>)| (p.0@, p.1@))
                            =~= spec_archives_images(all.take(k + 1)));
                        assert(warnings@.map_values(|w: String| w@) =~= spec_archives_warnings(
                            all.take(k + 1),
                        ));
                    }
                },
                Result::Err(_) => {
                    let warning = String::from_str("Failed to process ZIP ").concat(
                        label.as_str(),
                    );
                    warnings.push(warning);
                    proof {
                        assert(questions@.map_values(|q: Question| q@) =~= spec_archives_questions(
                            all.take(k + 1),
                        ));
                        assert(images@.map_values(|p: (String, Vec<u8>)| (p.0@, p.1@))
                            =~= spec_archives_images(all.take(k + 1)));
                        assert(warnings@.map_values(|w: String| w@) =~= spec_archives_warnings(
                            all.take(k),
                        ).push(spec_archive_warning(all[k].1)));
                        assert(warnings@.map_values(|w: String| w@) =~= spec_archives_warnings(
                            all.take(k + 1),
                        ));
                    }
                },
            }
            proof {
                k = k + 1;
            }
        }
        proof {
            assert(all.take(n) =~= all);
        }
        (questions, images, warnings)
    }

    /// Persist questions in chunks of the configured batch size, each chunk
    /// all-or-nothing: a chunk that saves contributes its size to the saved
    /// count, a chunk that fails contributes its full size to the failed
    /// count, and the two always add up to the number of questions handed
    /// in. Against a repository that accepts every batch nothing fails and
    /// the store is extended by exactly the questions, in order.
    fn save_questions_batched(&mut self, questions: Vec<Question>) -> (r: (usize, usize))
        requires
            old(self).inv(),
        ensures
            final(self).inv(),
            final(self).spec_config() == old(self).spec_config(),
            r.0 + r.1 == questions@.len(),
            always_accepts::<R>() ==> r.1 == 0,
            always_accepts::<R>() ==> final(self).spec_repository().stored() == old(
                self,
            ).spec_repository().stored() + questions@,
    {
        let total = questions.len();
        let batch_size = self.config.batch_size;
        let mut remaining = questions;
        let mut saved: usize = 0;
        let mut failed: usize = 0;
        let ghost all = remaining@;
        while remaining.len() > 0
            invariant
                self.inv(),
                self.spec_config() == old(self).spec_config(),
                batch_size == self.spec_config().batch_size,
                batch_size >= 1,
                total == all.len(),
                saved + failed + remaining@.len() == total,
                remaining@ =~= all.skip(all.len() - remaining@.len()),
                always_accepts::<R>() ==> failed == 0,
                always_accepts::<R>() ==> self.spec_repository().stored() == old(
                    self,
                ).spec_repository().stored() + all.take(all.len() - remaining@.len()),
            decreases remaining@.len(),
        {
            let ghost done = all.len() - remaining@.len();
            let take_n = if remaining.len() > batch_size {
                batch_size
            } else {
                remaining.len()
            };
            let rest = remaining.split_off(take_n);
            let chunk_len = remaining.len();
            let ghost chunk_view = remaining@;
            proof {
                assert(chunk_view == all.skip(done).take(take_n as int));
            }
            match self.repository.save_batch(remaining) {
                Result::Ok(_) => {
                    saved = saved + chunk_len;
                },
                Result::Err(_) => {
                    failed = failed + chunk_len;
                },
            }
            remaining = rest;
            proof {
                let done2 = all.len() - remaining@.len();
                assert(done2 == done + take_n);
                assert(remaining@ =~= all.skip(done2));
                assert(all.take(done) + chunk_view =~= all.take(done2));
            }
        }
        proof {
            assert(all.take(all.len() - 0) =~= all);
            assert(all.skip(all.len() - remaining@.len()).len() == remaining@.len());
        }
        (saved, failed)
    }

    /// Run the pipeline on one input: gather questions, images and warnings
    /// from the input's sub-flows, then persist the questions in bounded
    /// batches.
    ///
    /// Counts are conserved: the total equals the number of questions the
    /// sub-flows parsed, and it always equals saved plus failed. Absence of
    /// content is not an error: an empty input yields all counts zero. Only
    /// a single archive whose container cannot be read fails the call as a
    /// whole; every other failure is converted to a warning or a failed
    /// count scoped to its unit.
    pub fn process(&mut self, input: InputSource) -> (r: Result<ProcessResult, ArchiveError>)
        requires
            old(self).inv(),
        ensures
            final(self).inv(),
            r is Ok <==> spec_input_ok(input),
            r is Ok ==> {
                let out = r->Ok_0;
                &&& out.total_questions == spec_input_questions(input).len()
                &&& out.saved_questions + out.failed_questions == out.total_questions
                &&& out.total_images == spec_input_images(input).len()
                &&& out.warnings@.map_values(|w: String| w@) == spec_input_warnings(input)
                &&& (always_accepts::<R>() ==> out.failed_questions == 0)
                &&& (always_accepts::<R>() ==> out.saved_questions == spec_input_questions(
                    input,
                ).len())
                &&& (always_accepts::<R>() ==> final(self).spec_repository().stored().len() == old(
                    self,
                ).spec_repository().stored().len() + spec_input_questions(input).len())
                &&& (always_accepts::<R>() ==> final(self).spec_repository().stored().skip(
                    old(self).spec_repository().stored().len() as int,
                ).map_values(|q: Question| q@) == spec_input_questions(input))
            },
    {
        let start = now_millis();
        let (questions, images, warnings) = match input {
            InputSource::Markdown { content, source } => self.process_single_markdown(
                content,
                source,
            ),
            InputSource::MultipleMarkdown { contents } => self.process_multiple_markdown(contents),
            InputSource::Zip { data, source } => {
                match self.process_single_zip(data, source) {
                    Result::Ok(t) => t,
                    Result::Err(e) => {
                        return Result::Err(e);
                    },
                }
            },
            InputSource::MultipleZip { files } => self.process_multiple_zips(files),
        };
        proof {
            assert(questions@.map_values(|q: Question| q@) == spec_input_questions(input));
        }
        let total_images = images.len();
        let qcount = questions.len();
        let ghost qs_seq = questions@;
        let ghost pre_stored = self.spec_repository().stored();
        let (saved, failed) = self.save_questions_batched(questions);
        proof {
            if always_accepts::<R>() {
                assert(self.spec_repository().stored() == pre_stored + qs_seq);
                assert(self.spec_repository().stored().skip(pre_stored.len() as int) =~= qs_seq);
            }
        }
        let end = now_millis();
        let elapsed: u64 = if end >= start {
            ((end as i128) - (start as i128)) as u64
        } else {
            0
        };
        let result = ProcessResult {
            total_questions: saved + failed,
            saved_questions: saved,
            failed_questions: failed,
            total_images,
            warnings,
            processing_time_ms: elapsed,
        };
        Result::Ok(result)
    }
}

} // verus!
