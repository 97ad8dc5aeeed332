//! Core data model: question records, answer options, image references and
//! classification results, together with their ghost views.
//!
//! Identifiers and creation timestamps come from outside (a random UUID and
//! the current wall clock); everything else about a record is plain data with
//! an exact view.

use vstd::prelude::*;

verus! {

/// Confidence values are carried in thousandths: this is the scale, the
/// value that stands for full confidence.
pub const CONFIDENCE_SCALE: u32 = 1000;

/// A classification below this confidence (in thousandths) needs review.
pub const REVIEW_THRESHOLD: u32 = 800;

/// The kind of an exam question.
#[derive(Debug, Clone, Copy, PartialEq, Eq, Structural)]
pub enum QuestionType {
    /// Single choice question
    Choice,
    /// Multiple choice question
    MultipleChoice,
    /// True/False question
    TrueFalse,
    /// Fill in the blank question
    FillInTheBlank,
    /// Subjective/essay question
    Subjective,
}

/// One answer choice of a question.
#[derive(Debug, Clone)]
pub struct QuestionOption {
    /// The content of the option
    pub content: String,
    /// Sort order for display: zero-based, contiguous within its question
    pub sort_order: usize,
    /// Whether this option is correct
    pub is_correct: bool,
}

/// Ghost view of an answer choice.
pub ghost struct OptionData {
    pub content: Seq<char>,
    pub sort_order: int,
    pub is_correct: bool,
}

impl View for QuestionOption {
    type V = OptionData;

    open spec fn view(&self) -> OptionData {
        OptionData {
            content: self.content@,
            sort_order: self.sort_order as int,
            is_correct: self.is_correct,
        }
    }
}

/// Reference to an image, either remote or stored by content hash.
#[derive(Debug, Clone)]
pub enum ImageRef {
    /// Remote URL reference
    Remote { url: String },
    /// Content-addressed reference: hash of the bytes and the original path
    Local { hash: String, original_path: String },
}

/// Ghost view of an image reference.
pub ghost enum ImageData {
    Remote { url: Seq<char> },
    Local { hash: Seq<char>, original_path: Seq<char> },
}

impl View for ImageRef {
    type V = ImageData;

    open spec fn view(&self) -> ImageData {
        match self {
            ImageRef::Remote { url } => ImageData::Remote { url: url@ },
            ImageRef::Local { hash, original_path } => ImageData::Local {
                hash: hash@,
                original_path: original_path@,
            },
        }
    }
}

/// A complete question record.
#[derive(Debug, Clone)]
pub struct Question {
    /// Unique identifier (an opaque 128-bit value)
    pub id: u128,
    /// Type of question
    pub qtype: QuestionType,
    /// The question stem/prompt
    pub stem: String,
    /// Options for choice questions
    pub options: Vec<QuestionOption>,
    /// The answer (if applicable)
    pub answer: Option<String>,
    /// Detailed explanation/analysis
    pub analysis: Option<String>,
    /// Images referenced in the question
    pub images: Vec<ImageRef>,
    /// Formula snippets extracted from the question
    pub latex: Vec<String>,
    /// When this question was created, in milliseconds since the epoch
    pub created_at: i64,
}

/// Ghost view of the content of a question: everything except the opaque
/// identifier and the creation time.
pub ghost struct QuestionData {
    pub qtype: QuestionType,
    pub stem: Seq<char>,
    pub options: Seq<OptionData>,
    pub answer: Option<Seq<char>>,
    pub analysis: Option<Seq<char>>,
    pub images: Seq<ImageData>,
    pub latex: Seq<Seq<char>>,
}

impl View for Question {
    type V = QuestionData;

    open spec fn view(&self) -> QuestionData {
        QuestionData {
            qtype: self.qtype,
            stem: self.stem@,
            options: self.options@.map_values(|o: QuestionOption| o@),
            answer: match self.answer {
                Option::Some(a) => Option::Some(a@),
                Option::None => Option::None,
            },
            analysis: match self.analysis {
                Option::Some(a) => Option::Some(a@),
                Option::None => Option::None,
            },
            images: self.images@.map_values(|i: ImageRef| i@),
            latex: self.latex@.map_values(|l: String| l@),
        }
    }
}

/// A fresh opaque identifier.
/// Relies on uuid::Uuid::new_v4: a random identifier; nothing is promised of
/// the value.
#[verifier::external_body]
pub fn fresh_question_id() -> (r: u128) {
    uuid::Uuid::new_v4().as_u128()
}

/// The current wall-clock time in milliseconds since the epoch.
/// Relies on chrono::Utc::now (timestamp_millis): the clock decides; nothing
/// is promised of the value.
#[verifier::external_body]
pub fn now_millis() -> (r: i64) {
    chrono::Utc::now().timestamp_millis()
}

impl Default for Question {
    /// An empty subjective question with a fresh identifier.
    fn default() -> (r: Self)
        ensures
            r.qtype == QuestionType::Subjective,
            r.stem@ == Seq::<char>::empty(),
            r.options@.len() == 0,
            r.answer is None,
            r.analysis is None,
            r.images@.len() == 0,
            r.latex@.len() == 0,
    {
        Question {
            id: fresh_question_id(),
            qtype: QuestionType::Subjective,
            stem: String::new(),
            options: Vec::new(),
            answer: Option::None,
            analysis: Option::None,
            images: Vec::new(),
            latex: Vec::new(),
            created_at: now_millis(),
        }
    }
}

impl QuestionOption {
    /// A verified deep copy.
    pub fn duplicate(&self) -> (r: Self)
        ensures
            r == *self,
    {
        QuestionOption {
            content: self.content.clone(),
            sort_order: self.sort_order,
            is_correct: self.is_correct,
        }
    }
}

impl ImageRef {
    /// A verified deep copy.
    pub fn duplicate(&self) -> (r: Self)
        ensures
            r == *self,
    {
        match self {
            ImageRef::Remote { url } => ImageRef::Remote { url: url.clone() },
            ImageRef::Local { hash, original_path } => ImageRef::Local {
                hash: hash.clone(),
                original_path: original_path.clone(),
            },
        }
    }
}

impl Question {
    /// A verified deep copy: the same content, identifier and creation time.
    pub fn duplicate(&self) -> (r: Self)
        ensures
            r@ == self@,
            r.id == self.id,
            r.created_at == self.created_at,
    {
        let mut options: Vec<QuestionOption> = Vec::new();
        let n = self.options.len();
        for i in 0..n
            invariant
                n == self.options@.len(),
                options@ =~= self.options@.take(i as int),
        {
            options.push(self.options[i].duplicate());
        }
        let mut images: Vec<ImageRef> = Vec::new();
        let m = self.images.len();
        for i in 0..m
            invariant
                m == self.images@.len(),
                images@ =~= self.images@.take(i as int),
        {
            images.push(self.images[i].duplicate());
        }
        let mut latex: Vec<String> = Vec::new();
        let k = self.latex.len();
        for i in 0..k
            invariant
                k == self.latex@.len(),
                latex@ =~= self.latex@.take(i as int),
        {
            latex.push(self.latex[i].clone());
        }
        let answer = match &self.answer {
            Option::Some(a) => Option::Some(a.clone()),
            Option::None => Option::None,
        };
        let analysis = match &self.analysis {
            Option::Some(a) => Option::Some(a.clone()),
            Option::None => Option::None,
        };
        proof {
            assert(self.options@.take(n as int) =~= self.options@);
            assert(self.images@.take(m as int) =~= self.images@);
            assert(self.latex@.take(k as int) =~= self.latex@);
        }
        Question {
            id: self.id,
            qtype: self.qtype,
            stem: self.stem.clone(),
            options,
            answer,
            analysis,
            images,
            latex,
            created_at: self.created_at,
        }
    }
}

/// Result of one classification call. Confidence is in thousandths, between
/// zero and `CONFIDENCE_SCALE`.
#[derive(Debug, Clone)]
pub struct ClassificationResult {
    /// The determined question type
    pub qtype: QuestionType,
    /// Confidence in thousandths (0 ..= CONFIDENCE_SCALE)
    pub confidence: u32,
    /// Whether this result needs manual review
    pub needs_review: bool,
}

impl ClassificationResult {
    /// The derived flag is not settable on its own: review is needed exactly
    /// below the threshold.
    pub open spec fn wf(&self) -> bool {
        self.needs_review <==> self.confidence < REVIEW_THRESHOLD
    }

    /// Create a new classification result; the review flag is derived.
    pub fn new(qtype: QuestionType, confidence: u32) -> (r: Self)
        ensures
            r.qtype == qtype,
            r.confidence == confidence,
            r.wf(),
    {
        let needs_review = confidence < REVIEW_THRESHOLD;
        ClassificationResult { qtype, confidence, needs_review }
    }

    /// A fully confident result.
    pub fn certain(qtype: QuestionType) -> (r: Self)
        ensures
            r.qtype == qtype,
            r.confidence == CONFIDENCE_SCALE,
            r.wf(),
    {
        Self::new(qtype, CONFIDENCE_SCALE)
    }

    /// A result with the given (possibly low) confidence.
    pub fn uncertain(qtype: QuestionType, confidence: u32) -> (r: Self)
        ensures
            r.qtype == qtype,
            r.confidence == confidence,
            r.wf(),
    {
        Self::new(qtype, confidence)
    }
}

} // verus!
