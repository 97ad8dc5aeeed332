//! Question type classification: a multi-level strategy of structural
//! markers, semantic rules, and weighted keyword scoring.
//!
//! Confidence is carried in thousandths (see `CONFIDENCE_SCALE`); a keyword's
//! weight is its byte length in hundredths of a point, so longer keywords
//! weigh more, as a tenth of a point per byte.

use vstd::prelude::*;
use crate::models::{ClassificationResult, QuestionType, CONFIDENCE_SCALE};
use crate::text::{
    contains_seq, contains_sub, lower_of, spec_trim_start, starts_with_seq, starts_with_str,
    to_lowercase, trim_start_str,
};

verus! {

/// A score at least this high (in thousandths) is worth reporting.
pub const SCORE_FLOOR: u32 = 500;

/// The weighted sum of the keywords occurring in `text`.
pub open spec fn spec_keyword_score(kws: Seq<(Seq<char>, int)>, text: Seq<char>) -> int
    decreases kws.len(),
{
    if kws.len() == 0 {
        0
    } else {
        spec_keyword_score(kws.drop_last(), text) + if contains_seq(text, kws.last().0) {
            kws.last().1
        } else {
            0
        }
    }
}

/// Whether any keyword occurs in `text`.
pub open spec fn spec_any_keyword(kws: Seq<(Seq<char>, int)>, text: Seq<char>) -> bool
    decreases kws.len(),
{
    if kws.len() == 0 {
        false
    } else {
        spec_any_keyword(kws.drop_last(), text) || contains_seq(text, kws.last().0)
    }
}

/// The keywords occurring in `text`, in table order.
pub open spec fn spec_keyword_matches(kws: Seq<(Seq<char>, int)>, text: Seq<char>) -> Seq<
    Seq<char>,
>
    decreases kws.len(),
{
    if kws.len() == 0 {
        Seq::empty()
    } else {
        let prev = spec_keyword_matches(kws.drop_last(), text);
        if contains_seq(text, kws.last().0) {
            prev.push(kws.last().0)
        } else {
            prev
        }
    }
}

/// The view of a weighted keyword table.
pub open spec fn table_view(t: Seq<(&'static str, u32)>) -> Seq<(Seq<char>, int)> {
    t.map_values(|p: (&'static str, u32)| (p.0@, p.1 as int))
}

/// Scan a keyword table over a text: the weighted score of the occurring
/// keywords, and whether any occurs at all.
fn scan_keywords(text: &str, kws: &Vec<(&'static str, u32)>) -> (r: (u64, bool))
    requires
        kws@.len() <= 100,
    ensures
        r.0 == spec_keyword_score(table_view(kws@), text@),
        r.1 == spec_any_keyword(table_view(kws@), text@),
        r.0 <= kws@.len() * 0x1_0000_0000,
{
    let mut score: u64 = 0;
    let mut any = false;
    let n = kws.len();
    for i in 0..n
        invariant
            n == kws@.len(),
            n <= 100,
            score == spec_keyword_score(table_view(kws@.take(i as int)), text@),
            any == spec_any_keyword(table_view(kws@.take(i as int)), text@),
            score <= i * 0x1_0000_0000,
    {
        proof {
            assert(table_view(kws@.take(i + 1)).drop_last() =~= table_view(kws@.take(i as int)));
            let ghost entry = kws@[i as int];
            assert(table_view(kws@.take(i + 1)).last() == (entry.0@, entry.1 as int));
        }
        if contains_sub(text, kws[i].0) {
            score = score + kws[i].1 as u64;
            any = true;
        }
    }
    proof {
        assert(kws@.take(n as int) =~= kws@);
    }
    (score, any)
}

/// The keywords of a table that occur in a text, in table order.
pub fn find_keyword_matches(text: &str, kws: &Vec<(&'static str, u32)>) -> (r: Vec<String>)
    ensures
        r@.map_values(|s: String| s@) == spec_keyword_matches(table_view(kws@), text@),
{
    let mut out: Vec<String> = Vec::new();
    let n = kws.len();
    for i in 0..n
        invariant
            n == kws@.len(),
            out@.map_values(|s: String| s@) =~= spec_keyword_matches(
                table_view(kws@.take(i as int)),
                text@,
            ),
    {
        proof {
            assert(table_view(kws@.take(i + 1)).drop_last() =~= table_view(kws@.take(i as int)));
            let ghost entry = kws@[i as int];
            assert(table_view(kws@.take(i + 1)).last() == (entry.0@, entry.1 as int));
        }
        if contains_sub(text, kws[i].0) {
            out.push(String::from_str(kws[i].0));
            proof {
                assert(out@.map_values(|s: String| s@) =~= spec_keyword_matches(
                    table_view(kws@.take(i as int)),
                    text@,
                ).push(kws@[i as int].0@));
            }
        }
    }
    proof {
        assert(kws@.take(n as int) =~= kws@);
    }
    out
}

/// The option-count adjustment and normalization of a raw keyword score:
/// no options reduce confidence, two options without any keyword reduce it
/// sharply, three or more raise it; the result is normalized to thousandths
/// and capped at full confidence.
pub open spec fn spec_normalize_score(base: int, any: bool, opt_count: int) -> int {
    let adjusted = if opt_count == 0 {
        base * 4 / 5
    } else if opt_count == 2 {
        if !any {
            base * 3 / 10
        } else {
            base
        }
    } else if 3 <= opt_count && opt_count <= 4 {
        base * 6 / 5
    } else if opt_count >= 5 {
        base * 3 / 2
    } else {
        base
    };
    let normalized = adjusted / 3;
    if normalized > CONFIDENCE_SCALE {
        CONFIDENCE_SCALE as int
    } else {
        normalized
    }
}

/// The confidence score of one keyword table against a lowercased stem and
/// an option count.
pub open spec fn spec_calculate_score(
    kws: Seq<(Seq<char>, int)>,
    text: Seq<char>,
    opt_count: int,
) -> int {
    spec_normalize_score(
        spec_keyword_score(kws, text),
        spec_any_keyword(kws, text),
        opt_count,
    )
}

fn normalize_score(base: u64, any: bool, opt_count: usize) -> (r: u32)
    requires
        base <= 0x64_0000_0000,
    ensures
        r == spec_normalize_score(base as int, any, opt_count as int),
        r <= CONFIDENCE_SCALE,
{
    let adjusted: u64 = if opt_count == 0 {
        base * 4 / 5
    } else if opt_count == 2 {
        if !any {
            base * 3 / 10
        } else {
            base
        }
    } else if 3 <= opt_count && opt_count <= 4 {
        base * 6 / 5
    } else if opt_count >= 5 {
        base * 3 / 2
    } else {
        base
    };
    let normalized = adjusted / 3;
    if normalized > CONFIDENCE_SCALE as u64 {
        CONFIDENCE_SCALE
    } else {
        normalized as u32
    }
}

/// Calculate the confidence score for one keyword table: the weighted sum of
/// occurring keywords, adjusted by the option count and normalized.
pub fn calculate_score(text: &str, kws: &Vec<(&'static str, u32)>, opt_count: usize) -> (r: u32)
    requires
        kws@.len() <= 100,
    ensures
        r == spec_calculate_score(table_view(kws@), text@, opt_count as int),
        r <= CONFIDENCE_SCALE,
{
    let (score, any) = scan_keywords(text, kws);
    normalize_score(score, any, opt_count)
}

/// Multiple-choice indicator keywords, each with its weight.
pub open spec fn spec_mc_keywords() -> Seq<(Seq<char>, int)> {
    seq![
        ("以下全部正确"@, 1800int),
        ("以下都正确"@, 1500int),
        ("下列全部正确"@, 1800int),
        ("下列都正确"@, 1500int),
        ("全部正确"@, 1200int),
        ("都正确"@, 900int),
        ("多选"@, 600int),
        ("多项选择"@, 1200int),
        ("选择所有正确"@, 1800int),
        ("选择所有适用"@, 1800int),
        ("以下哪些"@, 1200int),
        ("下列哪些"@, 1200int),
        ("哪些正确"@, 1200int),
        ("哪些错误"@, 1200int),
        ("多选题"@, 900int),
        ("复选题"@, 900int),
        ("all of the above"@, 1600int),
        ("all that apply"@, 1400int),
        ("select all that apply"@, 2100int),
        ("choose all that apply"@, 2100int),
        ("multiple correct"@, 1600int),
        ("which of the following"@, 2200int),
        ("which are true"@, 1400int),
        ("select all correct"@, 1800int),
        ("all correct"@, 1100int),
        ("all are correct"@, 1500int),
    ]
}

/// The multiple-choice keyword table.
pub fn mc_keywords() -> (r: Vec<(&'static str, u32)>)
    ensures
        table_view(r@) == spec_mc_keywords(),
        r@.len() <= 100,
{
    let r = vec![
        ("以下全部正确", 1800u32),
        ("以下都正确", 1500u32),
        ("下列全部正确", 1800u32),
        ("下列都正确", 1500u32),
        ("全部正确", 1200u32),
        ("都正确", 900u32),
        ("多选", 600u32),
        ("多项选择", 1200u32),
        ("选择所有正确", 1800u32),
        ("选择所有适用", 1800u32),
        ("以下哪些", 1200u32),
        ("下列哪些", 1200u32),
        ("哪些正确", 1200u32),
        ("哪些错误", 1200u32),
        ("多选题", 900u32),
        ("复选题", 900u32),
        ("all of the above", 1600u32),
        ("all that apply", 1400u32),
        ("select all that apply", 2100u32),
        ("choose all that apply", 2100u32),
        ("multiple correct", 1600u32),
        ("which of the following", 2200u32),
        ("which are true", 1400u32),
        ("select all correct", 1800u32),
        ("all correct", 1100u32),
        ("all are correct", 1500u32),
    ];
    proof {
        assert(table_view(r@) =~= spec_mc_keywords());
    }
    r
}

/// Single-choice indicator keywords, each with its weight.
pub open spec fn spec_sc_keywords() -> Seq<(Seq<char>, int)> {
    seq![
        ("单项选择"@, 1200int),
        ("单选"@, 600int),
        ("最佳答案"@, 1200int),
        ("最合适"@, 900int),
        ("最准确"@, 900int),
        ("下列哪一项"@, 1500int),
        ("以下哪一项"@, 1500int),
        ("哪一项正确"@, 1500int),
        ("哪一项错误"@, 1500int),
        ("single choice"@, 1300int),
        ("best"@, 400int),
        ("best answer"@, 1100int),
        ("most appropriate"@, 1600int),
        ("most accurate"@, 1300int),
        ("which one"@, 900int),
        ("which of the following is"@, 2500int),
        ("choose the best"@, 1500int),
    ]
}

/// The single-choice keyword table.
pub fn sc_keywords() -> (r: Vec<(&'static str, u32)>)
    ensures
        table_view(r@) == spec_sc_keywords(),
        r@.len() <= 100,
{
    let r = vec![
        ("单项选择", 1200u32),
        ("单选", 600u32),
        ("最佳答案", 1200u32),
        ("最合适", 900u32),
        ("最准确", 900u32),
        ("下列哪一项", 1500u32),
        ("以下哪一项", 1500u32),
        ("哪一项正确", 1500u32),
        ("哪一项错误", 1500u32),
        ("single choice", 1300u32),
        ("best", 400u32),
        ("best answer", 1100u32),
        ("most appropriate", 1600u32),
        ("most accurate", 1300u32),
        ("which one", 900u32),
        ("which of the following is", 2500u32),
        ("choose the best", 1500u32),
    ];
    proof {
        assert(table_view(r@) =~= spec_sc_keywords());
    }
    r
}

/// True/false indicator keywords, each with its weight.
pub open spec fn spec_tf_keywords() -> Seq<(Seq<char>, int)> {
    seq![
        ("判断"@, 600int),
        ("判断题"@, 900int),
        ("对错"@, 600int),
        ("是否正确"@, 1200int),
        ("正误"@, 600int),
        ("是非"@, 600int),
        ("true or false"@, 1300int),
        ("true/false"@, 1000int),
        ("correct or incorrect"@, 2000int),
        ("yes or no"@, 900int),
        ("right or wrong"@, 1400int),
    ]
}

/// The true/false keyword table.
pub fn tf_keywords() -> (r: Vec<(&'static str, u32)>)
    ensures
        table_view(r@) == spec_tf_keywords(),
        r@.len() <= 100,
{
    let r = vec![
        ("判断", 600u32),
        ("判断题", 900u32),
        ("对错", 600u32),
        ("是否正确", 1200u32),
        ("正误", 600u32),
        ("是非", 600u32),
        ("true or false", 1300u32),
        ("true/false", 1000u32),
        ("correct or incorrect", 2000u32),
        ("yes or no", 900u32),
        ("right or wrong", 1400u32),
    ];
    proof {
        assert(table_view(r@) =~= spec_tf_keywords());
    }
    r
}

/// Fill-in-the-blank indicator keywords, each with its weight.
pub open spec fn spec_fb_keywords() -> Seq<(Seq<char>, int)> {
    seq![
        ("填空"@, 600int),
        ("填空题"@, 900int),
        ("补充完整"@, 1200int),
        ("完成句子"@, 1200int),
        ("填入"@, 600int),
        ("fill in the blank"@, 1700int),
        ("fill-in-the-blank"@, 1700int),
        ("complete the"@, 1200int),
        ("fill in"@, 700int),
        ("blank"@, 500int),
    ]
}

/// The fill-in-the-blank keyword table.
pub fn fb_keywords() -> (r: Vec<(&'static str, u32)>)
    ensures
        table_view(r@) == spec_fb_keywords(),
        r@.len() <= 100,
{
    let r = vec![
        ("填空", 600u32),
        ("填空题", 900u32),
        ("补充完整", 1200u32),
        ("完成句子", 1200u32),
        ("填入", 600u32),
        ("fill in the blank", 1700u32),
        ("fill-in-the-blank", 1700u32),
        ("complete the", 1200u32),
        ("fill in", 700u32),
        ("blank", 500u32),
    ];
    proof {
        assert(table_view(r@) =~= spec_fb_keywords());
    }
    r
}

/// Lowercase each option, for case-insensitive matching.
fn lower_options(options: &Vec<String>) -> (r: Vec<String>)
    ensures
        r@.map_values(|s: String| s@) == options@.map_values(|o: String| lower_of(o@)),
{
    let mut out: Vec<String> = Vec::new();
    let n = options.len();
    for i in 0..n
        invariant
            n == options@.len(),
            out@.map_values(|s: String| s@) =~= options@.take(i as int).map_values(
                |o: String| lower_of(o@),
            ),
    {
        out.push(to_lowercase(options[i].as_str()));
        proof {
            assert(options@.take(i + 1).map_values(|o: String| lower_of(o@)) =~= options@.take(
                i as int,
            ).map_values(|o: String| lower_of(o@)).push(lower_of(options@[i as int]@)));
        }
    }
    proof {
        assert(options@.take(n as int) =~= options@);
    }
    out
}

/// A binary option pair: the first option affirms, the second denies.
pub open spec fn spec_is_binary_options(opts_lower: Seq<Seq<char>>) -> bool {
    &&& opts_lower.len() == 2
    &&& (contains_seq(opts_lower[0], "正确"@) || contains_seq(opts_lower[0], "对"@)
        || contains_seq(opts_lower[0], "true"@))
    &&& (contains_seq(opts_lower[1], "错误"@) || contains_seq(opts_lower[1], "错"@)
        || contains_seq(opts_lower[1], "false"@))
}

/// Structural classifier: fast pattern matching on explicit markers.
pub struct StructuralClassifier;

/// What the structural classifier decides: explicit bracket markers are
/// certain; a binary option pair is a certain true/false; multi-select
/// phrases are a near-certain multiple choice; anything else is passed on.
pub open spec fn spec_structural_classify(
    stem: Seq<char>,
    stem_lower: Seq<char>,
    opts_lower: Seq<Seq<char>>,
) -> Option<(QuestionType, int)> {
    if contains_seq(stem, "[单选]"@) || contains_seq(stem, "[单选题]"@) {
        Option::Some((QuestionType::Choice, CONFIDENCE_SCALE as int))
    } else if contains_seq(stem, "[多选]"@) || contains_seq(stem, "[多选题]"@) {
        Option::Some((QuestionType::MultipleChoice, CONFIDENCE_SCALE as int))
    } else if contains_seq(stem, "[判断]"@) || contains_seq(stem, "[判断题]"@) {
        Option::Some((QuestionType::TrueFalse, CONFIDENCE_SCALE as int))
    } else if contains_seq(stem, "[填空]"@) || contains_seq(stem, "[填空题]"@) {
        Option::Some((QuestionType::FillInTheBlank, CONFIDENCE_SCALE as int))
    } else if opts_lower.len() == 2 && spec_is_binary_options(opts_lower) {
        Option::Some((QuestionType::TrueFalse, CONFIDENCE_SCALE as int))
    } else if contains_seq(stem_lower, "多选"@) || contains_seq(stem_lower, "以下全部正确"@)
        || contains_seq(stem_lower, "都正确"@) {
        Option::Some((QuestionType::MultipleChoice, 900int))
    } else {
        Option::None
    }
}

impl StructuralClassifier {
    /// Whether the options form a binary pair (affirm/deny), compared after
    /// lowercasing.
    pub fn is_binary_options(options: &Vec<String>) -> (r: bool)
        ensures
            r == spec_is_binary_options(options@.map_values(|o: String| lower_of(o@))),
    {
        if options.len() != 2 {
            return false;
        }
        let opt1 = to_lowercase(options[0].as_str());
        let opt2 = to_lowercase(options[1].as_str());
        proof {
            let m = options@.map_values(|o: String| lower_of(o@));
            assert(m[0] == lower_of(options@[0]@));
            assert(m[1] == lower_of(options@[1]@));
        }
        (contains_sub(opt1.as_str(), "正确") || contains_sub(opt1.as_str(), "对") || contains_sub(
            opt1.as_str(),
            "true",
        )) && (contains_sub(opt2.as_str(), "错误") || contains_sub(opt2.as_str(), "错")
            || contains_sub(opt2.as_str(), "false"))
    }

    /// Classify by explicit structural patterns.
    pub fn classify(stem: &str, options: &Vec<String>) -> (r: Option<ClassificationResult>)
        ensures
            r is Some <==> spec_structural_classify(
                stem@,
                lower_of(stem@),
                options@.map_values(|o: String| lower_of(o@)),
            ) is Some,
            r is Some ==> {
                let expected = spec_structural_classify(
                    stem@,
                    lower_of(stem@),
                    options@.map_values(|o: String| lower_of(o@)),
                )->0;
                r->0.qtype == expected.0 && r->0.confidence == expected.1 && r->0.wf()
            },
    {
        if contains_sub(stem, "[单选]") || contains_sub(stem, "[单选题]") {
            return Option::Some(ClassificationResult::certain(QuestionType::Choice));
        }
        if contains_sub(stem, "[多选]") || contains_sub(stem, "[多选题]") {
            return Option::Some(ClassificationResult::certain(QuestionType::MultipleChoice));
        }
        if contains_sub(stem, "[判断]") || contains_sub(stem, "[判断题]") {
            return Option::Some(ClassificationResult::certain(QuestionType::TrueFalse));
        }
        if contains_sub(stem, "[填空]") || contains_sub(stem, "[填空题]") {
            return Option::Some(ClassificationResult::certain(QuestionType::FillInTheBlank));
        }
        if options.len() == 2 && Self::is_binary_options(options) {
            return Option::Some(ClassificationResult::certain(QuestionType::TrueFalse));
        }
        let stem_lower = to_lowercase(stem);
        if contains_sub(stem_lower.as_str(), "多选") || contains_sub(
            stem_lower.as_str(),
            "以下全部正确",
        ) || contains_sub(stem_lower.as_str(), "都正确") {
            return Option::Some(ClassificationResult::new(QuestionType::MultipleChoice, 900));
        }
        Option::None
    }
}

/// An option that reads as a lettered choice: after leading white space it
/// starts with a letter prefix `A.` through `F.`.
pub open spec fn spec_has_letter_prefix(o: Seq<char>) -> bool {
    let t = spec_trim_start(o);
    ||| starts_with_seq(t, "A."@)
    ||| starts_with_seq(t, "B."@)
    ||| starts_with_seq(t, "C."@)
    ||| starts_with_seq(t, "D."@)
    ||| starts_with_seq(t, "E."@)
    ||| starts_with_seq(t, "F."@)
}

/// Every option carries a letter prefix.
pub open spec fn spec_letter_prefixed(opts: Seq<Seq<char>>) -> bool {
    forall|i: int| 0 <= i < opts.len() ==> spec_has_letter_prefix(#[trigger] opts[i])
}

fn has_letter_prefix(o: &str) -> (r: bool)
    ensures
        r == spec_has_letter_prefix(o@),
{
    let t = trim_start_str(o);
    starts_with_str(t.as_str(), "A.") || starts_with_str(t.as_str(), "B.") || starts_with_str(
        t.as_str(),
        "C.",
    ) || starts_with_str(t.as_str(), "D.") || starts_with_str(t.as_str(), "E.")
        || starts_with_str(t.as_str(), "F.")
}

/// Semantic rule classifier: context-based reasoning over parentheses,
/// underscores, binary pairs and letter prefixes.
pub struct SemanticRuleClassifier;

/// What the semantic rules decide: parentheses with a binary pair read as
/// true/false, parentheses without options or underscore runs as fill in the
/// blank, and two or more lettered options as a choice — multiple when the
/// stem asks for everything that holds.
pub open spec fn spec_semantic_classify(
    stem: Seq<char>,
    stem_lower: Seq<char>,
    opts: Seq<Seq<char>>,
    opts_lower: Seq<Seq<char>>,
) -> Option<(QuestionType, int)> {
    let has_parens = contains_seq(stem, "()"@) || contains_seq(stem, "（）"@);
    let binary = opts.len() == 2 && spec_is_binary_options(opts_lower);
    if has_parens && binary {
        Option::Some((QuestionType::TrueFalse, 850int))
    } else if has_parens && opts.len() == 0 {
        Option::Some((QuestionType::FillInTheBlank, 850int))
    } else if contains_seq(stem, "___"@) || contains_seq(stem, "____"@) || contains_seq(
        stem,
        "_____"@,
    ) {
        Option::Some((QuestionType::FillInTheBlank, 900int))
    } else if opts.len() >= 2 && spec_letter_prefixed(opts) {
        if contains_seq(stem_lower, "全部"@) || contains_seq(stem_lower, "都"@) {
            Option::Some((QuestionType::MultipleChoice, 800int))
        } else {
            Option::Some((QuestionType::Choice, 800int))
        }
    } else {
        Option::None
    }
}

impl SemanticRuleClassifier {
    /// Classify based on semantic context and rules.
    pub fn classify(stem: &str, options: &Vec<String>) -> (r: Option<ClassificationResult>)
        ensures
            r is Some <==> spec_semantic_classify(
                stem@,
                lower_of(stem@),
                options@.map_values(|o: String| o@),
                options@.map_values(|o: String| lower_of(o@)),
            ) is Some,
            r is Some ==> {
                let expected = spec_semantic_classify(
                    stem@,
                    lower_of(stem@),
                    options@.map_values(|o: String| o@),
                    options@.map_values(|o: String| lower_of(o@)),
                )->0;
                r->0.qtype == expected.0 && r->0.confidence == expected.1 && r->0.wf()
            },
    {
        let has_parens = contains_sub(stem, "()") || contains_sub(stem, "（）");
        let has_binary = options.len() == 2 && StructuralClassifier::is_binary_options(options);
        if has_parens && has_binary {
            return Option::Some(ClassificationResult::new(QuestionType::TrueFalse, 850));
        }
        if has_parens && options.len() == 0 {
            return Option::Some(ClassificationResult::new(QuestionType::FillInTheBlank, 850));
        }
        if contains_sub(stem, "___") || contains_sub(stem, "____") || contains_sub(stem, "_____") {
            return Option::Some(ClassificationResult::new(QuestionType::FillInTheBlank, 900));
        }
        if options.len() >= 2 {
            let mut all_prefixed = true;
            let n = options.len();
            let ghost opts = options@.map_values(|o: String| o@);
            for i in 0..n
                invariant
                    n == options@.len(),
                    opts == options@.map_values(|o: String| o@),
                    all_prefixed == (forall|j: int|
                        0 <= j < i ==> spec_has_letter_prefix(#[trigger] opts[j])),
            {
                proof {
                    assert(opts[i as int] == options@[i as int]@);
                }
                if !has_letter_prefix(options[i].as_str()) {
                    all_prefixed = false;
                }
            }
            if all_prefixed {
                let stem_lower = to_lowercase(stem);
                if contains_sub(stem_lower.as_str(), "全部") || contains_sub(
                    stem_lower.as_str(),
                    "都",
                ) {
                    return Option::Some(
                        ClassificationResult::new(QuestionType::MultipleChoice, 800),
                    );
                }
                return Option::Some(ClassificationResult::new(QuestionType::Choice, 800));
            }
        }
        Option::None
    }
}

/// A confidence capped at full scale.
pub open spec fn spec_cap(x: int) -> int {
    if x > CONFIDENCE_SCALE {
        CONFIDENCE_SCALE as int
    } else {
        x
    }
}

/// Confidence adjustment from contextual patterns: explicit markers,
/// emphasis and question marks raise it, and each type has one stronger
/// corroborating pattern; every step is capped at full confidence.
pub open spec fn spec_adjust_confidence(
    base: int,
    stem: Seq<char>,
    stem_lower: Seq<char>,
    opts_lower: Seq<Seq<char>>,
    qtype: QuestionType,
) -> int {
    let c1 = if contains_seq(stem, "["@) && contains_seq(stem, "]"@) {
        spec_cap(base + 300)
    } else {
        base
    };
    let c2 = if contains_seq(stem, "！"@) || contains_seq(stem, "!"@) {
        spec_cap(c1 + 100)
    } else {
        c1
    };
    let c3 = if contains_seq(stem, "？"@) || contains_seq(stem, "?"@) {
        spec_cap(c2 + 50)
    } else {
        c2
    };
    match qtype {
        QuestionType::MultipleChoice => {
            let c4 = if contains_seq(stem_lower, "以下全部正确"@) || contains_seq(
                stem_lower,
                "all of the above"@,
            ) {
                spec_cap(c3 + 200)
            } else {
                c3
            };
            if opts_lower.len() >= 4 {
                spec_cap(c4 + 100)
            } else {
                c4
            }
        },
        QuestionType::Choice => {
            if contains_seq(stem_lower, "最佳"@) || contains_seq(stem_lower, "best"@) {
                spec_cap(c3 + 150)
            } else {
                c3
            }
        },
        QuestionType::TrueFalse => {
            if opts_lower.len() == 2 && spec_is_binary_options(opts_lower) {
                spec_cap(c3 + 300)
            } else {
                c3
            }
        },
        QuestionType::FillInTheBlank => {
            if contains_seq(stem, "___"@) || contains_seq(stem, "（）"@) || contains_seq(
                stem,
                "()"@,
            ) {
                spec_cap(c3 + 200)
            } else {
                c3
            }
        },
        QuestionType::Subjective => c3,
    }
}

/// What keyword analysis decides: the four table scores against the
/// lowercased stem, the best of them (later tables win ties), reported only
/// at or above the floor, with contextual adjustment.
pub open spec fn spec_nlp_classify(
    stem: Seq<char>,
    stem_lower: Seq<char>,
    opts_lower: Seq<Seq<char>>,
) -> Option<(QuestionType, int)> {
    let count = opts_lower.len() as int;
    let mc = spec_calculate_score(spec_mc_keywords(), stem_lower, count);
    let sc = spec_calculate_score(spec_sc_keywords(), stem_lower, count);
    let tf = spec_calculate_score(spec_tf_keywords(), stem_lower, count);
    let fb = spec_calculate_score(spec_fb_keywords(), stem_lower, count);
    let best1 = if sc >= mc {
        (sc, QuestionType::Choice)
    } else {
        (mc, QuestionType::MultipleChoice)
    };
    let best2 = if tf >= best1.0 {
        (tf, QuestionType::TrueFalse)
    } else {
        best1
    };
    let best3 = if fb >= best2.0 {
        (fb, QuestionType::FillInTheBlank)
    } else {
        best2
    };
    if best3.0 >= SCORE_FLOOR {
        Option::Some(
            (best3.1, spec_adjust_confidence(best3.0, stem, stem_lower, opts_lower, best3.1)),
        )
    } else {
        Option::None
    }
}

/// Keyword classifier: weighted keyword matching with contextual adjustment.
pub struct NlpClassifier;

impl NlpClassifier {
    fn adjust_confidence(
        base: u32,
        stem: &str,
        stem_lower: &str,
        options: &Vec<String>,
        qtype: QuestionType,
    ) -> (r: u32)
        requires
            base <= CONFIDENCE_SCALE,
            stem_lower@ == lower_of(stem@),
        ensures
            r == spec_adjust_confidence(
                base as int,
                stem@,
                lower_of(stem@),
                options@.map_values(|o: String| lower_of(o@)),
                qtype,
            ),
            r <= CONFIDENCE_SCALE,
    {
        let mut confidence = base;
        if contains_sub(stem, "[") && contains_sub(stem, "]") {
            confidence = if confidence + 300 > CONFIDENCE_SCALE {
                CONFIDENCE_SCALE
            } else {
                confidence + 300
            };
        }
        if contains_sub(stem, "！") || contains_sub(stem, "!") {
            confidence = if confidence + 100 > CONFIDENCE_SCALE {
                CONFIDENCE_SCALE
            } else {
                confidence + 100
            };
        }
        if contains_sub(stem, "？") || contains_sub(stem, "?") {
            confidence = if confidence + 50 > CONFIDENCE_SCALE {
                CONFIDENCE_SCALE
            } else {
                confidence + 50
            };
        }
        match qtype {
            QuestionType::MultipleChoice => {
                if contains_sub(stem_lower, "以下全部正确") || contains_sub(
                    stem_lower,
                    "all of the above",
                ) {
                    confidence = if confidence + 200 > CONFIDENCE_SCALE {
                        CONFIDENCE_SCALE
                    } else {
                        confidence + 200
                    };
                }
                if options.len() >= 4 {
                    confidence = if confidence + 100 > CONFIDENCE_SCALE {
                        CONFIDENCE_SCALE
                    } else {
                        confidence + 100
                    };
                }
            },
            QuestionType::Choice => {
                if contains_sub(stem_lower, "最佳") || contains_sub(stem_lower, "best") {
                    confidence = if confidence + 150 > CONFIDENCE_SCALE {
                        CONFIDENCE_SCALE
                    } else {
                        confidence + 150
                    };
                }
            },
            QuestionType::TrueFalse => {
                if options.len() == 2 && StructuralClassifier::is_binary_options(options) {
                    confidence = if confidence + 300 > CONFIDENCE_SCALE {
                        CONFIDENCE_SCALE
                    } else {
                        confidence + 300
                    };
                }
            },
            QuestionType::FillInTheBlank => {
                if contains_sub(stem, "___") || contains_sub(stem, "（）") || contains_sub(
                    stem,
                    "()",
                ) {
                    confidence = if confidence + 200 > CONFIDENCE_SCALE {
                        CONFIDENCE_SCALE
                    } else {
                        confidence + 200
                    };
                }
            },
            QuestionType::Subjective => {},
        }
        confidence
    }

    /// Classify using weighted keyword matching; nothing is reported below
    /// the score floor.
    pub fn classify(stem: &str, options: &Vec<String>) -> (r: Option<ClassificationResult>)
        ensures
            r is Some <==> spec_nlp_classify(
                stem@,
                lower_of(stem@),
                options@.map_values(|o: String| lower_of(o@)),
            ) is Some,
            r is Some ==> {
                let expected = spec_nlp_classify(
                    stem@,
                    lower_of(stem@),
                    options@.map_values(|o: String| lower_of(o@)),
                )->0;
                r->0.qtype == expected.0 && r->0.confidence == expected.1 && r->0.wf()
            },
    {
        let stem_lower = to_lowercase(stem);
        let count = options.len();
        proof {
            assert(options@.map_values(|o: String| lower_of(o@)).len() == options@.len());
        }
        let mc = calculate_score(stem_lower.as_str(), &mc_keywords(), count);
        let sc = calculate_score(stem_lower.as_str(), &sc_keywords(), count);
        let tf = calculate_score(stem_lower.as_str(), &tf_keywords(), count);
        let fb = calculate_score(stem_lower.as_str(), &fb_keywords(), count);
        let mut best_score = mc;
        let mut best_type = QuestionType::MultipleChoice;
        if sc >= best_score {
            best_score = sc;
            best_type = QuestionType::Choice;
        }
        if tf >= best_score {
            best_score = tf;
            best_type = QuestionType::TrueFalse;
        }
        if fb >= best_score {
            best_score = fb;
            best_type = QuestionType::FillInTheBlank;
        }
        if best_score >= SCORE_FLOOR {
            let adjusted = Self::adjust_confidence(
                best_score,
                stem,
                stem_lower.as_str(),
                options,
                best_type,
            );
            Option::Some(ClassificationResult::new(best_type, adjusted))
        } else {
            Option::None
        }
    }

    /// Find the keywords of one table matching a lowercased text.
    pub fn find_matches(text: &str, keywords: &Vec<(&'static str, u32)>) -> (r: Vec<String>)
        ensures
            r@.map_values(|s: String| s@) == spec_keyword_matches(table_view(keywords@), text@),
    {
        find_keyword_matches(text, keywords)
    }

    /// Detailed classification analysis: which keywords of each table match
    /// the lowercased stem, the option count, and what classification would
    /// be recommended.
    pub fn analyze(stem: &str, options: &Vec<String>) -> (r: NlpAnalysis)
        ensures
            r.multiple_choice_matches@.map_values(|s: String| s@) == spec_keyword_matches(
                spec_mc_keywords(),
                lower_of(stem@),
            ),
            r.single_choice_matches@.map_values(|s: String| s@) == spec_keyword_matches(
                spec_sc_keywords(),
                lower_of(stem@),
            ),
            r.true_false_matches@.map_values(|s: String| s@) == spec_keyword_matches(
                spec_tf_keywords(),
                lower_of(stem@),
            ),
            r.fill_blank_matches@.map_values(|s: String| s@) == spec_keyword_matches(
                spec_fb_keywords(),
                lower_of(stem@),
            ),
            r.option_count == options@.len(),
            r.recommended_type is Some <==> spec_nlp_classify(
                stem@,
                lower_of(stem@),
                options@.map_values(|o: String| lower_of(o@)),
            ) is Some,
            r.recommended_type is Some ==> r.recommended_type->0 == (spec_nlp_classify(
                stem@,
                lower_of(stem@),
                options@.map_values(|o: String| lower_of(o@)),
            )->0).0,
    {
        let stem_lower = to_lowercase(stem);
        let recommended_type = match Self::classify(stem, options) {
            Option::Some(c) => Option::Some(c.qtype),
            Option::None => Option::None,
        };
        NlpAnalysis {
            multiple_choice_matches: Self::find_matches(stem_lower.as_str(), &mc_keywords()),
            single_choice_matches: Self::find_matches(stem_lower.as_str(), &sc_keywords()),
            true_false_matches: Self::find_matches(stem_lower.as_str(), &tf_keywords()),
            fill_blank_matches: Self::find_matches(stem_lower.as_str(), &fb_keywords()),
            option_count: options.len(),
            recommended_type,
        }
    }
}

/// Detailed analysis result from keyword classification.
#[derive(Debug, Clone)]
pub struct NlpAnalysis {
    /// Keywords that matched multiple choice patterns
    pub multiple_choice_matches: Vec<String>,
    /// Keywords that matched single choice patterns
    pub single_choice_matches: Vec<String>,
    /// Keywords that matched true/false patterns
    pub true_false_matches: Vec<String>,
    /// Keywords that matched fill-in-blank patterns
    pub fill_blank_matches: Vec<String>,
    /// Number of options provided
    pub option_count: usize,
    /// Recommended question type (if confident)
    pub recommended_type: Option<QuestionType>,
}

} // verus!
