//! Question extraction from markdown text.
//!
//! Tokenization is CommonMark and is delegated to pulldown-cmark; everything
//! read from the event stream — question boundaries at headings, stems,
//! answer options from list items, analysis paragraphs, formula snippets —
//! is a verified state machine over the events.

use vstd::prelude::*;
use crate::models::{OptionData, Question, QuestionData, QuestionOption, QuestionType};
use crate::text::{contains_seq, contains_sub, spec_trim, trim_str};
use pulldown_cmark::{Event, Tag, TagEnd};

verus! {

/// One markdown event, reduced to what question extraction reads.
pub enum MdEvent {
    HeadingStart { level: u32 },
    HeadingEnd,
    ParagraphStart,
    ParagraphEnd,
    Text { text: String },
    Code { code: String },
    ListStart,
    ListEnd,
    ItemStart,
    ItemEnd,
    Other,
}

/// The markdown event stream of a document.
pub uninterp spec fn md_events_of(s: Seq<char>) -> Seq<MdEvent>;

/// Relies on pulldown_cmark::Parser: the CommonMark event stream of the
/// text, a function of the characters alone. Events that question extraction
/// does not read are collapsed to `Other`.
#[verifier::external_body]
fn markdown_events(text: &str) -> (r: Vec<MdEvent>)
    ensures
        r@ == md_events_of(text@),
{
    pulldown_cmark::Parser::new(text).map(|e| match e {
        Event::Start(Tag::Heading { level, .. }) => MdEvent::HeadingStart { level: level as u32 },
        Event::End(TagEnd::Heading(_)) => MdEvent::HeadingEnd,
        Event::Start(Tag::Paragraph) => MdEvent::ParagraphStart,
        Event::End(TagEnd::Paragraph) => MdEvent::ParagraphEnd,
        Event::Start(Tag::List(_)) => MdEvent::ListStart,
        Event::End(TagEnd::List(_)) => MdEvent::ListEnd,
        Event::Start(Tag::Item) => MdEvent::ItemStart,
        Event::End(TagEnd::Item) => MdEvent::ItemEnd,
        Event::Text(t) => MdEvent::Text { text: t.into_string() },
        Event::Code(c) => MdEvent::Code { code: c.into_string() },
        _ => MdEvent::Other,
    }).collect()
}

/// The full extraction state: finished questions, the question being built,
/// the text accumulator, and the list and formula buffers.
pub ghost struct ParseState {
    pub done: Seq<QuestionData>,
    pub cur: QuestionData,
    pub text: Seq<char>,
    pub in_list: bool,
    pub items: Seq<Seq<char>>,
    pub latex: Seq<Seq<char>>,
}

/// A question with nothing filled in yet.
pub open spec fn empty_question() -> QuestionData {
    QuestionData {
        qtype: QuestionType::Subjective,
        stem: Seq::empty(),
        options: Seq::empty(),
        answer: Option::None,
        analysis: Option::None,
        images: Seq::empty(),
        latex: Seq::empty(),
    }
}

/// The state before any event.
pub open spec fn init_state() -> ParseState {
    ParseState {
        done: Seq::empty(),
        cur: empty_question(),
        text: Seq::empty(),
        in_list: false,
        items: Seq::empty(),
        latex: Seq::empty(),
    }
}

/// Close the question being built: if it has a stem it takes the buffered
/// formulas and joins the finished questions; otherwise nothing changes.
pub open spec fn spec_finalize(s: ParseState) -> ParseState {
    if s.cur.stem.len() > 0 {
        ParseState {
            done: s.done.push(QuestionData { latex: s.latex, ..s.cur }),
            cur: empty_question(),
            latex: Seq::empty(),
            ..s
        }
    } else {
        s
    }
}

/// The options made from buffered list items: contents trimmed, sort order
/// contiguous from `base`, correctness unknown.
pub open spec fn number_items(items: Seq<Seq<char>>, base: int) -> Seq<OptionData> {
    Seq::new(items.len(), |i: int| OptionData {
        content: spec_trim(items[i]),
        sort_order: base + i,
        is_correct: false,
    })
}

/// The effect of an inline code span: a trimmed span delimited by `$` is
/// kept as a formula; one holding a backslash is kept wrapped in `$`;
/// anything else is ignored.
pub open spec fn code_step(s: ParseState, code: Seq<char>) -> ParseState {
    let t = spec_trim(code);
    if t.len() > 0 && t[0] == '$' && t.last() == '$' {
        ParseState { latex: s.latex.push(t), ..s }
    } else if contains_seq(t, "\\"@) {
        ParseState { latex: s.latex.push("$"@ + t + "$"@), ..s }
    } else {
        s
    }
}

/// One step of question extraction.
pub open spec fn spec_step(s: ParseState, e: MdEvent) -> ParseState {
    match e {
        MdEvent::HeadingStart { level } => {
            let s1 = if level <= 3 && s.cur.stem.len() > 0 {
                spec_finalize(s)
            } else {
                s
            };
            ParseState { text: Seq::empty(), ..s1 }
        },
        MdEvent::HeadingEnd => {
            if s.text.len() > 0 {
                ParseState { cur: QuestionData { stem: spec_trim(s.text), ..s.cur }, ..s }
            } else {
                s
            }
        },
        MdEvent::ParagraphStart => ParseState { text: Seq::empty(), ..s },
        MdEvent::ParagraphEnd => {
            if s.text.len() > 0 && s.cur.stem.len() == 0 {
                ParseState { cur: QuestionData { stem: spec_trim(s.text), ..s.cur }, ..s }
            } else if s.text.len() > 0 && s.cur.analysis is None {
                ParseState {
                    cur: QuestionData { analysis: Option::Some(spec_trim(s.text)), ..s.cur },
                    ..s
                }
            } else {
                s
            }
        },
        MdEvent::Text { text } => ParseState { text: s.text + text@, ..s },
        MdEvent::Code { code } => code_step(s, code@),
        MdEvent::ListStart => ParseState { in_list: true, ..s },
        MdEvent::ListEnd => ParseState {
            in_list: false,
            cur: QuestionData {
                options: s.cur.options + number_items(s.items, s.cur.options.len() as int),
                ..s.cur
            },
            items: Seq::empty(),
            ..s
        },
        MdEvent::ItemStart => ParseState { text: Seq::empty(), ..s },
        MdEvent::ItemEnd => {
            if s.in_list {
                ParseState { items: s.items.push(s.text), ..s }
            } else {
                s
            }
        },
        MdEvent::Other => s,
    }
}

/// Run extraction over a whole event sequence.
pub open spec fn run_events(s: ParseState, es: Seq<MdEvent>) -> ParseState
    decreases es.len(),
{
    if es.len() == 0 {
        s
    } else {
        run_events(spec_step(s, es.first()), es.drop_first())
    }
}

/// The questions extracted from an event stream: run every event, then close
/// the last question.
pub open spec fn spec_parse_questions(es: Seq<MdEvent>) -> Seq<QuestionData> {
    spec_finalize(run_events(init_state(), es)).done
}

proof fn lemma_run_snoc(s: ParseState, es: Seq<MdEvent>, e: MdEvent)
    ensures
        run_events(s, es.push(e)) == spec_step(run_events(s, es), e),
    decreases es.len(),
{
    if es.len() == 0 {
        assert(es.push(e).drop_first() =~= Seq::<MdEvent>::empty());
        assert(es.push(e).first() == e);
        assert(run_events(s, es.push(e)) == run_events(spec_step(s, e), es.push(e).drop_first()));
        assert(run_events(spec_step(s, e), Seq::<MdEvent>::empty()) == spec_step(s, e));
        assert(run_events(s, es) == s);
    } else {
        assert(es.push(e).first() == es.first());
        assert(es.push(e).drop_first() =~= es.drop_first().push(e));
        assert(run_events(s, es.push(e)) == run_events(
            spec_step(s, es.first()),
            es.drop_first().push(e),
        ));
        lemma_run_snoc(spec_step(s, es.first()), es.drop_first(), e);
        assert(run_events(s, es) == run_events(spec_step(s, es.first()), es.drop_first()));
    }
}

/// The markdown parser: an incremental consumer of event streams. Feeding it
/// a document advances its state by exactly the extraction state machine.
pub struct MarkdownParser {
    questions: Vec<Question>,
    current_question: Question,
    current_text: String,
    in_list: bool,
    list_items: Vec<String>,
    latex_formulas: Vec<String>,
}

impl MarkdownParser {
    /// The abstract extraction state this parser is in.
    pub closed spec fn state(&self) -> ParseState {
        ParseState {
            done: self.questions@.map_values(|q: Question| q@),
            cur: self.current_question@,
            text: self.current_text@,
            in_list: self.in_list,
            items: self.list_items@.map_values(|t: String| t@),
            latex: self.latex_formulas@.map_values(|t: String| t@),
        }
    }

    /// Create a new parser instance.
    pub fn new() -> (r: Self)
        ensures
            r.state() == init_state(),
    {
        let r = MarkdownParser {
            questions: Vec::new(),
            current_question: Question::default(),
            current_text: String::new(),
            in_list: false,
            list_items: Vec::new(),
            latex_formulas: Vec::new(),
        };
        proof {
            assert(r.state().done =~= init_state().done);
            assert(r.state().items =~= init_state().items);
            assert(r.state().latex =~= init_state().latex);
            assert(r.state().cur.options =~= empty_question().options);
            assert(r.state().cur.images =~= empty_question().images);
            assert(r.state().cur.latex =~= empty_question().latex);
        }
        r
    }

    fn finalize_question(&mut self)
        ensures
            final(self).state() == spec_finalize(old(self).state()),
    {
        if !self.current_question.stem.as_str().is_empty() {
            let mut q = self.current_question.duplicate();
            q.latex = self.latex_formulas.split_off(0);
            proof {
                assert(q.latex@ =~= old(self).latex_formulas@);
                assert(q@.latex =~= old(self).state().latex);
            }
            self.questions.push(q);
            self.current_question = Question::default();
            proof {
                assert(self.latex_formulas@.map_values(|t: String| t@) =~= Seq::<
                    Seq<char>,
                >::empty());
                assert(self.current_question@.options =~= empty_question().options);
                assert(self.current_question@.images =~= empty_question().images);
                assert(self.current_question@.latex =~= empty_question().latex);
                assert(self.current_question@ == empty_question());
                assert(q@ == QuestionData {
                    latex: old(self).state().latex,
                    ..old(self).state().cur
                });
                assert(self.questions@.map_values(|x: Question| x@) =~= old(
                    self,
                ).state().done.push(q@));
                assert(self.state() == spec_finalize(old(self).state()));
            }
        }
    }

    fn on_heading_start(&mut self, level: u32)
        ensures
            final(self).state() == spec_step(old(self).state(), (MdEvent::HeadingStart { level })),
    {
        if level <= 3 && !self.current_question.stem.as_str().is_empty() {
            self.finalize_question();
        }
        self.current_text = String::new();
    }

    fn on_heading_end(&mut self)
        ensures
            final(self).state() == spec_step(old(self).state(), MdEvent::HeadingEnd),
    {
        if !self.current_text.as_str().is_empty() {
            self.current_question.stem = trim_str(self.current_text.as_str());
        }
    }

    fn on_paragraph_end(&mut self)
        ensures
            final(self).state() == spec_step(old(self).state(), MdEvent::ParagraphEnd),
    {
        if !self.current_text.as_str().is_empty() {
            if self.current_question.stem.as_str().is_empty() {
                self.current_question.stem = trim_str(self.current_text.as_str());
            } else if self.current_question.analysis.is_none() {
                self.current_question.analysis = Option::Some(
                    trim_str(self.current_text.as_str()),
                );
            }
        }
    }

    fn on_code(&mut self, code: &str)
        ensures
            final(self).state() == code_step(old(self).state(), code@),
    {
        let trimmed = trim_str(code);
        let n = trimmed.as_str().unicode_len();
        if n > 0 && trimmed.as_str().get_char(0) == '$' && trimmed.as_str().get_char(n - 1) == '$' {
            self.latex_formulas.push(trimmed);
            proof {
                assert(self.latex_formulas@.map_values(|t: String| t@) =~= old(
                    self,
                ).state().latex.push(spec_trim(code@)));
            }
        } else if contains_sub(trimmed.as_str(), "\\") {
            let wrapped = String::from_str("$").concat(trimmed.as_str()).concat("$");
            self.latex_formulas.push(wrapped);
            proof {
                assert(self.latex_formulas@.map_values(|t: String| t@) =~= old(
                    self,
                ).state().latex.push("$"@ + spec_trim(code@) + "$"@));
            }
        }
    }

    fn on_list_end(&mut self)
        ensures
            final(self).state() == spec_step(old(self).state(), MdEvent::ListEnd),
    {
        let n = self.list_items.len();
        for idx in 0..n
            invariant
                n == self.list_items@.len(),
                self.questions == old(self).questions,
                self.current_text == old(self).current_text,
                self.in_list == old(self).in_list,
                self.latex_formulas == old(self).latex_formulas,
                self.list_items == old(self).list_items,
                self.current_question.stem == old(self).current_question.stem,
                self.current_question.answer == old(self).current_question.answer,
                self.current_question.analysis == old(self).current_question.analysis,
                self.current_question.images == old(self).current_question.images,
                self.current_question.latex == old(self).current_question.latex,
                self.current_question.qtype == old(self).current_question.qtype,
                self.current_question.id == old(self).current_question.id,
                self.current_question.created_at == old(self).current_question.created_at,
                self.current_question.options@.map_values(|o: QuestionOption| o@) =~= old(
                    self,
                ).current_question@.options + number_items(
                    old(self).state().items.take(idx as int),
                    old(self).current_question@.options.len() as int,
                ),
        {
            let ghost prev = self.current_question.options@;
            let content = trim_str(self.list_items[idx].as_str());
            let sort_order = self.current_question.options.len();
            let opt = QuestionOption { content, sort_order, is_correct: false };
            self.current_question.options.push(opt);
            proof {
                let items = old(self).state().items;
                let base = old(self).current_question@.options.len() as int;
                assert(items[idx as int] == old(self).list_items@[idx as int]@);
                assert(self.current_question.options@ == prev.push(opt));
                assert(self.current_question.options@.map_values(|o: QuestionOption| o@)
                    =~= prev.map_values(|o: QuestionOption| o@).push(opt@));
                assert(opt@ == (OptionData {
                    content: spec_trim(items[idx as int]),
                    sort_order: base + idx,
                    is_correct: false,
                }));
                assert(number_items(items.take(idx + 1), base) =~= number_items(
                    items.take(idx as int),
                    base,
                ).push(OptionData {
                    content: spec_trim(items[idx as int]),
                    sort_order: base + idx,
                    is_correct: false,
                }));
            }
        }
        self.list_items = Vec::new();
        self.in_list = false;
        proof {
            assert(old(self).state().items.take(n as int) =~= old(self).state().items);
            assert(self.list_items@.map_values(|t: String| t@) =~= Seq::<Seq<char>>::empty());
            assert(self.state() == spec_step(old(self).state(), MdEvent::ListEnd));
        }
    }

    /// Feed one document to the parser: its event stream advances the
    /// extraction state machine, and the final question is closed.
    pub fn parse(&mut self, markdown: &str)
        ensures
            final(self).state() == spec_finalize(
                run_events(old(self).state(), md_events_of(markdown@)),
            ),
    {
        let events = markdown_events(markdown);
        let n = events.len();
        for i in 0..n
            invariant
                n == events@.len(),
                events@ == md_events_of(markdown@),
                self.state() == run_events(old(self).state(), events@.take(i as int)),
        {
            proof {
                assert(events@.take(i + 1) =~= events@.take(i as int).push(events@[i as int]));
                lemma_run_snoc(old(self).state(), events@.take(i as int), events@[i as int]);
            }
            let ghost prev = run_events(old(self).state(), events@.take(i as int));
            let ghost e = events@[i as int];
            match &events[i] {
                MdEvent::HeadingStart { level } => {
                    let l = *level;
                    self.on_heading_start(l);
                    proof {
                        assert(e == (MdEvent::HeadingStart { level: l }));
                        assert(self.state() == spec_step(prev, e));
                    }
                },
                MdEvent::HeadingEnd => {
                    self.on_heading_end();
                    proof {
                        assert(self.state() == spec_step(prev, e));
                    }
                },
                MdEvent::ParagraphStart => {
                    self.current_text = String::new();
                    proof {
                        assert(self.state() == spec_step(prev, e));
                    }
                },
                MdEvent::ParagraphEnd => {
                    self.on_paragraph_end();
                    proof {
                        assert(self.state() == spec_step(prev, e));
                    }
                },
                MdEvent::Text { text } => {
                    self.current_text.append(text.as_str());
                    proof {
                        assert(e == (MdEvent::Text { text: *text }));
                        assert(self.state() == spec_step(prev, e));
                    }
                },
                MdEvent::Code { code } => {
                    self.on_code(code.as_str());
                    proof {
                        assert(e == (MdEvent::Code { code: *code }));
                        assert(self.state() == spec_step(prev, e));
                    }
                },
                MdEvent::ListStart => {
                    self.in_list = true;
                    proof {
                        assert(self.state() == spec_step(prev, e));
                    }
                },
                MdEvent::ListEnd => {
                    self.on_list_end();
                    proof {
                        assert(self.state() == spec_step(prev, e));
                    }
                },
                MdEvent::ItemStart => {
                    self.current_text = String::new();
                    proof {
                        assert(self.state() == spec_step(prev, e));
                    }
                },
                MdEvent::ItemEnd => {
                    if self.in_list {
                        self.list_items.push(self.current_text.clone());
                        proof {
                            assert(self.list_items@.map_values(|t: String| t@) =~= prev.items.push(
                                self.current_text@,
                            ));
                        }
                    }
                    proof {
                        assert(self.state() == spec_step(prev, e));
                    }
                },
                MdEvent::Other => {
                    proof {
                        assert(self.state() == spec_step(prev, e));
                    }
                },
            }
        }
        proof {
            assert(events@.take(n as int) =~= events@);
        }
        self.finalize_question();
    }

    /// Hand over the questions extracted so far, leaving the parser as if
    /// none had been finished.
    fn take_questions(&mut self) -> (r: Vec<Question>)
        ensures
            r@.map_values(|q: Question| q@) == old(self).state().done,
            final(self).state() == (ParseState { done: Seq::empty(), ..old(self).state() }),
    {
        let r = self.questions.split_off(0);
        proof {
            assert(r@ =~= old(self).questions@);
            assert(self.questions@.map_values(|q: Question| q@) =~= Seq::<QuestionData>::empty());
        }
        r
    }
}

impl Default for MarkdownParser {
    /// A parser in the initial state.
    fn default() -> (r: Self)
        ensures
            r.state() == init_state(),
    {
        MarkdownParser::new()
    }
}

/// A question whose option order is the contiguous zero-based sequence
/// matching extraction order.
pub open spec fn options_ordered(q: QuestionData) -> bool {
    forall|j: int| 0 <= j < q.options.len() ==> q.options[j].sort_order == j
}

spec fn state_ordered(s: ParseState) -> bool {
    &&& forall|i: int| 0 <= i < s.done.len() ==> options_ordered(s.done[i])
    &&& options_ordered(s.cur)
}

proof fn lemma_finalize_preserves_ordered(s: ParseState)
    requires
        state_ordered(s),
    ensures
        state_ordered(spec_finalize(s)),
{
}

proof fn lemma_step_preserves_ordered(s: ParseState, e: MdEvent)
    requires
        state_ordered(s),
    ensures
        state_ordered(spec_step(s, e)),
{
    match e {
        MdEvent::ListEnd => {
            let base = s.cur.options.len() as int;
            let merged = s.cur.options + number_items(s.items, base);
            assert forall|j: int| 0 <= j < merged.len() implies merged[j].sort_order == j by {
                if j >= base {
                    assert(merged[j] == number_items(s.items, base)[j - base]);
                }
            }
        },
        _ => {},
    }
}

proof fn lemma_run_preserves_ordered(s: ParseState, es: Seq<MdEvent>)
    requires
        state_ordered(s),
    ensures
        state_ordered(run_events(s, es)),
    decreases es.len(),
{
    if es.len() > 0 {
        lemma_step_preserves_ordered(s, es.first());
        lemma_run_preserves_ordered(spec_step(s, es.first()), es.drop_first());
    }
}

/// Order preservation: for every event stream — so for every document — each
/// extracted question carries its options with `sort_order` equal to their
/// position: a contiguous zero-based sequence in extraction order.
pub proof fn lemma_parse_options_ordered(es: Seq<MdEvent>)
    ensures
        forall|i: int|
            0 <= i < spec_parse_questions(es).len() ==> options_ordered(spec_parse_questions(es)[i]),
{
    lemma_run_preserves_ordered(init_state(), es);
    lemma_finalize_preserves_ordered(run_events(init_state(), es));
}

/// Parse markdown text: the questions that the extraction state machine
/// yields for the document's event stream, in order.
pub fn parse_markdown(markdown: &str) -> (r: Vec<Question>)
    ensures
        r@.map_values(|q: Question| q@) == spec_parse_questions(md_events_of(markdown@)),
{
    let mut parser = MarkdownParser::new();
    parser.parse(markdown);
    parser.take_questions()
}

} // verus!
