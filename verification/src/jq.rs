//! The jq process that streamed lines are fed to.

use vstd::prelude::*;

use crate::http_client::joined;
use crate::text::{chars_of, from_utf8_lossy, lines, text_lines, trim, trimmed, utf8_lossy, views};

verus! {

/// What comes out of the jq process.
#[derive(Debug)]
pub enum JqEvent {
    Output(String),
    Error(String),
}

/// A step that is still to be taken with the jq process.
#[derive(Debug)]
pub enum JqWork {
    /// Show a line among the output of a request.
    Note { idx: usize, text: String },
    /// Feed a line of a request to the process.
    Feed { idx: usize, line: String },
    /// Let the process go.
    Stop,
}

/// What a step says.
#[verifier::ext_equal]
pub ghost enum JqWorkModel {
    Note { idx: usize, text: Seq<char> },
    Feed { idx: usize, line: Seq<char> },
    Stop,
}

impl View for JqWork {
    type V = JqWorkModel;

    open spec fn view(&self) -> JqWorkModel {
        match self {
            JqWork::Note { idx, text } => JqWorkModel::Note { idx: *idx, text: text@ },
            JqWork::Feed { idx, line } => JqWorkModel::Feed { idx: *idx, line: line@ },
            JqWork::Stop => JqWorkModel::Stop,
        }
    }
}

/// What some steps say.
pub open spec fn work_models(work: Seq<JqWork>) -> Seq<JqWorkModel> {
    Seq::new(work.len(), |i: int| work[i]@)
}

/// What the jq process was asked to do last.
#[derive(Debug)]
pub enum JqPhase {
    /// Nothing.
    Idle,
    /// To start, so that it can take a line.
    Starting { idx: usize, line: String, retry: bool },
    /// To take a line.
    Writing { idx: usize, line: String, retry: bool },
}

/// What a phase says.
#[verifier::ext_equal]
pub ghost enum JqPhaseModel {
    Idle,
    Starting { idx: usize, line: Seq<char>, retry: bool },
    Writing { idx: usize, line: Seq<char>, retry: bool },
}

impl View for JqPhase {
    type V = JqPhaseModel;

    open spec fn view(&self) -> JqPhaseModel {
        match self {
            JqPhase::Idle => JqPhaseModel::Idle,
            JqPhase::Starting { idx, line, retry } => JqPhaseModel::Starting {
                idx: *idx,
                line: line@,
                retry: *retry,
            },
            JqPhase::Writing { idx, line, retry } => JqPhaseModel::Writing {
                idx: *idx,
                line: line@,
                retry: *retry,
            },
        }
    }
}

/// What an event of the jq process says.
#[verifier::ext_equal]
pub ghost enum JqEventModel {
    Output(Seq<char>),
    Error(Seq<char>),
}

impl View for JqEvent {
    type V = JqEventModel;

    open spec fn view(&self) -> JqEventModel {
        match self {
            JqEvent::Output(line) => JqEventModel::Output(line@),
            JqEvent::Error(text) => JqEventModel::Error(text@),
        }
    }
}

/// What some events of the jq process say.
pub open spec fn jq_event_models(events: Seq<JqEvent>) -> Seq<JqEventModel> {
    Seq::new(events.len(), |i: int| events[i]@)
}

// ── Texts for the user ────────────────────────────────────────────────────────

/// A remark in red.
pub open spec fn remark(text: Seq<char>) -> Seq<char> {
    "\x1b[31m// "@ + text + "\x1b[0m"@
}

/// A line that jq refused, with its words in red.
pub open spec fn refused_line(line: Seq<char>, words: Seq<char>) -> Seq<char> {
    line + " \x1b[31m// jq: "@ + words + "\x1b[0m"@
}

/// The filter that is handed to jq: one of white space alone means everything.
pub open spec fn effective_filter(filter: Seq<char>) -> Seq<char> {
    if trimmed(filter).len() == 0 {
        "."@
    } else {
        filter
    }
}

pub(crate) fn make_remark(text: &str) -> (r: String)
    ensures
        r@ == remark(text@),
{
    let mut r = joined("\x1b[31m// ", text);
    r.append("\x1b[0m");
    r
}

pub(crate) fn make_refused_line(line: &str, words: &str) -> (r: String)
    ensures
        r@ == refused_line(line@, words@),
{
    let mut r = joined(line, " \x1b[31m// jq: ");
    r.append(words);
    r.append("\x1b[0m");
    r
}

pub(crate) fn choose_filter(filter: &str) -> (r: String)
    ensures
        r@ == effective_filter(filter@),
{
    if is_blank(filter) {
        ".".to_owned()
    } else {
        filter.to_owned()
    }
}

/// Whether a text holds white space alone.
fn is_blank(s: &str) -> (r: bool)
    ensures
        r == (trimmed(s@).len() == 0),
{
    let t = trim(s);
    let v = chars_of(t.as_str());
    v.len() == 0
}

// ── One run of jq ─────────────────────────────────────────────────────────────

/// What came of one run of jq.
pub enum JqOutcome {
    /// The process could not be started.
    NotStarted(String),
    /// The process could not be waited for.
    NotFinished(String),
    /// The process ended.
    Finished { success: bool, stdout: Vec<u8>, stderr: Vec<u8> },
}

/// What is shown of a run of jq on the whole response.
pub open spec fn shown_run(outcome: JqOutcome) -> Seq<char> {
    match outcome {
        JqOutcome::NotStarted(e) => "Failed to run jq: "@ + e@,
        JqOutcome::NotFinished(e) => "jq error: "@ + e@,
        JqOutcome::Finished { success, stdout, stderr } => if success {
            utf8_lossy(stdout@)
        } else {
            "jq error: "@ + trimmed(utf8_lossy(stderr@))
        },
    }
}

/// What is shown of a run of jq on one line.
pub open spec fn shown_line(line: Seq<char>, outcome: JqOutcome) -> Seq<Seq<char>> {
    match outcome {
        JqOutcome::NotStarted(e) => seq![remark("Failed to start jq: "@ + e@)],
        JqOutcome::NotFinished(e) => seq![remark("jq wait error: "@ + e@)],
        JqOutcome::Finished { success, stdout, stderr } => if success {
            text_lines(utf8_lossy(stdout@))
        } else {
            seq![refused_line(line, trimmed(utf8_lossy(stderr@)))]
        },
    }
}

/// Shows a run of jq on the whole response.
pub fn show_run(outcome: &JqOutcome) -> (r: String)
    ensures
        r@ == shown_run(*outcome),
{
    match outcome {
        JqOutcome::NotStarted(e) => joined("Failed to run jq: ", e.as_str()),
        JqOutcome::NotFinished(e) => joined("jq error: ", e.as_str()),
        JqOutcome::Finished { success, stdout, stderr } => if *success {
            from_utf8_lossy(stdout.as_slice())
        } else {
            joined("jq error: ", trim(from_utf8_lossy(stderr.as_slice()).as_str()).as_str())
        },
    }
}

/// One string in a list.
fn only(s: String) -> (r: Vec<String>)
    ensures
        views(r@) == seq![s@],
{
    let mut r: Vec<String> = Vec::new();
    let ghost text = s@;
    r.push(s);
    proof {
        assert(views(r@) =~= seq![text]);
    }
    r
}

/// Shows a run of jq on one line.
pub fn show_line(line: &str, outcome: &JqOutcome) -> (r: Vec<String>)
    ensures
        views(r@) == shown_line(line@, *outcome),
{
    match outcome {
        JqOutcome::NotStarted(e) => only(
            make_remark(joined("Failed to start jq: ", e.as_str()).as_str()),
        ),
        JqOutcome::NotFinished(e) => only(
            make_remark(joined("jq wait error: ", e.as_str()).as_str()),
        ),
        JqOutcome::Finished { success, stdout, stderr } => if *success {
            lines(from_utf8_lossy(stdout.as_slice()).as_str())
        } else {
            only(
                make_refused_line(
                    line,
                    trim(from_utf8_lossy(stderr.as_slice()).as_str()).as_str(),
                ),
            )
        },
    }
}

// ── A batch of lines ──────────────────────────────────────────────────────────

/// Lines that are put through jq one by one, each in a run of its own, so that
/// what is wrong with one does not touch the others.
pub struct JqBatch {
    /// The request that the lines belong to.
    pub idx: usize,
    pub filter: String,
    pub lines: Vec<String>,
    /// The line that is next.
    pub next: usize,
    pub output: Vec<String>,
    /// Whether jq cannot be started, so that nothing more is tried.
    pub stopped: bool,
}

/// What a batch says.
#[verifier::ext_equal]
pub ghost struct BatchModel {
    pub idx: usize,
    pub filter: Seq<char>,
    pub lines: Seq<Seq<char>>,
    pub next: int,
    pub output: Seq<Seq<char>>,
    pub stopped: bool,
}

impl View for JqBatch {
    type V = BatchModel;

    open spec fn view(&self) -> BatchModel {
        BatchModel {
            idx: self.idx,
            filter: self.filter@,
            lines: views(self.lines@),
            next: self.next as int,
            output: views(self.output@),
            stopped: self.stopped,
        }
    }
}

impl BatchModel {
    /// Whether there is a line to be run.
    pub open spec fn has_next(self) -> bool {
        !self.stopped && 0 <= self.next < self.lines.len()
    }

    /// The batch after its next line was run.
    pub open spec fn after(self, outcome: JqOutcome) -> BatchModel {
        BatchModel {
            next: self.next + 1,
            output: self.output + shown_line(self.lines[self.next], outcome),
            stopped: outcome is NotStarted,
            ..self
        }
    }
}

/// A batch that is still to be run.
pub open spec fn fresh_batch(idx: usize, filter: Seq<char>, lines: Seq<Seq<char>>) -> BatchModel {
    BatchModel {
        idx,
        filter: effective_filter(filter),
        lines,
        next: 0,
        output: Seq::empty(),
        stopped: false,
    }
}

/// The command line of jq for one run.
pub open spec fn run_args(filter: Seq<char>) -> Seq<Seq<char>> {
    seq!["--color-output"@, filter]
}

/// The command line of jq for streamed lines.
pub open spec fn stream_args(filter: Seq<char>) -> Seq<Seq<char>> {
    seq!["--color-output"@, "--unbuffered"@, filter]
}

pub(crate) fn make_run_args(filter: &str) -> (r: Vec<String>)
    ensures
        views(r@) == run_args(filter@),
{
    let mut r: Vec<String> = Vec::new();
    r.push("--color-output".to_owned());
    r.push(filter.to_owned());
    proof {
        assert(views(r@) =~= run_args(filter@));
    }
    r
}

pub(crate) fn make_stream_args(filter: &str) -> (r: Vec<String>)
    ensures
        views(r@) == stream_args(filter@),
{
    let mut r: Vec<String> = Vec::new();
    r.push("--color-output".to_owned());
    r.push("--unbuffered".to_owned());
    r.push(filter.to_owned());
    proof {
        assert(views(r@) =~= stream_args(filter@));
    }
    r
}

impl JqBatch {
    /// A batch that is still to be run.
    pub fn new(idx: usize, filter: &str, lines: Vec<String>) -> (r: JqBatch)
        ensures
            r@ == fresh_batch(idx, filter@, views(lines@)),
    {
        let r = JqBatch {
            idx,
            filter: choose_filter(filter),
            lines,
            next: 0,
            output: Vec::new(),
            stopped: false,
        };
        proof {
            assert(views(r.output@) =~= Seq::<Seq<char>>::empty());
        }
        r
    }

    /// The command line of jq.
    pub fn args(&self) -> (r: Vec<String>)
        ensures
            views(r@) == run_args(self@.filter),
    {
        make_run_args(self.filter.as_str())
    }

    /// The line that is to be run next.
    pub fn next_line(&self) -> (r: Option<&str>)
        ensures
            r is Some == self@.has_next(),
            r matches Some(line) ==> line@ == self@.lines[self@.next],
    {
        if !self.stopped && self.next < self.lines.len() {
            Some(self.lines[self.next].as_str())
        } else {
            None
        }
    }

    /// Takes what came of the next line.
    pub fn record(&mut self, outcome: &JqOutcome)
        requires
            old(self)@.has_next(),
        ensures
            final(self)@ == old(self)@.after(*outcome),
    {
        let count: usize = self.lines.len();
        assert(self.next < count);
        let following: usize = self.next + 1;
        let mut shown = show_line(self.lines[self.next].as_str(), outcome);
        let ghost before = self.output@;
        let ghost more = shown@;
        self.output.append(&mut shown);
        proof {
            assert(views(self.output@) =~= views(before) + views(more));
        }
        self.next = following;
        self.stopped = match outcome {
            JqOutcome::NotStarted(_) => true,
            _ => false,
        };
    }
}

/// What is shown of some lines, each with what came of it.
pub open spec fn shown_lines(lines: Seq<Seq<char>>, outcomes: Seq<JqOutcome>) -> Seq<Seq<char>>
    decreases outcomes.len(),
{
    if outcomes.len() == 0 {
        Seq::empty()
    } else {
        shown_lines(lines, outcomes.drop_last()) + shown_line(
            lines[outcomes.len() - 1],
            outcomes.last(),
        )
    }
}

/// A batch after some of its lines were run.
pub open spec fn run_batch(batch: BatchModel, outcomes: Seq<JqOutcome>) -> BatchModel
    decreases outcomes.len(),
{
    if outcomes.len() == 0 {
        batch
    } else {
        run_batch(batch, outcomes.drop_last()).after(outcomes.last())
    }
}

/// A batch shows every line that was run, in order, whatever came of the lines
/// before it.
pub proof fn lemma_batch_shows_every_line(
    idx: usize,
    filter: Seq<char>,
    lines: Seq<Seq<char>>,
    outcomes: Seq<JqOutcome>,
)
    requires
        outcomes.len() <= lines.len(),
    ensures
        run_batch(fresh_batch(idx, filter, lines), outcomes).output == shown_lines(
            lines,
            outcomes,
        ),
        run_batch(fresh_batch(idx, filter, lines), outcomes).next == outcomes.len(),
        run_batch(fresh_batch(idx, filter, lines), outcomes).lines == lines,
    decreases outcomes.len(),
{
    if outcomes.len() > 0 {
        lemma_batch_shows_every_line(idx, filter, lines, outcomes.drop_last());
    }
}

/// What is shown of two lists of lines one after the other is what is shown of
/// the one and then of the other.
pub proof fn lemma_shown_lines_join(
    a: Seq<Seq<char>>,
    b: Seq<Seq<char>>,
    x: Seq<JqOutcome>,
    y: Seq<JqOutcome>,
)
    requires
        x.len() == a.len(),
        y.len() <= b.len(),
    ensures
        shown_lines(a + b, x + y) == shown_lines(a, x) + shown_lines(b, y),
    decreases y.len(),
{
    if y.len() == 0 {
        assert(x + y =~= x);
        lemma_shown_lines_begin(a, b, x);
        assert(shown_lines(a, x) + shown_lines(b, y) =~= shown_lines(a, x));
    } else {
        lemma_shown_lines_join(a, b, x, y.drop_last());
        assert((x + y).drop_last() =~= x + y.drop_last());
        assert((a + b)[(x + y).len() - 1] == b[y.len() - 1]);
        assert(shown_lines(a + b, x + y) =~= shown_lines(a, x) + shown_lines(b, y));
    }
}

/// Lines that are not run do not matter.
proof fn lemma_shown_lines_begin(a: Seq<Seq<char>>, b: Seq<Seq<char>>, x: Seq<JqOutcome>)
    requires
        x.len() <= a.len(),
    ensures
        shown_lines(a + b, x) == shown_lines(a, x),
    decreases x.len(),
{
    if x.len() > 0 {
        lemma_shown_lines_begin(a, b, x.drop_last());
        assert((a + b)[x.len() - 1] == a[x.len() - 1]);
    }
}

/// What comes of some lines if each run of jq depends on the filter and its
/// line alone.
pub open spec fn outcomes_of(
    filter: Seq<char>,
    lines: Seq<Seq<char>>,
    jq: spec_fn(Seq<char>, Seq<char>) -> JqOutcome,
) -> Seq<JqOutcome> {
    Seq::new(lines.len(), |i: int| jq(effective_filter(filter), lines[i]))
}

/// What a batch shows once all its lines were run.
pub open spec fn batch_output(
    idx: usize,
    filter: Seq<char>,
    lines: Seq<Seq<char>>,
    jq: spec_fn(Seq<char>, Seq<char>) -> JqOutcome,
) -> Seq<Seq<char>> {
    run_batch(fresh_batch(idx, filter, lines), outcomes_of(filter, lines, jq)).output
}

/// Whether jq can be started for all of some lines.
pub open spec fn starts_for_all(
    filter: Seq<char>,
    lines: Seq<Seq<char>>,
    jq: spec_fn(Seq<char>, Seq<char>) -> JqOutcome,
) -> bool {
    forall|i: int|
        0 <= i < lines.len() ==> jq(effective_filter(filter), #[trigger] lines[i]) !is NotStarted
}

/// Where jq can be started for all its lines, a batch goes on to the last of
/// them and ends there.
pub proof fn lemma_batch_runs_to_its_end(
    idx: usize,
    filter: Seq<char>,
    lines: Seq<Seq<char>>,
    jq: spec_fn(Seq<char>, Seq<char>) -> JqOutcome,
    k: int,
)
    requires
        starts_for_all(filter, lines, jq),
        0 <= k <= lines.len(),
    ensures
        run_batch(
            fresh_batch(idx, filter, lines),
            outcomes_of(filter, lines, jq).take(k),
        ).has_next() == (k < lines.len()),
{
    let ran = outcomes_of(filter, lines, jq).take(k);
    lemma_batch_shows_every_line(idx, filter, lines, ran);
    if k > 0 {
        assert(ran.last() == jq(effective_filter(filter), lines[k - 1]));
    }
}

/// A batch of two lists of lines shows what a batch of the one and a batch of
/// the other show, as long as jq can be started: no line touches another.
pub proof fn lemma_batches_join(
    idx: usize,
    filter: Seq<char>,
    a: Seq<Seq<char>>,
    b: Seq<Seq<char>>,
    jq: spec_fn(Seq<char>, Seq<char>) -> JqOutcome,
)
    requires
        starts_for_all(filter, a + b, jq),
    ensures
        batch_output(idx, filter, a + b, jq) == batch_output(idx, filter, a, jq) + batch_output(
            idx,
            filter,
            b,
            jq,
        ),
{
    let x = outcomes_of(filter, a, jq);
    let y = outcomes_of(filter, b, jq);
    assert(outcomes_of(filter, a + b, jq) =~= x + y);
    lemma_batch_shows_every_line(idx, filter, a + b, x + y);
    lemma_batch_shows_every_line(idx, filter, a, x);
    lemma_batch_shows_every_line(idx, filter, b, y);
    lemma_shown_lines_join(a, b, x, y);
}

/// A batch without lines shows nothing, and a blank filter does what the
/// filter that keeps everything does.
pub proof fn lemma_blank_batches(
    idx: usize,
    filter: Seq<char>,
    lines: Seq<Seq<char>>,
    jq: spec_fn(Seq<char>, Seq<char>) -> JqOutcome,
)
    ensures
        batch_output(idx, filter, Seq::empty(), jq) == Seq::<Seq<char>>::empty(),
        trimmed(filter).len() == 0 ==> fresh_batch(idx, filter, lines) == fresh_batch(
            idx,
            "."@,
            lines,
        ),
        trimmed(filter).len() == 0 ==> batch_output(idx, filter, lines, jq) == batch_output(
            idx,
            "."@,
            lines,
            jq,
        ),
{
}

/// A line that jq refuses is shown as one line: itself, with the words of jq.
pub proof fn lemma_refused_line_is_one(line: Seq<char>, stdout: Vec<u8>, stderr: Vec<u8>)
    ensures
        shown_line(line, JqOutcome::Finished { success: false, stdout, stderr }) == seq![
            refused_line(line, trimmed(utf8_lossy(stderr@))),
        ],
{
}

/// A filter is used as it was typed, and a blank one as the filter that changes
/// nothing.  It is the last word of every call of jq, which is told to color its
/// output, and when it runs along not to hold it back.
pub proof fn lemma_filter_is_used_as_typed(filter: Seq<char>)
    ensures
        trimmed(filter).len() > 0 ==> effective_filter(filter) == filter,
        trimmed(filter).len() == 0 ==> effective_filter(filter) == "."@,
        run_args(filter).last() == filter,
        stream_args(filter).last() == filter,
        run_args(filter).drop_last() == seq!["--color-output"@],
        stream_args(filter).drop_last() == seq!["--color-output"@, "--unbuffered"@],
{
    assert(run_args(filter).drop_last() =~= seq!["--color-output"@]);
    assert(stream_args(filter).drop_last() =~= seq!["--color-output"@, "--unbuffered"@]);
}

/// What jq wrote is shown as it wrote it where it succeeded, whatever it
/// complained of; where it failed its complaint is shown, and where it did not
/// run why not.
pub proof fn lemma_outcome_is_shown(outcome: JqOutcome)
    ensures
        outcome matches JqOutcome::Finished { success, stdout, stderr } ==> (if success {
            shown_run(outcome) == utf8_lossy(stdout@)
        } else {
            shown_run(outcome) == "jq error: "@ + trimmed(utf8_lossy(stderr@))
        }),
        outcome matches JqOutcome::NotStarted(e) ==> e@.is_suffix_of(shown_run(outcome))
            && "Failed to run jq: "@.is_prefix_of(shown_run(outcome)),
        outcome matches JqOutcome::NotFinished(e) ==> e@.is_suffix_of(shown_run(outcome))
            && "jq error: "@.is_prefix_of(shown_run(outcome)),
{
}

/// Of one line, every line that jq wrote is shown where it succeeded, and one
/// line else: the refused line with the complaint behind it, or a remark on why
/// jq did not run.
pub proof fn lemma_line_outcome_is_shown(line: Seq<char>, outcome: JqOutcome)
    ensures
        outcome matches JqOutcome::Finished { success, stdout, stderr } ==> (if success {
            shown_line(line, outcome) == text_lines(utf8_lossy(stdout@))
        } else {
            shown_line(line, outcome).len() == 1 && line.is_prefix_of(shown_line(line, outcome)[0])
        }),
        outcome !is Finished ==> shown_line(line, outcome).len() == 1,
        outcome matches JqOutcome::NotStarted(e) ==> shown_line(line, outcome)[0] == "\x1b[31m// "@
            + ("Failed to start jq: "@ + e@) + "\x1b[0m"@,
        outcome matches JqOutcome::NotFinished(e) ==> shown_line(line, outcome)[0]
            == "\x1b[31m// "@ + ("jq wait error: "@ + e@) + "\x1b[0m"@,
{
}

/// A batch goes on line by line: each outcome is shown behind what is shown, the
/// next line is due, and only a jq that cannot be started ends it early.
pub proof fn lemma_batch_goes_on(batch: BatchModel, outcome: JqOutcome)
    requires
        0 <= batch.next < batch.lines.len(),
    ensures
        batch.output.is_prefix_of(batch.after(outcome).output),
        batch.after(outcome).output.skip(batch.output.len() as int) == shown_line(
            batch.lines[batch.next],
            outcome,
        ),
        batch.after(outcome).next == batch.next + 1,
        batch.after(outcome).lines == batch.lines,
        batch.after(outcome).filter == batch.filter,
        batch.after(outcome).idx == batch.idx,
        batch.after(outcome).stopped <==> outcome is NotStarted,
        !batch.stopped ==> batch.has_next(),
        batch.stopped ==> !batch.has_next(),
        outcome is NotStarted ==> !batch.after(outcome).has_next(),
{
    assert(batch.after(outcome).output.skip(batch.output.len() as int) =~= shown_line(
        batch.lines[batch.next],
        outcome,
    ));
}

/// A fresh batch has every line before it and nothing shown.
pub proof fn lemma_fresh_batch_is_before_its_lines(
    idx: usize,
    filter: Seq<char>,
    lines: Seq<Seq<char>>,
)
    ensures
        ({
            let batch = fresh_batch(idx, filter, lines);
            &&& batch.idx == idx
            &&& batch.lines == lines
            &&& batch.next == 0
            &&& batch.output.len() == 0
            &&& !batch.stopped
            &&& trimmed(filter).len() > 0 ==> batch.filter == filter
            &&& batch.has_next() <==> lines.len() > 0
        }),
{
}

} // verus!
