//! What comes in while a request is on its way: its events, the lines of its
//! body, and what jq makes of them.

use tokio::sync::{mpsc, oneshot};
use vstd::prelude::*;

use crate::app::{is_json, json_valid, result_model, App, AppModel, StateModel};
use crate::exchange::event_models;
use crate::http_client::{
    joined, regex_remove_first, regex_valid, ErrorKind, ErrorModel, EventModel, HttpError,
    HttpResponse, RegexPattern, RequestEvent, ResponseModel,
};
use crate::jq::{
    choose_filter, effective_filter, fresh_batch, jq_event_models, make_refused_line, make_remark,
    make_run_args, make_stream_args, refused_line, remark, run_args, shown_run, show_run,
    stream_args, work_models, BatchModel, JqBatch, JqEvent, JqEventModel, JqOutcome, JqPhase,
    JqPhaseModel, JqWork, JqWorkModel,
};
use crate::text::{
    byte_len, chars_of, decimal, decimal_string, length, lines, pieces, split_lines, text_lines,
    trim_end_cr, views, without_cr,
};

verus! {

// ── Stripping ─────────────────────────────────────────────────────────────────

/// The text of an optional pattern.
pub open spec fn pattern_text(p: Option<RegexPattern>) -> Option<Seq<char>> {
    match p {
        Some(pattern) => Some(pattern@),
        None => None,
    }
}

/// A line without what two patterns match in it first, or why they cannot be
/// applied.
pub open spec fn stripped(
    raw: Seq<char>,
    prefix: Option<Seq<char>>,
    suffix: Option<Seq<char>>,
) -> Result<Seq<char>, Seq<char>> {
    match prefix {
        None => Err("No prefix regex available"@),
        Some(p) => if !regex_valid(p) {
            Err("Invalid prefix regex: "@ + p)
        } else {
            match suffix {
                None => Err("No suffix regex available"@),
                Some(s) => if !regex_valid(s) {
                    Err("Invalid suffix regex: "@ + s)
                } else {
                    Ok(regex_remove_first(s, regex_remove_first(p, raw)))
                },
            }
        },
    }
}

/// Takes the prefix and the suffix off a line.
pub fn strip_line(
    raw: &str,
    prefix_re: &Option<RegexPattern>,
    suffix_re: &Option<RegexPattern>,
) -> (r: Result<String, String>)
    ensures
        crate::exchange::text_result(r) == stripped(
            raw@,
            pattern_text(*prefix_re),
            pattern_text(*suffix_re),
        ),
{
    let rest = match prefix_re {
        None => {
            return Err("No prefix regex available".to_owned());
        },
        Some(pattern) => match pattern.remove_first_match(raw) {
            Some(text) => text,
            None => {
                return Err(joined("Invalid prefix regex: ", pattern.pattern()));
            },
        },
    };
    match suffix_re {
        None => Err("No suffix regex available".to_owned()),
        Some(pattern) => match pattern.remove_first_match(rest.as_str()) {
            Some(text) => Ok(text),
            None => Err(joined("Invalid suffix regex: ", pattern.pattern())),
        },
    }
}

// ── Lines of a body ───────────────────────────────────────────────────────────

impl AppModel {
    /// The prefix pattern of the selected request, if there is one.
    pub open spec fn prefix(self) -> Option<Seq<char>> {
        if self.has_current() {
            Some(self.current().stream_prefix_regex)
        } else {
            None
        }
    }

    /// The suffix pattern of the selected request, if there is one.
    pub open spec fn suffix(self) -> Option<Seq<char>> {
        if self.has_current() {
            Some(self.current().stream_suffix_regex)
        } else {
            None
        }
    }

    /// The application after a line of a body is complete: what is left of it
    /// is kept and is to be fed to jq.
    pub open spec fn with_line(self, idx: usize, raw: Seq<char>) -> AppModel {
        match stripped(without_cr(raw), self.prefix(), self.suffix()) {
            Err(e) => AppModel {
                jq_queue: self.jq_queue.push(JqWorkModel::Note { idx, text: remark(e) }),
                ..self
            },
            Ok(line) => if line.len() == 0 {
                self
            } else {
                AppModel {
                    streamed_jq_available: self.streamed_jq_available || json_valid(line),
                    jq_queue: self.jq_queue.push(JqWorkModel::Feed { idx, line }),
                    ..self.with_state(
                        idx,
                        StateModel {
                            stripped_lines: self.state(idx).stripped_lines.push(line),
                            ..self.state(idx)
                        },
                    )
                }
            },
        }
    }

    /// The application after some lines of a body are complete.
    pub open spec fn with_lines(self, idx: usize, raw: Seq<Seq<char>>) -> AppModel
        decreases raw.len(),
    {
        if raw.len() == 0 {
            self
        } else {
            self.with_lines(idx, raw.drop_last()).with_line(idx, raw.last())
        }
    }

    /// The application with the beginning of a line kept.
    pub open spec fn with_tail(self, idx: usize, tail: Seq<char>) -> AppModel {
        self.with_state(idx, StateModel { line_buffer: tail, ..self.state(idx) })
    }

    /// The application after a part of a body came: the lines that it
    /// completes are handled, and the rest is kept.
    pub open spec fn with_chunk(self, idx: usize, chunk: Seq<char>) -> AppModel {
        let parts = pieces(self.state(idx).line_buffer + chunk);
        self.with_tail(idx, parts.last()).with_lines(idx, parts.drop_last())
    }

    /// The application after a body came to its end: what was kept of its last
    /// line is handled.
    pub open spec fn with_flush(self, idx: usize) -> AppModel {
        let tail = self.state(idx).line_buffer;
        if tail.len() == 0 {
            self
        } else {
            self.with_line(idx, tail).with_tail(idx, ""@)
        }
    }
}

impl App {
    /// The patterns of the selected request, if there is one.
    fn patterns(&self) -> (r: (Option<RegexPattern>, Option<RegexPattern>))
        ensures
            pattern_text(r.0) == self@.prefix(),
            pattern_text(r.1) == self@.suffix(),
    {
        match self.get_current_request() {
            Some(request) => (
                Some(request.stream_prefix_regex.clone()),
                Some(request.stream_suffix_regex.clone()),
            ),
            None => (None, None),
        }
    }

    /// Adds a step for the jq process.
    fn enqueue(&mut self, work: JqWork)
        ensures
            final(self)@ == (AppModel {
                jq_queue: old(self)@.jq_queue.push(work@),
                ..old(self)@
            }),
            final(self).per_request == old(self).per_request,
    {
        let ghost before = self.jq_queue@;
        let ghost said = work@;
        self.jq_queue.push(work);
        proof {
            assert(work_models(self.jq_queue@) =~= work_models(before).push(said));
        }
    }

    /// Handles a complete line of a body.
    pub fn handle_complete_line(&mut self, idx: usize, raw: &str)
        ensures
            final(self)@ == old(self)@.with_line(idx, raw@),
    {
        let trimmed = trim_end_cr(raw);
        let (prefix_re, suffix_re) = self.patterns();
        match strip_line(trimmed.as_str(), &prefix_re, &suffix_re) {
            Err(e) => {
                self.enqueue(JqWork::Note { idx, text: make_remark(e.as_str()) });
            },
            Ok(line) => {
                let v = chars_of(line.as_str());
                if v.len() == 0 {
                    return;
                }
                if is_json(line.as_str()) {
                    self.streamed_jq_available = true;
                }
                let ghost model = self@;
                let mut state = self.take_state(idx);
                let ghost kept = state.stripped_lines@;
                let copy = line.clone();
                state.stripped_lines.push(copy);
                proof {
                    assert(views(state.stripped_lines@) =~= views(kept).push(line@));
                }
                self.put_state(idx, state);
                proof {
                    assert(model.per_request.remove(idx).insert(idx, state@)
                        =~= model.per_request.insert(idx, state@));
                }
                self.enqueue(JqWork::Feed { idx, line });
            },
        }
    }

    /// Handles a part of a body.
    pub fn process_chunk(&mut self, idx: usize, chunk: &str)
        ensures
            final(self)@ == old(self)@.with_chunk(idx, chunk@),
    {
        let ghost model = self@;
        let mut state = self.take_state(idx);
        state.line_buffer.append(chunk);
        let ghost combined = state.line_buffer@;
        let parts = split_lines(state.line_buffer.as_str());
        proof {
            crate::text::lemma_pieces_nonempty(combined);
            assert(views(parts@).len() == parts@.len());
        }
        let n: usize = parts.len() - 1;
        proof {
            assert(views(parts@)[n as int] == parts@[n as int]@);
        }
        state.line_buffer = parts[n].clone();
        self.put_state(idx, state);
        let ghost complete = pieces(combined).drop_last();
        let ghost start = model.with_tail(idx, pieces(combined).last());
        proof {
            assert(self@ =~= start) by {
                assert(model.per_request.remove(idx).insert(idx, state@)
                    =~= model.per_request.insert(idx, state@));
            }
        }
        let mut i: usize = 0;
        while i < n
            invariant
                i <= n,
                n + 1 == parts@.len(),
                views(parts@).drop_last() == complete,
                self@ == start.with_lines(idx, complete.take(i as int)),
            decreases n - i,
        {
            proof {
                assert(complete[i as int] == parts@[i as int]@);
                assert(complete.take(i + 1).drop_last() =~= complete.take(i as int));
            }
            self.handle_complete_line(idx, parts[i].as_str());
            i = i + 1;
        }
        proof {
            assert(complete.take(i as int) =~= complete);
        }
    }

    /// Handles what was kept of the last line of a body.
    pub fn flush_line_buffer(&mut self, idx: usize)
        ensures
            final(self)@ == old(self)@.with_flush(idx),
    {
        let tail = match self.per_request.get(&idx) {
            Some(state) => state.line_buffer.clone(),
            None => "".to_owned(),
        };
        proof {
            reveal_strlit("");
            assert(tail@ == self@.state(idx).line_buffer);
        }
        let v = chars_of(tail.as_str());
        if v.len() > 0 {
            self.handle_complete_line(idx, tail.as_str());
            let ghost model = self@;
            let mut state = self.take_state(idx);
            state.line_buffer = "".to_owned();
            self.put_state(idx, state);
            proof {
                assert(model.per_request.remove(idx).insert(idx, state@)
                    =~= model.per_request.insert(idx, state@));
            }
        }
    }
}

// ── Polling ───────────────────────────────────────────────────────────────────

/// What a channel that is asked for one item answers.
pub enum Polled<T> {
    Item(T),
    Empty,
    Closed,
}

/// `oneshot::Receiver::try_recv`: the value, if it was sent.  What comes back
/// depends on the sender, so nothing is claimed of it.
#[verifier::external_body]
fn poll_result(rx: &mut oneshot::Receiver<Result<HttpResponse, HttpError>>) -> (r: Polled<
    Result<HttpResponse, HttpError>,
>) {
    match rx.try_recv() {
        Ok(result) => Polled::Item(result),
        Err(oneshot::error::TryRecvError::Empty) => Polled::Empty,
        Err(oneshot::error::TryRecvError::Closed) => Polled::Closed,
    }
}

/// `mpsc::UnboundedReceiver::try_recv`: the next item, if there is one.  What
/// comes back depends on the sender, so nothing is claimed of it.
#[verifier::external_body]
fn poll_item<T>(rx: &mut mpsc::UnboundedReceiver<T>) -> (r: Polled<T>) {
    match rx.try_recv() {
        Ok(item) => Polled::Item(item),
        Err(mpsc::error::TryRecvError::Empty) => Polled::Empty,
        Err(mpsc::error::TryRecvError::Disconnected) => Polled::Closed,
    }
}

/// Takes one answer of a channel: an item goes behind those that came before,
/// and any other answer ends the asking and tells whether the channel was
/// closed.
pub fn take_answer<T>(items: &mut Vec<T>, answer: Polled<T>) -> (r: Option<bool>)
    ensures
        final(items)@ == (match answer {
            Polled::Item(item) => old(items)@.push(item),
            Polled::Empty => old(items)@,
            Polled::Closed => old(items)@,
        }),
        r == (match answer {
            Polled::Item(_) => None,
            Polled::Empty => Some(false),
            Polled::Closed => Some(true),
        }),
{
    match answer {
        Polled::Item(item) => {
            items.push(item);
            None
        },
        Polled::Empty => Some(false),
        Polled::Closed => Some(true),
    }
}

/// Takes all the items that are there, and tells whether the channel was
/// closed.  What is there depends on the sender, so nothing is claimed of it;
/// what becomes of each answer is said by [`take_answer`].
fn drain<T>(rx: &mut mpsc::UnboundedReceiver<T>) -> (r: (Vec<T>, bool)) {
    let mut items: Vec<T> = Vec::new();
    // More items than this are never there.
    let mut budget: u64 = u64::MAX;
    while budget > 0
        decreases budget,
    {
        budget = budget - 1;
        if let Some(closed) = take_answer(&mut items, poll_item(rx)) {
            return (items, closed);
        }
    }
    (items, false)
}

// ── Applying what was polled ──────────────────────────────────────────────────

/// What a channel's answer about the end of a request says.
pub open spec fn polled_model(p: Polled<Result<HttpResponse, HttpError>>) -> Polled<
    Result<ResponseModel, ErrorModel>,
> {
    match p {
        Polled::Item(r) => Polled::Item(result_model(r)),
        Polled::Empty => Polled::Empty,
        Polled::Closed => Polled::Closed,
    }
}

/// The error of a request whose channel was closed before it ended.
pub open spec fn closed_error() -> ErrorModel {
    ErrorModel {
        kind: ErrorKind::RequestFailed,
        msg: "Request channel closed"@,
        causes: Seq::empty(),
    }
}

impl AppModel {
    /// The application with a step added for the jq process.
    pub open spec fn with_work(self, work: JqWorkModel) -> AppModel {
        AppModel { jq_queue: self.jq_queue.push(work), ..self }
    }

    /// The application after the channel for the end of the request answered.
    pub open spec fn after_response(
        self,
        polled: Polled<Result<ResponseModel, ErrorModel>>,
    ) -> AppModel {
        match polled {
            Polled::Empty => self,
            Polled::Item(result) => {
                let noted = match self.pending_request_index {
                    Some(idx) => self.with_state(
                        idx,
                        StateModel {
                            streamed_body: match result {
                                Ok(response) => response.body,
                                Err(_) => self.state(idx).streamed_body,
                            },
                            last_response: Some(result),
                            ..self.state(idx)
                        },
                    ),
                    None => self,
                };
                AppModel { pending_response: false, ..noted }
            },
            Polled::Closed => {
                let noted = match self.pending_request_index {
                    Some(idx) => self.with_state(
                        idx,
                        StateModel { last_response: Some(Err(closed_error())), ..self.state(idx) },
                    ),
                    None => self,
                };
                AppModel {
                    pending_response: false,
                    pending_request_index: None,
                    ..noted.with_work(JqWorkModel::Stop)
                }
            },
        }
    }

    /// The application after jq said something about a request.
    pub open spec fn after_jq_event(self, idx: usize, event: JqEventModel) -> AppModel {
        let shown = match event {
            JqEventModel::Output(line) => line,
            JqEventModel::Error(words) => refused_line(self.state(idx).last_fed, words),
        };
        self.with_state(
            idx,
            StateModel { jq_output: self.state(idx).jq_output.push(shown), ..self.state(idx) },
        )
    }

    /// The application after jq said some things about a request.
    pub open spec fn after_jq_events(self, idx: usize, events: Seq<JqEventModel>) -> AppModel
        decreases events.len(),
    {
        if events.len() == 0 {
            self
        } else {
            self.after_jq_events(idx, events.drop_last()).after_jq_event(idx, events.last())
        }
    }

    /// The application after something happened to a request.
    pub open spec fn after_event(self, idx: usize, event: EventModel) -> AppModel {
        match event {
            EventModel::BodyChunk(chunk) => self.with_state(
                idx,
                StateModel {
                    streamed_body: self.state(idx).streamed_body + chunk,
                    events: self.state(idx).events.push(
                        "Response chunk received: "@ + decimal(byte_len(chunk)) + " bytes"@,
                    ),
                    ..self.state(idx)
                },
            ).with_chunk(idx, chunk),
            other => self.with_state(
                idx,
                StateModel { events: self.state(idx).events.push(other.text()), ..self.state(idx) },
            ),
        }
    }

    /// The application after some things happened to a request.
    pub open spec fn after_events(self, idx: usize, events: Seq<EventModel>) -> AppModel
        decreases events.len(),
    {
        if events.len() == 0 {
            self
        } else {
            self.after_events(idx, events.drop_last()).after_event(idx, events.last())
        }
    }

    /// The application after its channels were emptied: what jq said goes to
    /// the selected request, what happened goes to the request that is on its
    /// way, and a request whose events have ended is done with.
    pub open spec fn after_polls(
        self,
        jq_events: Seq<JqEventModel>,
        jq_closed: bool,
        events: Seq<EventModel>,
        closed: bool,
    ) -> AppModel {
        let heard = match self.current_request_index {
            Some(idx) => self.after_jq_events(idx, jq_events),
            None => self,
        };
        let quiet = if jq_closed {
            heard.without_jq()
        } else {
            heard
        };
        let told = match quiet.pending_request_index {
            Some(idx) => quiet.after_events(idx, events),
            None => quiet,
        };
        if closed && !told.pending_response {
            let flushed = match told.pending_request_index {
                Some(idx) => told.with_flush(idx),
                None => told,
            };
            AppModel {
                pending_request_index: None,
                event_receiver: false,
                ..flushed.with_work(JqWorkModel::Stop)
            }
        } else {
            told
        }
    }
}

/// What stays the same while lines and events are handled.
proof fn lemma_with_line_keeps(m: AppModel, idx: usize, raw: Seq<char>)
    ensures
        m.with_line(idx, raw).pending_request_index == m.pending_request_index,
        m.with_line(idx, raw).pending_response == m.pending_response,
        m.with_line(idx, raw).current_request_index == m.current_request_index,
        m.with_line(idx, raw).requests == m.requests,
{
}

proof fn lemma_with_lines_keeps(m: AppModel, idx: usize, raw: Seq<Seq<char>>)
    ensures
        m.with_lines(idx, raw).pending_request_index == m.pending_request_index,
        m.with_lines(idx, raw).pending_response == m.pending_response,
        m.with_lines(idx, raw).current_request_index == m.current_request_index,
        m.with_lines(idx, raw).requests == m.requests,
    decreases raw.len(),
{
    if raw.len() > 0 {
        lemma_with_lines_keeps(m, idx, raw.drop_last());
        lemma_with_line_keeps(m.with_lines(idx, raw.drop_last()), idx, raw.last());
    }
}

proof fn lemma_after_event_keeps(m: AppModel, idx: usize, event: EventModel)
    ensures
        m.after_event(idx, event).pending_request_index == m.pending_request_index,
        m.after_event(idx, event).pending_response == m.pending_response,
{
    if let EventModel::BodyChunk(chunk) = event {
        let started = m.with_state(
            idx,
            StateModel {
                streamed_body: m.state(idx).streamed_body + chunk,
                events: m.state(idx).events.push(
                    "Response chunk received: "@ + decimal(byte_len(chunk)) + " bytes"@,
                ),
                ..m.state(idx)
            },
        );
        let parts = pieces(started.state(idx).line_buffer + chunk);
        lemma_with_lines_keeps(started.with_tail(idx, parts.last()), idx, parts.drop_last());
    }
}

proof fn lemma_after_events_keeps(m: AppModel, idx: usize, events: Seq<EventModel>)
    ensures
        m.after_events(idx, events).pending_request_index == m.pending_request_index,
        m.after_events(idx, events).pending_response == m.pending_response,
    decreases events.len(),
{
    if events.len() > 0 {
        lemma_after_events_keeps(m, idx, events.drop_last());
        lemma_after_event_keeps(m.after_events(idx, events.drop_last()), idx, events.last());
    }
}

impl App {
    /// Takes what the channel for the end of the request answered.
    pub fn apply_polled_response(
        &mut self,
        polled: Polled<Result<HttpResponse, HttpError>>,
    )
        ensures
            final(self)@ == old(self)@.after_response(polled_model(polled)),
    {
        match polled {
            Polled::Empty => {},
            Polled::Item(result) => {
                if let Some(idx) = self.pending_request_index {
                    let ghost model = self@;
                    let mut state = self.take_state(idx);
                    if let Ok(response) = &result {
                        state.streamed_body = response.body.clone();
                    }
                    state.last_response = Some(result);
                    self.put_state(idx, state);
                    proof {
                        assert(model.per_request.remove(idx).insert(idx, state@)
                            =~= model.per_request.insert(idx, state@));
                    }
                }
                self.pending_response = None;
            },
            Polled::Closed => {
                if let Some(idx) = self.pending_request_index {
                    let ghost model = self@;
                    let mut state = self.take_state(idx);
                    let error = HttpError::RequestFailed {
                        msg: "Request channel closed".to_owned(),
                        source: None,
                    };
                    state.last_response = Some(Err(error));
                    self.put_state(idx, state);
                    proof {
                        assert(model.per_request.remove(idx).insert(idx, state@)
                            =~= model.per_request.insert(idx, state@));
                    }
                }
                self.enqueue(JqWork::Stop);
                self.pending_response = None;
                self.pending_request_index = None;
            },
        }
    }

    /// Looks whether the request that is on its way has come to its end.
    pub fn check_pending_response(&mut self)
        ensures
            !old(self)@.pending_response ==> final(self)@ == old(self)@,
            exists|polled: Polled<Result<HttpResponse, HttpError>>|
                final(self)@ == old(self)@.after_response(#[trigger] polled_model(polled)),
    {
        let polled = match &mut self.pending_response {
            Some(rx) => poll_result(rx),
            None => Polled::Empty,
        };
        proof {
            assert(polled_model(polled) == polled_model(polled));
        }
        self.apply_polled_response(polled);
    }

    /// Shows something that jq said about a request.
    fn apply_jq_event(&mut self, idx: usize, event: &JqEvent)
        ensures
            final(self)@ == old(self)@.after_jq_event(idx, event@),
    {
        let ghost model = self@;
        let mut state = self.take_state(idx);
        let shown = match event {
            JqEvent::Output(line) => line.clone(),
            JqEvent::Error(words) => make_refused_line(state.last_fed.as_str(), words.as_str()),
        };
        let ghost kept = state.jq_output@;
        let ghost text = shown@;
        state.jq_output.push(shown);
        proof {
            assert(views(state.jq_output@) =~= views(kept).push(text));
        }
        self.put_state(idx, state);
        proof {
            assert(model.per_request.remove(idx).insert(idx, state@) =~= model.per_request.insert(
                idx,
                state@,
            ));
        }
    }

    /// Shows what jq said about a request.
    fn apply_jq_events(&mut self, idx: usize, events: &Vec<JqEvent>)
        ensures
            final(self)@ == old(self)@.after_jq_events(idx, jq_event_models(events@)),
    {
        let ghost model = self@;
        let ghost all = jq_event_models(events@);
        let mut i: usize = 0;
        while i < events.len()
            invariant
                i <= events@.len(),
                all == jq_event_models(events@),
                self@ == model.after_jq_events(idx, all.take(i as int)),
            decreases events@.len() - i,
        {
            proof {
                assert(all.take(i + 1).drop_last() =~= all.take(i as int));
            }
            self.apply_jq_event(idx, &events[i]);
            i = i + 1;
        }
        proof {
            assert(all.take(i as int) =~= all);
        }
    }

    /// Notes something that happened to a request.
    fn apply_event(&mut self, idx: usize, event: &RequestEvent)
        ensures
            final(self)@ == old(self)@.after_event(idx, event@),
    {
        let ghost model = self@;
        let mut state = self.take_state(idx);
        let ghost kept = state.events@;
        match event {
            RequestEvent::BodyChunk(chunk) => {
                state.streamed_body.append(chunk.as_str());
                let mut text = joined(
                    "Response chunk received: ",
                    decimal_string(length(chunk.as_str())).as_str(),
                );
                text.append(" bytes");
                let ghost said = text@;
                state.events.push(text);
                proof {
                    assert(views(state.events@) =~= views(kept).push(said));
                }
                self.put_state(idx, state);
                proof {
                    assert(model.per_request.remove(idx).insert(idx, state@)
                        =~= model.per_request.insert(idx, state@));
                }
                self.process_chunk(idx, chunk.as_str());
            },
            other => {
                let text = other.to_string();
                let ghost said = text@;
                state.events.push(text);
                proof {
                    assert(views(state.events@) =~= views(kept).push(said));
                }
                self.put_state(idx, state);
                proof {
                    assert(model.per_request.remove(idx).insert(idx, state@)
                        =~= model.per_request.insert(idx, state@));
                }
            },
        }
    }

    /// Notes what happened to a request.
    fn apply_events(&mut self, idx: usize, events: &Vec<RequestEvent>)
        ensures
            final(self)@ == old(self)@.after_events(idx, event_models(events@)),
    {
        let ghost model = self@;
        let ghost all = event_models(events@);
        let mut i: usize = 0;
        while i < events.len()
            invariant
                i <= events@.len(),
                all == event_models(events@),
                self@ == model.after_events(idx, all.take(i as int)),
            decreases events@.len() - i,
        {
            proof {
                assert(all.take(i + 1).drop_last() =~= all.take(i as int));
            }
            self.apply_event(idx, &events[i]);
            i = i + 1;
        }
        proof {
            assert(all.take(i as int) =~= all);
        }
    }

    /// Takes what the channels gave, and tells whether there was anything.
    pub fn apply_polls(
        &mut self,
        jq_events: &Vec<JqEvent>,
        jq_closed: bool,
        events: &Vec<RequestEvent>,
        closed: bool,
    ) -> (r: bool)
        ensures
            final(self)@ == old(self)@.after_polls(
                jq_event_models(jq_events@),
                jq_closed,
                event_models(events@),
                closed,
            ),
            r == (jq_events@.len() > 0 || events@.len() > 0),
    {
        if let Some(idx) = self.current_request_index {
            self.apply_jq_events(idx, jq_events);
        }
        if jq_closed {
            self.kill_streamed_jq();
        }
        let ghost quiet = self@;
        if let Some(idx) = self.pending_request_index {
            self.apply_events(idx, events);
            proof {
                lemma_after_events_keeps(quiet, idx, event_models(events@));
            }
        }
        if closed && self.pending_response.is_none() {
            if let Some(idx) = self.pending_request_index {
                self.flush_line_buffer(idx);
            }
            self.enqueue(JqWork::Stop);
            self.pending_request_index = None;
            self.event_receiver = None;
        }
        jq_events.len() > 0 || events.len() > 0
    }

    /// Takes what is in the channels, and tells whether there was anything.
    pub fn check_for_events(&mut self) -> (r: bool)
        ensures
            !old(self)@.event_receiver && !old(self)@.streamed_jq_output_rx ==> final(self)@ == old(
                self,
            )@ && !r,
            exists|
                jq_events: Seq<JqEventModel>,
                jq_closed: bool,
                events: Seq<EventModel>,
                closed: bool,
            |
                {
                    &&& #[trigger] old(self)@.after_polls(jq_events, jq_closed, events, closed)
                        == final(self)@
                    &&& r == (jq_events.len() > 0 || events.len() > 0)
                    &&& !old(self)@.streamed_jq_output_rx ==> jq_events.len() == 0 && !jq_closed
                    &&& !old(self)@.event_receiver ==> events.len() == 0 && !closed
                },
    {
        let (jq_events, jq_closed) = match &mut self.streamed_jq_output_rx {
            Some(rx) => drain(rx),
            None => (Vec::new(), false),
        };
        let (events, closed) = match &mut self.event_receiver {
            Some(rx) => drain(rx),
            None => (Vec::new(), false),
        };
        let r = self.apply_polls(&jq_events, jq_closed, &events, closed);
        proof {
            let je = jq_event_models(jq_events@);
            let ev = event_models(events@);
            assert(old(self)@.after_polls(je, jq_closed, ev, closed) == self@);
        }
        r
    }
}

// ── The jq process ────────────────────────────────────────────────────────────

/// What came of the last thing that was asked of the jq process.
pub enum JqReply {
    /// Nothing was asked.
    Ready,
    /// The process was started; its output comes on the channel.
    Started {
        tx: mpsc::UnboundedSender<JqEvent>,
        rx: mpsc::UnboundedReceiver<JqEvent>,
    },
    /// The process could not be started.
    StartFailed(String),
    /// The line was taken.
    Written,
    /// The line was not taken; the process had still said this.
    WriteFailed(Vec<JqEvent>),
}

/// What a reply says.
#[verifier::ext_equal]
pub ghost enum JqReplyModel {
    Ready,
    Started,
    StartFailed(Seq<char>),
    Written,
    WriteFailed(Seq<JqEventModel>),
}

impl View for JqReply {
    type V = JqReplyModel;

    open spec fn view(&self) -> JqReplyModel {
        match self {
            JqReply::Ready => JqReplyModel::Ready,
            JqReply::Started { .. } => JqReplyModel::Started,
            JqReply::StartFailed(e) => JqReplyModel::StartFailed(e@),
            JqReply::Written => JqReplyModel::Written,
            JqReply::WriteFailed(events) => JqReplyModel::WriteFailed(jq_event_models(events@)),
        }
    }
}

/// What is to be done with the jq process next.
pub enum JqCommand {
    /// Nothing, until there is more to do.
    Done,
    /// Nothing, and there is more to do.
    Continue,
    /// Let the process go.
    Kill,
    /// Let a process go that is there, and start one with these arguments.
    Spawn(Vec<String>),
    /// Write a line to the process.
    Write(String),
    /// Write a line to the process, whatever comes of it.
    WriteAgain(String),
}

/// What a command says.
#[verifier::ext_equal]
pub ghost enum JqCommandModel {
    Done,
    Continue,
    Kill,
    Spawn(Seq<Seq<char>>),
    Write(Seq<char>),
    WriteAgain(Seq<char>),
}

impl View for JqCommand {
    type V = JqCommandModel;

    open spec fn view(&self) -> JqCommandModel {
        match self {
            JqCommand::Done => JqCommandModel::Done,
            JqCommand::Continue => JqCommandModel::Continue,
            JqCommand::Kill => JqCommandModel::Kill,
            JqCommand::Spawn(args) => JqCommandModel::Spawn(views(args@)),
            JqCommand::Write(line) => JqCommandModel::Write(line@),
            JqCommand::WriteAgain(line) => JqCommandModel::WriteAgain(line@),
        }
    }
}

/// The command that writes a line to jq: for the first time, or to a fresh
/// process.
pub open spec fn write_command(line: Seq<char>, retry: bool) -> JqCommandModel {
    if retry {
        JqCommandModel::WriteAgain(line)
    } else {
        JqCommandModel::Write(line)
    }
}

fn make_write_command(line: String, retry: bool) -> (r: JqCommand)
    ensures
        r@ == write_command(line@, retry),
{
    if retry {
        JqCommand::WriteAgain(line)
    } else {
        JqCommand::Write(line)
    }
}

impl AppModel {
    /// The command that starts jq with the filter of the selected request.
    pub open spec fn spawn_command(self) -> JqCommandModel {
        JqCommandModel::Spawn(stream_args(effective_filter(self.jq_filter())))
    }

    /// The application with a line shown among the output of a request.
    pub open spec fn with_output(self, idx: usize, text: Seq<char>) -> AppModel {
        self.with_state(
            idx,
            StateModel { jq_output: self.state(idx).jq_output.push(text), ..self.state(idx) },
        )
    }

    /// The application once a line was fed to jq.
    pub open spec fn fed(self, idx: usize, line: Seq<char>) -> AppModel {
        AppModel {
            jq_phase: JqPhaseModel::Idle,
            ..self.with_state(idx, StateModel { last_fed: line, ..self.state(idx) })
        }
    }

    /// The first step that is still to be taken: the application after it, and
    /// what is to be done.
    pub open spec fn next_work(self) -> (AppModel, JqCommandModel) {
        if self.jq_queue.len() == 0 {
            (self, JqCommandModel::Done)
        } else {
            let rest = AppModel { jq_queue: self.jq_queue.drop_first(), ..self };
            match self.jq_queue[0] {
                JqWorkModel::Note { idx, text } => (
                    rest.with_output(idx, text),
                    JqCommandModel::Continue,
                ),
                JqWorkModel::Stop => (
                    AppModel { streamed_jq_running: false, ..rest },
                    JqCommandModel::Kill,
                ),
                JqWorkModel::Feed { idx, line } => if self.streamed_jq_running {
                    (
                        AppModel {
                            jq_phase: JqPhaseModel::Writing { idx, line, retry: false },
                            ..rest
                        },
                        JqCommandModel::Write(line),
                    )
                } else {
                    (
                        AppModel {
                            jq_phase: JqPhaseModel::Starting { idx, line, retry: false },
                            ..rest
                        },
                        rest.spawn_command(),
                    )
                },
            }
        }
    }

    /// The application after a reply, and what is to be done next.
    ///
    /// A line is fed to the process that is running, or to one that is started
    /// for it.  Where the process does not take the line it has died on an
    /// earlier one: what it still said is shown, and the line goes to a fresh
    /// process, once.
    pub open spec fn after_reply(self, reply: JqReplyModel) -> (AppModel, JqCommandModel) {
        match self.jq_phase {
            JqPhaseModel::Idle => self.next_work(),
            JqPhaseModel::Starting { idx, line, retry } => match reply {
                JqReplyModel::Started => (
                    AppModel {
                        streamed_jq_running: true,
                        streamed_jq_output_tx: true,
                        streamed_jq_output_rx: true,
                        jq_phase: JqPhaseModel::Writing { idx, line, retry },
                        ..self
                    },
                    write_command(line, retry),
                ),
                JqReplyModel::StartFailed(e) => {
                    let told = match self.current_request_index {
                        Some(current) => self.with_output(
                            current,
                            remark("Failed to start jq: "@ + e),
                        ),
                        None => self,
                    };
                    (
                        if retry {
                            told.fed(idx, line)
                        } else {
                            AppModel { jq_phase: JqPhaseModel::Idle, ..told }
                        },
                        JqCommandModel::Continue,
                    )
                },
                _ => (self, self.spawn_command()),
            },
            JqPhaseModel::Writing { idx, line, retry } => match reply {
                JqReplyModel::Written => (self.fed(idx, line), JqCommandModel::Continue),
                JqReplyModel::WriteFailed(events) => if retry {
                    (self.fed(idx, line), JqCommandModel::Continue)
                } else {
                    let heard = self.after_jq_events(idx, events).without_jq();
                    (
                        AppModel {
                            jq_phase: JqPhaseModel::Starting { idx, line, retry: true },
                            ..heard
                        },
                        heard.spawn_command(),
                    )
                },
                _ => (self, write_command(line, retry)),
            },
        }
    }
}

impl App {
    fn spawn_command(&self) -> (r: JqCommand)
        ensures
            r@ == self@.spawn_command(),
    {
        let filter = choose_filter(self.current_jq_filter());
        JqCommand::Spawn(make_stream_args(filter.as_str()))
    }

    /// Shows a line among the output of a request.
    fn show_output(&mut self, idx: usize, text: String)
        ensures
            final(self)@ == old(self)@.with_output(idx, text@),
    {
        let ghost model = self@;
        let mut state = self.take_state(idx);
        let ghost kept = state.jq_output@;
        let ghost said = text@;
        state.jq_output.push(text);
        proof {
            assert(views(state.jq_output@) =~= views(kept).push(said));
        }
        self.put_state(idx, state);
        proof {
            assert(model.per_request.remove(idx).insert(idx, state@) =~= model.per_request.insert(
                idx,
                state@,
            ));
        }
    }

    /// Notes that a line was fed to jq.
    fn note_fed(&mut self, idx: usize, line: String)
        ensures
            final(self)@ == old(self)@.fed(idx, line@),
    {
        let ghost model = self@;
        let mut state = self.take_state(idx);
        state.last_fed = line;
        self.put_state(idx, state);
        proof {
            assert(model.per_request.remove(idx).insert(idx, state@) =~= model.per_request.insert(
                idx,
                state@,
            ));
        }
        self.jq_phase = JqPhase::Idle;
    }

    /// Takes the first step that is still to be taken.
    fn take_work(&mut self) -> (r: JqCommand)
        requires
            old(self)@.jq_phase is Idle,
        ensures
            final(self)@ == old(self)@.next_work().0,
            r@ == old(self)@.next_work().1,
    {
        if self.jq_queue.len() == 0 {
            return JqCommand::Done;
        }
        let ghost before = self.jq_queue@;
        let work = self.jq_queue.remove(0);
        proof {
            assert(work_models(self.jq_queue@) =~= work_models(before).drop_first());
        }
        match work {
            JqWork::Note { idx, text } => {
                self.show_output(idx, text);
                JqCommand::Continue
            },
            JqWork::Stop => {
                self.streamed_jq_running = false;
                JqCommand::Kill
            },
            JqWork::Feed { idx, line } => {
                let copy = line.clone();
                if self.streamed_jq_running {
                    self.jq_phase = JqPhase::Writing { idx, line, retry: false };
                    JqCommand::Write(copy)
                } else {
                    let command = self.spawn_command();
                    self.jq_phase = JqPhase::Starting { idx, line, retry: false };
                    command
                }
            },
        }
    }

    /// Takes what came of the last thing that was asked of the jq process, and
    /// tells what is to be done next.
    pub fn step_jq(&mut self, reply: JqReply) -> (r: JqCommand)
        ensures
            final(self)@ == old(self)@.after_reply(reply@).0,
            r@ == old(self)@.after_reply(reply@).1,
            old(self)@.jq_phase is Starting ==> (reply matches JqReply::Started { tx, rx }
                ==> final(self).streamed_jq_output_tx == Some(tx)
                && final(self).streamed_jq_output_rx == Some(rx)),
    {
        match &self.jq_phase {
            JqPhase::Idle => {
                self.take_work()
            },
            JqPhase::Starting { idx, line, retry } => {
                let idx: usize = *idx;
                let retry = *retry;
                let line = line.clone();
                match reply {
                    JqReply::Started { tx, rx } => {
                        let copy = line.clone();
                        self.streamed_jq_output_tx = Some(tx);
                        self.streamed_jq_output_rx = Some(rx);
                        self.streamed_jq_running = true;
                        self.jq_phase = JqPhase::Writing { idx, line, retry };
                        make_write_command(copy, retry)
                    },
                    JqReply::StartFailed(e) => {
                        if let Some(current) = self.current_request_index {
                            let text = make_remark(
                                joined("Failed to start jq: ", e.as_str()).as_str(),
                            );
                            self.show_output(current, text);
                        }
                        if retry {
                            self.note_fed(idx, line);
                        } else {
                            self.jq_phase = JqPhase::Idle;
                        }
                        JqCommand::Continue
                    },
                    _ => self.spawn_command(),
                }
            },
            JqPhase::Writing { idx, line, retry } => {
                let idx: usize = *idx;
                let retry = *retry;
                let line = line.clone();
                match reply {
                    JqReply::Written => {
                        self.note_fed(idx, line);
                        JqCommand::Continue
                    },
                    JqReply::WriteFailed(events) => {
                        if retry {
                            self.note_fed(idx, line);
                            JqCommand::Continue
                        } else {
                            self.apply_jq_events(idx, &events);
                            self.kill_streamed_jq();
                            let command = self.spawn_command();
                            self.jq_phase = JqPhase::Starting { idx, line, retry: true };
                            command
                        }
                    },
                    _ => make_write_command(line, retry),
                }
            },
        }
    }

    /// Takes what the jq process has said so far, which is nothing where none
    /// was started.  What a process has said depends on it, so nothing is
    /// claimed of it.
    pub fn drain_jq_output(&mut self) -> (r: Vec<JqEvent>)
        ensures
            final(self)@ == old(self)@,
            !old(self)@.streamed_jq_output_rx ==> r@.len() == 0,
    {
        match &mut self.streamed_jq_output_rx {
            Some(rx) => drain(rx).0,
            None => Vec::new(),
        }
    }
}

// ── Running jq over what was received ─────────────────────────────────────────

/// What is left of some raw lines.
pub open spec fn kept_lines(
    raw: Seq<Seq<char>>,
    prefix: Option<Seq<char>>,
    suffix: Option<Seq<char>>,
) -> Seq<Seq<char>>
    decreases raw.len(),
{
    if raw.len() == 0 {
        Seq::empty()
    } else {
        let before = kept_lines(raw.drop_last(), prefix, suffix);
        match stripped(without_cr(raw.last()), prefix, suffix) {
            Ok(line) => if line.len() == 0 {
                before
            } else {
                before.push(line)
            },
            Err(_) => before,
        }
    }
}

/// What is remarked on some raw lines.
pub open spec fn remarks_on(
    raw: Seq<Seq<char>>,
    prefix: Option<Seq<char>>,
    suffix: Option<Seq<char>>,
) -> Seq<Seq<char>>
    decreases raw.len(),
{
    if raw.len() == 0 {
        Seq::empty()
    } else {
        let before = remarks_on(raw.drop_last(), prefix, suffix);
        match stripped(without_cr(raw.last()), prefix, suffix) {
            Ok(_) => before,
            Err(e) => before.push(remark(e)),
        }
    }
}

/// Whether one of some lines is JSON.
pub open spec fn any_json(lines: Seq<Seq<char>>) -> bool {
    exists|i: int| 0 <= i < lines.len() && json_valid(#[trigger] lines[i])
}

impl AppModel {
    /// The application with the streamed lines of the selected request cut
    /// anew out of its body, as far as it came.
    pub open spec fn reprocessed(self) -> AppModel {
        match self.current_request_index {
            None => self,
            Some(idx) => {
                let raw = text_lines(self.state(idx).streamed_body);
                let kept = kept_lines(raw, self.prefix(), self.suffix());
                AppModel {
                    streamed_jq_available: any_json(kept),
                    ..self.without_jq().with_state(
                        idx,
                        StateModel {
                            jq_output: remarks_on(raw, self.prefix(), self.suffix()),
                            last_fed: ""@,
                            stripped_lines: kept,
                            ..self.state(idx)
                        },
                    )
                }
            },
        }
    }
}

/// What an optional batch says.
pub open spec fn batch_model(b: Option<JqBatch>) -> Option<BatchModel> {
    match b {
        Some(batch) => Some(batch@),
        None => None,
    }
}

/// What is handed to jq for the whole response.
pub struct JqInput {
    pub args: Vec<String>,
    pub body: String,
}

impl App {
    /// Cuts the streamed lines of the selected request anew out of its body,
    /// and returns them as a batch for jq.
    pub fn reprocess_streamed_jq(&mut self) -> (r: Option<JqBatch>)
        ensures
            final(self)@ == old(self)@.reprocessed(),
            batch_model(r) == (match old(self)@.current_request_index {
                Some(idx) => Some(
                    fresh_batch(
                        idx,
                        old(self)@.jq_filter(),
                        final(self)@.state(idx).stripped_lines,
                    ),
                ),
                None => None,
            }),
    {
        let idx: usize = match self.current_request_index {
            Some(idx) => idx,
            None => {
                return None;
            },
        };
        let ghost model = self@;
        let (prefix_re, suffix_re) = self.patterns();
        let filter = self.current_jq_filter().to_owned();
        self.kill_streamed_jq();
        let mut state = self.take_state(idx);
        let raw = lines(state.streamed_body.as_str());
        let ghost all = text_lines(state.streamed_body@);
        let mut output: Vec<String> = Vec::new();
        let mut kept: Vec<String> = Vec::new();
        let mut batch: Vec<String> = Vec::new();
        let mut available = false;
        let mut i: usize = 0;
        proof {
            assert(views(output@) =~= Seq::<Seq<char>>::empty());
            assert(views(kept@) =~= Seq::<Seq<char>>::empty());
            assert(views(batch@) =~= Seq::<Seq<char>>::empty());
        }
        while i < raw.len()
            invariant
                i <= raw@.len(),
                views(raw@) == all,
                pattern_text(prefix_re) == model.prefix(),
                pattern_text(suffix_re) == model.suffix(),
                views(output@) == remarks_on(all.take(i as int), model.prefix(), model.suffix()),
                views(kept@) == kept_lines(all.take(i as int), model.prefix(), model.suffix()),
                views(batch@) == views(kept@),
                available == any_json(views(kept@)),
            decreases raw@.len() - i,
        {
            proof {
                assert(all.take(i + 1).drop_last() =~= all.take(i as int));
                assert(all[i as int] == raw@[i as int]@);
            }
            let ghost kept_before = views(kept@);
            let trimmed = trim_end_cr(raw[i].as_str());
            match strip_line(trimmed.as_str(), &prefix_re, &suffix_re) {
                Err(e) => {
                    let ghost before = views(output@);
                    let text = make_remark(e.as_str());
                    let ghost said = text@;
                    output.push(text);
                    proof {
                        assert(views(output@) =~= before.push(said));
                    }
                },
                Ok(line) => {
                    let v = chars_of(line.as_str());
                    if v.len() > 0 {
                        if is_json(line.as_str()) {
                            available = true;
                        }
                        let ghost text = line@;
                        let copy = line.clone();
                        kept.push(copy);
                        let ghost batch_before = views(batch@);
                        batch.push(line);
                        proof {
                            assert(views(kept@) =~= kept_before.push(text));
                            assert(views(batch@) =~= batch_before.push(text));
                            let now = views(kept@);
                            assert(now[kept_before.len() as int] == text);
                            if any_json(kept_before) {
                                let k = choose|k: int|
                                    0 <= k < kept_before.len() && json_valid(
                                        #[trigger] kept_before[k],
                                    );
                                assert(json_valid(now[k]));
                            }
                            if any_json(now) {
                                let k = choose|k: int|
                                    0 <= k < now.len() && json_valid(#[trigger] now[k]);
                                if k < kept_before.len() {
                                    assert(json_valid(kept_before[k]));
                                }
                            }
                        }
                    }
                },
            }
            i = i + 1;
        }
        proof {
            assert(all.take(i as int) =~= all);
        }
        state.jq_output = output;
        state.last_fed = "".to_owned();
        state.stripped_lines = kept;
        self.put_state(idx, state);
        proof {
            assert(model.per_request.remove(idx).insert(idx, state@) =~= model.per_request.insert(
                idx,
                state@,
            ));
        }
        self.streamed_jq_available = available;
        Some(JqBatch::new(idx, filter.as_str(), batch))
    }

    /// Shows what came of a batch.
    pub fn finish_batch(&mut self, batch: JqBatch)
        ensures
            final(self)@ == old(self)@.with_state(
                batch.idx,
                StateModel {
                    jq_output: old(self)@.state(batch.idx).jq_output + batch@.output,
                    ..old(self)@.state(batch.idx)
                },
            ),
            old(self)@.state(batch.idx).jq_output.is_prefix_of(
                final(self)@.state(batch.idx).jq_output,
            ),
            batch@.output.is_suffix_of(final(self)@.state(batch.idx).jq_output),
    {
        let idx: usize = batch.idx;
        let ghost model = self@;
        let mut output = batch.output;
        let mut state = self.take_state(idx);
        let ghost before = state.jq_output@;
        let ghost more = output@;
        state.jq_output.append(&mut output);
        proof {
            assert(views(state.jq_output@) =~= views(before) + views(more));
        }
        self.put_state(idx, state);
        proof {
            assert(model.per_request.remove(idx).insert(idx, state@) =~= model.per_request.insert(
                idx,
                state@,
            ));
        }
    }

    /// What jq is to be run on to show the response as JSON, if there is a
    /// response.
    pub fn jq_input(&self) -> (r: Option<JqInput>)
        ensures
            r is Some == (self@.last_response() matches Some(Ok(_))),
            r matches Some(input) ==> (self@.last_response() matches Some(Ok(response))
                && input.body@ == response.body && views(input.args@) == run_args(
                effective_filter(self@.jq_filter()),
            )),
    {
        match self.current_last_response() {
            Some(Ok(response)) => {
                let filter = choose_filter(self.current_jq_filter());
                Some(
                    JqInput {
                        args: make_run_args(filter.as_str()),
                        body: response.body.clone(),
                    },
                )
            },
            _ => None,
        }
    }

    /// The response as jq shows it, given what came of running jq on it.
    pub fn run_jq(&self, outcome: &JqOutcome) -> (r: String)
        ensures
            r@ == (if self@.last_response() matches Some(Ok(_)) {
                shown_run(*outcome)
            } else {
                ""@
            }),
    {
        match self.current_last_response() {
            Some(Ok(_)) => show_run(outcome),
            _ => "".to_owned(),
        }
    }
}

// ── Laws ──────────────────────────────────────────────────────────────────────

/// Splitting a text that goes on: the complete lines stay, and the last piece
/// is what goes on.
proof fn lemma_pieces_go_on(a: Seq<char>, b: Seq<char>)
    ensures
        pieces(a + b) == pieces(a).drop_last() + pieces(pieces(a).last() + b),
    decreases b.len(),
{
    crate::text::lemma_pieces_nonempty(a);
    if b.len() == 0 {
        assert(a + b =~= a);
        assert(pieces(a).last() + b =~= pieces(a).last());
        lemma_single_piece(a);
        assert(pieces(a) =~= pieces(a).drop_last() + seq![pieces(a).last()]);
    } else {
        let rest = b.drop_last();
        lemma_pieces_go_on(a, rest);
        let left = pieces(a).drop_last();
        let open = pieces(a).last();
        assert((a + b).drop_last() =~= a + rest);
        assert((open + b).drop_last() =~= open + rest);
        crate::text::lemma_pieces_nonempty(open + rest);
        crate::text::lemma_pieces_nonempty(a + rest);
        let front = pieces(open + rest);
        assert(pieces(a + rest).drop_last() =~= left + front.drop_last());
        assert(pieces(a + b) =~= left + pieces(open + b));
    }
}

/// The last piece of a text is a piece by itself.
proof fn lemma_single_piece(a: Seq<char>)
    ensures
        pieces(pieces(a).last()) == seq![pieces(a).last()],
    decreases a.len(),
{
    crate::text::lemma_pieces_nonempty(a);
    if a.len() > 0 {
        lemma_single_piece(a.drop_last());
        crate::text::lemma_pieces_nonempty(a.drop_last());
        if a.last() != '\n' {
            let front = pieces(a.drop_last()).last();
            let grown = front.push(a.last());
            assert(pieces(a).last() == grown);
            assert(grown.drop_last() =~= front);
            assert(pieces(grown) =~= seq![grown]);
        } else {
            assert(pieces(Seq::<char>::empty()) =~= seq![Seq::<char>::empty()]);
        }
    } else {
        assert(pieces(Seq::<char>::empty()) =~= seq![Seq::<char>::empty()]);
    }
}

proof fn lemma_with_lines_concat(m: AppModel, idx: usize, a: Seq<Seq<char>>, b: Seq<Seq<char>>)
    ensures
        m.with_lines(idx, a).with_lines(idx, b) == m.with_lines(idx, a + b),
    decreases b.len(),
{
    if b.len() == 0 {
        assert(a + b =~= a);
    } else {
        lemma_with_lines_concat(m, idx, a, b.drop_last());
        assert((a + b).drop_last() =~= a + b.drop_last());
    }
}

/// Handling a line neither reads nor changes the kept beginning of the next.
proof fn lemma_line_and_tail(m: AppModel, idx: usize, raw: Seq<char>, tail: Seq<char>)
    requires
        m.per_request.contains_key(idx),
    ensures
        m.with_line(idx, raw).with_tail(idx, tail) == m.with_tail(idx, tail).with_line(idx, raw),
        m.with_line(idx, raw).state(idx).line_buffer == m.state(idx).line_buffer,
        m.with_line(idx, raw).per_request.contains_key(idx),
{
    let a = m.with_line(idx, raw).with_tail(idx, tail);
    let b = m.with_tail(idx, tail).with_line(idx, raw);
    assert(a.per_request =~= b.per_request);
    assert(a =~= b);
}

proof fn lemma_lines_and_tail(m: AppModel, idx: usize, raw: Seq<Seq<char>>, tail: Seq<char>)
    requires
        m.per_request.contains_key(idx),
    ensures
        m.with_lines(idx, raw).with_tail(idx, tail) == m.with_tail(idx, tail).with_lines(idx, raw),
        m.with_lines(idx, raw).state(idx).line_buffer == m.state(idx).line_buffer,
        m.with_lines(idx, raw).per_request.contains_key(idx),
    decreases raw.len(),
{
    if raw.len() > 0 {
        lemma_lines_and_tail(m, idx, raw.drop_last(), tail);
        lemma_line_and_tail(m.with_lines(idx, raw.drop_last()), idx, raw.last(), tail);
    }
}

/// It does not matter how a body is cut into parts: two parts one after the
/// other do what they do in one.
pub proof fn lemma_chunks_join(m: AppModel, idx: usize, a: Seq<char>, b: Seq<char>)
    ensures
        m.with_chunk(idx, a).with_chunk(idx, b) == m.with_chunk(idx, a + b),
{
    let buffer = m.state(idx).line_buffer;
    let first = pieces(buffer + a);
    crate::text::lemma_pieces_nonempty(buffer + a);
    let started = m.with_tail(idx, first.last());
    let after_a = started.with_lines(idx, first.drop_last());
    lemma_lines_and_tail(started, idx, first.drop_last(), first.last());
    assert(after_a.state(idx).line_buffer == first.last());
    let second = pieces(first.last() + b);
    lemma_pieces_go_on(buffer + a, b);
    assert((buffer + a) + b =~= buffer + (a + b));
    let whole = pieces(buffer + (a + b));
    crate::text::lemma_pieces_nonempty(first.last() + b);
    assert(whole == first.drop_last() + second);
    assert(whole.last() == second.last());
    assert(whole.drop_last() =~= first.drop_last() + second.drop_last());
    lemma_lines_and_tail(started, idx, first.drop_last(), second.last());
    assert(started.with_tail(idx, second.last()).per_request =~= m.with_tail(
        idx,
        second.last(),
    ).per_request);
    assert(started.with_tail(idx, second.last()) =~= m.with_tail(idx, second.last()));
    lemma_with_lines_concat(
        m.with_tail(idx, second.last()),
        idx,
        first.drop_last(),
        second.drop_last(),
    );
}

/// What some complete lines leave behind: what is kept of them, and whether
/// JSON was among it.
proof fn lemma_lines_are_kept(m: AppModel, idx: usize, raw: Seq<Seq<char>>)
    ensures
        m.with_lines(idx, raw).state(idx).stripped_lines == m.state(idx).stripped_lines
            + kept_lines(raw, m.prefix(), m.suffix()),
        m.with_lines(idx, raw).streamed_jq_available == (m.streamed_jq_available || any_json(
            kept_lines(raw, m.prefix(), m.suffix()),
        )),
        m.with_lines(idx, raw).requests == m.requests,
        m.with_lines(idx, raw).current_request_index == m.current_request_index,
    decreases raw.len(),
{
    if raw.len() == 0 {
        assert(m.state(idx).stripped_lines + kept_lines(raw, m.prefix(), m.suffix())
            =~= m.state(idx).stripped_lines);
    } else {
        lemma_lines_are_kept(m, idx, raw.drop_last());
        let before = m.with_lines(idx, raw.drop_last());
        let kept = kept_lines(raw.drop_last(), m.prefix(), m.suffix());
        let now = kept_lines(raw, m.prefix(), m.suffix());
        assert(before.prefix() == m.prefix());
        assert(before.suffix() == m.suffix());
        match stripped(without_cr(raw.last()), m.prefix(), m.suffix()) {
            Ok(line) => {
                if line.len() > 0 {
                    assert(now == kept.push(line));
                    assert(m.state(idx).stripped_lines + now =~= (m.state(idx).stripped_lines
                        + kept).push(line));
                    assert(now[kept.len() as int] == line);
                    if any_json(kept) {
                        let k = choose|k: int| 0 <= k < kept.len() && json_valid(
                            #[trigger] kept[k],
                        );
                        assert(json_valid(now[k]));
                    }
                    if any_json(now) {
                        let k = choose|k: int| 0 <= k < now.len() && json_valid(#[trigger] now[k]);
                        if k < kept.len() {
                            assert(json_valid(kept[k]));
                        }
                    }
                }
            },
            Err(_) => {},
        }
    }
}

/// Raw lines that are the same but for carriage returns at their ends leave
/// the same behind.
proof fn lemma_kept_ignores_returns(
    a: Seq<Seq<char>>,
    b: Seq<Seq<char>>,
    prefix: Option<Seq<char>>,
    suffix: Option<Seq<char>>,
)
    requires
        a.len() == b.len(),
        forall|i: int| 0 <= i < a.len() ==> without_cr(#[trigger] a[i]) == without_cr(b[i]),
    ensures
        kept_lines(a, prefix, suffix) == kept_lines(b, prefix, suffix),
    decreases a.len(),
{
    if a.len() > 0 {
        let x = a.drop_last();
        let y = b.drop_last();
        assert forall|i: int| 0 <= i < x.len() implies without_cr(#[trigger] x[i]) == without_cr(
            y[i],
        ) by {
            assert(x[i] == a[i] && y[i] == b[i]);
        }
        assert(without_cr(a[a.len() - 1]) == without_cr(b[b.len() - 1]));
        lemma_kept_ignores_returns(x, y, prefix, suffix);
    }
}

/// The lines that are kept while a body streams in are those that are cut out
/// of it afterwards.
pub proof fn lemma_streaming_is_reprocessing(m: AppModel, idx: usize, body: Seq<char>)
    requires
        m.state(idx).line_buffer.len() == 0,
        m.state(idx).stripped_lines.len() == 0,
        !m.streamed_jq_available,
    ensures
        m.with_chunk(idx, body).with_flush(idx).state(idx).stripped_lines == kept_lines(
            text_lines(body),
            m.prefix(),
            m.suffix(),
        ),
        m.with_chunk(idx, body).with_flush(idx).streamed_jq_available == any_json(
            kept_lines(text_lines(body), m.prefix(), m.suffix()),
        ),
{
    let parts = pieces(body);
    crate::text::lemma_pieces_nonempty(body);
    assert(m.state(idx).line_buffer + body =~= body);
    let started = m.with_tail(idx, parts.last());
    let streamed = m.with_chunk(idx, body);
    lemma_lines_and_tail(started, idx, parts.drop_last(), parts.last());
    lemma_lines_are_kept(started, idx, parts.drop_last());
    assert(started.prefix() == m.prefix());
    assert(started.suffix() == m.suffix());
    let kept = kept_lines(parts.drop_last(), m.prefix(), m.suffix());
    assert(m.state(idx).stripped_lines + kept =~= kept);
    let all = text_lines(body);
    if parts.last().len() == 0 {
        assert forall|i: int| 0 <= i < all.len() implies without_cr(#[trigger] all[i])
            == without_cr(parts.drop_last()[i]) by {}
        lemma_kept_ignores_returns(all, parts.drop_last(), m.prefix(), m.suffix());
    } else {
        let flushed = streamed.with_line(idx, parts.last());
        lemma_lines_are_kept(streamed, idx, seq![parts.last()]);
        lemma_with_lines_concat(started, idx, parts.drop_last(), seq![parts.last()]);
        assert(parts.drop_last() + seq![parts.last()] =~= parts);
        lemma_lines_are_kept(started, idx, parts);
        assert(m.state(idx).stripped_lines + kept_lines(parts, m.prefix(), m.suffix())
            =~= kept_lines(parts, m.prefix(), m.suffix()));
        assert(seq![parts.last()].drop_last() =~= Seq::<Seq<char>>::empty());
        assert(streamed.with_lines(idx, seq![parts.last()].drop_last()) == streamed);
        assert(flushed == started.with_lines(idx, parts));
        assert forall|i: int| 0 <= i < all.len() implies without_cr(#[trigger] all[i])
            == without_cr(parts[i]) by {}
        lemma_kept_ignores_returns(all, parts, m.prefix(), m.suffix());
    }
}

/// A line that the running process takes is fed, and nothing else changes.
pub proof fn lemma_line_is_fed(m: AppModel, idx: usize, line: Seq<char>)
    requires
        m.jq_phase is Idle,
        m.jq_queue.len() > 0,
        m.jq_queue[0] == (JqWorkModel::Feed { idx, line }),
        m.streamed_jq_running,
    ensures
        m.after_reply(JqReplyModel::Ready).1 == JqCommandModel::Write(line),
        m.after_reply(JqReplyModel::Ready).0.after_reply(JqReplyModel::Written) == (
            AppModel { jq_queue: m.jq_queue.drop_first(), ..m }.fed(idx, line),
            JqCommandModel::Continue,
        ),
{
}

/// A line that a dying process does not take goes to a fresh one, with what
/// the old one still said shown before.
pub proof fn lemma_line_is_fed_again(
    m: AppModel,
    idx: usize,
    line: Seq<char>,
    said: Seq<JqEventModel>,
)
    requires
        m.jq_phase == (JqPhaseModel::Writing { idx, line, retry: false }),
    ensures
        ({
            let failed = m.after_reply(JqReplyModel::WriteFailed(said));
            let started = failed.0.after_reply(JqReplyModel::Started);
            let written = started.0.after_reply(JqReplyModel::Written);
            let heard = m.after_jq_events(idx, said);
            &&& failed.1 == heard.without_jq().spawn_command()
            &&& started.1 == JqCommandModel::WriteAgain(line)
            &&& written.1 == JqCommandModel::Continue
            &&& written.0.state(idx) == (StateModel { last_fed: line, ..heard.state(idx) })
            &&& written.0.streamed_jq_running
            &&& written.0.jq_phase is Idle
            &&& written.0.jq_queue == heard.jq_queue
        }),
{
}

/// Whatever jq says of a request, the lines that were shown stay shown, in
/// order, as the beginning of what is shown after.  Each event adds one line:
/// an output as it came, a complaint behind the line that was fed last.
/// Nothing else changes, of this request or of any other.
pub proof fn lemma_jq_output_grows(m: AppModel, idx: usize, events: Seq<JqEventModel>)
    ensures
        ({
            let before = m.state(idx);
            let heard = m.after_jq_events(idx, events);
            let after = heard.state(idx);
            &&& after.jq_output.len() == before.jq_output.len() + events.len()
            &&& before.jq_output.is_prefix_of(after.jq_output)
            &&& forall|i: int|
                0 <= i < events.len() ==> (match #[trigger] events[i] {
                    JqEventModel::Output(line) => after.jq_output[before.jq_output.len() + i]
                        == line,
                    JqEventModel::Error(words) => after.jq_output[before.jq_output.len() + i]
                        == before.last_fed + " \x1b[31m// jq: "@ + words + "\x1b[0m"@,
                })
            &&& after == (StateModel { jq_output: after.jq_output, ..before })
            &&& forall|j: usize| j != idx ==> #[trigger] heard.state(j) == m.state(j)
            &&& heard == (AppModel { per_request: heard.per_request, ..m })
        }),
    decreases events.len(),
{
    if events.len() > 0 {
        let first = events.drop_last();
        lemma_jq_output_grows(m, idx, first);
        let before = m.state(idx);
        let mid = m.after_jq_events(idx, first);
        let heard = m.after_jq_events(idx, events);
        assert(heard == mid.after_jq_event(idx, events.last()));
        assert forall|i: int| 0 <= i < events.len() implies (match #[trigger] events[i] {
            JqEventModel::Output(line) => heard.state(idx).jq_output[before.jq_output.len() + i]
                == line,
            JqEventModel::Error(words) => heard.state(idx).jq_output[before.jq_output.len() + i]
                == before.last_fed + " \x1b[31m// jq: "@ + words + "\x1b[0m"@,
        }) by {
            if i < first.len() {
                assert(first[i] == events[i]);
            }
        }
        assert forall|j: usize| j != idx implies #[trigger] heard.state(j) == m.state(j) by {
            assert(mid.state(j) == m.state(j));
        }
    }
}

/// Once a result has come, the last response of the request that was on its
/// way is that result, and an answer's body is what is kept of it as streamed.
/// The states of all the other requests are what they were, and no request is
/// changed, whichever one is selected.
pub proof fn lemma_response_goes_to_its_request(
    m: AppModel,
    p: usize,
    result: Result<ResponseModel, ErrorModel>,
)
    requires
        m.pending_request_index == Some(p),
    ensures
        ({
            let after = m.after_response(Polled::Item(result));
            &&& after.state(p).last_response == Some(result)
            &&& result matches Ok(response) ==> after.state(p).streamed_body == response.body
            &&& result is Err ==> after.state(p).streamed_body == m.state(p).streamed_body
            &&& after.state(p).events == m.state(p).events
            &&& after.state(p).jq_output == m.state(p).jq_output
            &&& after.state(p).stripped_lines == m.state(p).stripped_lines
            &&& after.state(p).line_buffer == m.state(p).line_buffer
            &&& after.state(p).last_fed == m.state(p).last_fed
            &&& forall|j: usize| j != p ==> #[trigger] after.state(j) == m.state(j)
            &&& !after.pending_response
            &&& after == (AppModel {
                per_request: after.per_request,
                pending_response: false,
                ..m
            })
        }),
        m.current_request_index == Some(p) ==> m.after_response(
            Polled::Item(result),
        ).last_response() == Some(result),
{
}

/// A request whose channel closes without a result has failed: the error goes
/// to the request that was on its way and to no other, nothing is on its way
/// any more, and the jq process is stopped after all that was asked of it.
pub proof fn lemma_closed_channel_is_an_error(m: AppModel, p: usize)
    requires
        m.pending_request_index == Some(p),
    ensures
        ({
            let after = m.after_response(Polled::Closed);
            &&& after.state(p).last_response matches Some(Err(e)) && e.kind
                is RequestFailed && e.msg == "Request channel closed"@ && e.causes.len() == 0
            &&& after.state(p).streamed_body == m.state(p).streamed_body
            &&& after.state(p).events == m.state(p).events
            &&& forall|j: usize| j != p ==> #[trigger] after.state(j) == m.state(j)
            &&& !after.pending_response
            &&& after.pending_request_index is None
            &&& after.requests == m.requests
            &&& after.current_request_index == m.current_request_index
            &&& after.jq_queue.len() == m.jq_queue.len() + 1
            &&& after.jq_queue.drop_last() == m.jq_queue
            &&& after.jq_queue.last() is Stop
        }),
        m.after_response(Polled::Empty) == m,
{
    let after = m.after_response(Polled::Closed);
    assert(after.jq_queue.drop_last() =~= m.jq_queue);
}

/// With no request on its way, a result changes no request's state.
pub proof fn lemma_stray_results_are_dropped(
    m: AppModel,
    polled: Polled<Result<ResponseModel, ErrorModel>>,
)
    requires
        m.pending_request_index is None,
    ensures
        m.after_response(polled).per_request == m.per_request,
        m.after_response(polled).requests == m.requests,
        polled !is Empty ==> !m.after_response(polled).pending_response,
{
}

/// The text that the chunks among some events hold, in order.
pub open spec fn chunk_text(events: Seq<EventModel>) -> Seq<char>
    decreases events.len(),
{
    if events.len() == 0 {
        Seq::empty()
    } else {
        chunk_text(events.drop_last()) + (match events.last() {
            EventModel::BodyChunk(chunk) => chunk,
            _ => Seq::empty(),
        })
    }
}

/// A line of the body changes nothing that is shown of a request, and nothing
/// of any other request.
proof fn lemma_lines_leave_the_rest(m: AppModel, idx: usize, raw: Seq<Seq<char>>)
    ensures
        ({
            let after = m.with_lines(idx, raw);
            &&& after.state(idx) == (StateModel {
                stripped_lines: after.state(idx).stripped_lines,
                ..m.state(idx)
            })
            &&& forall|j: usize| j != idx ==> #[trigger] after.state(j) == m.state(j)
            &&& after == (AppModel {
                per_request: after.per_request,
                jq_queue: after.jq_queue,
                streamed_jq_available: after.streamed_jq_available,
                ..m
            })
            &&& m.jq_queue.is_prefix_of(after.jq_queue)
            &&& m.streamed_jq_available ==> after.streamed_jq_available
        }),
    decreases raw.len(),
{
    if raw.len() > 0 {
        lemma_lines_leave_the_rest(m, idx, raw.drop_last());
        let mid = m.with_lines(idx, raw.drop_last());
        let after = m.with_lines(idx, raw);
        assert(after == mid.with_line(idx, raw.last()));
        assert forall|j: usize| j != idx implies #[trigger] after.state(j) == m.state(j) by {
            assert(mid.state(j) == m.state(j));
        }
    }
}

/// Whatever comes of a request on its way is noted of that request: each event
/// adds one line to its events, behind those that were there, a chunk of the
/// body by its length and any other event by its text.  The body grows by
/// exactly the chunks, in the order in which they came.  The last response
/// and every other request stay as they were.
pub proof fn lemma_events_are_noted(m: AppModel, idx: usize, events: Seq<EventModel>)
    ensures
        ({
            let before = m.state(idx);
            let told = m.after_events(idx, events);
            let after = told.state(idx);
            &&& after.events.len() == before.events.len() + events.len()
            &&& before.events.is_prefix_of(after.events)
            &&& forall|i: int|
                0 <= i < events.len() ==> (match #[trigger] events[i] {
                    EventModel::BodyChunk(chunk) => after.events[before.events.len() + i]
                        == "Response chunk received: "@ + decimal(byte_len(chunk)) + " bytes"@,
                    other => after.events[before.events.len() + i] == other.text(),
                })
            &&& after.streamed_body == before.streamed_body + chunk_text(events)
            &&& after.last_response == before.last_response
            &&& after.jq_output == before.jq_output
            &&& after.last_fed == before.last_fed
            &&& forall|j: usize| j != idx ==> #[trigger] told.state(j) == m.state(j)
            &&& told == (AppModel {
                per_request: told.per_request,
                jq_queue: told.jq_queue,
                streamed_jq_available: told.streamed_jq_available,
                ..m
            })
            &&& m.jq_queue.is_prefix_of(told.jq_queue)
            &&& m.streamed_jq_available ==> told.streamed_jq_available
        }),
    decreases events.len(),
{
    if events.len() == 0 {
        assert(m.state(idx).streamed_body + chunk_text(events) =~= m.state(idx).streamed_body);
    } else {
        let first = events.drop_last();
        lemma_events_are_noted(m, idx, first);
        let before = m.state(idx);
        let mid = m.after_events(idx, first);
        let told = m.after_events(idx, events);
        assert(told == mid.after_event(idx, events.last()));
        match events.last() {
            EventModel::BodyChunk(chunk) => {
                let noted = mid.with_state(
                    idx,
                    StateModel {
                        streamed_body: mid.state(idx).streamed_body + chunk,
                        events: mid.state(idx).events.push(
                            "Response chunk received: "@ + decimal(byte_len(chunk)) + " bytes"@,
                        ),
                        ..mid.state(idx)
                    },
                );
                let parts = pieces(noted.state(idx).line_buffer + chunk);
                let tailed = noted.with_tail(idx, parts.last());
                lemma_lines_leave_the_rest(tailed, idx, parts.drop_last());
                assert(told == tailed.with_lines(idx, parts.drop_last()));
                assert(told.state(idx).events == noted.state(idx).events);
                assert(told.state(idx).streamed_body =~= before.streamed_body + chunk_text(events));
                assert forall|j: usize| j != idx implies #[trigger] told.state(j) == m.state(j) by {
                    assert(tailed.state(j) == mid.state(j));
                    assert(mid.state(j) == m.state(j));
                }
            },
            _ => {
                assert(told.state(idx).streamed_body =~= before.streamed_body + chunk_text(events));
                assert forall|j: usize| j != idx implies #[trigger] told.state(j) == m.state(j) by {
                    assert(mid.state(j) == m.state(j));
                }
            },
        }
        assert forall|i: int| 0 <= i < events.len() implies (match #[trigger] events[i] {
            EventModel::BodyChunk(chunk) => told.state(idx).events[before.events.len() + i]
                == "Response chunk received: "@ + decimal(byte_len(chunk)) + " bytes"@,
            other => told.state(idx).events[before.events.len() + i] == other.text(),
        }) by {
            if i < first.len() {
                assert(first[i] == events[i]);
                assert(told.state(idx).events[before.events.len() + i] == mid.state(
                    idx,
                ).events[before.events.len() + i]);
            }
        }
    }
}

/// Stripping takes two valid patterns.  It says which one is missing or wrong,
/// the prefix first, and where neither pattern occurs the line stays whole.
pub proof fn lemma_stripping_takes_valid_patterns(
    raw: Seq<char>,
    prefix: Option<Seq<char>>,
    suffix: Option<Seq<char>>,
)
    ensures
        stripped(raw, prefix, suffix) is Ok <==> (prefix is Some && regex_valid(prefix->0)
            && suffix is Some && regex_valid(suffix->0)),
        prefix is None ==> stripped(raw, prefix, suffix) == Err::<Seq<char>, _>(
            "No prefix regex available"@,
        ),
        prefix is Some && !regex_valid(prefix->0) ==> stripped(raw, prefix, suffix) == Err::<
            Seq<char>,
            _,
        >("Invalid prefix regex: "@ + prefix->0),
        prefix is Some && regex_valid(prefix->0) && suffix is None ==> stripped(
            raw,
            prefix,
            suffix,
        ) == Err::<Seq<char>, _>("No suffix regex available"@),
        prefix is Some && regex_valid(prefix->0) && suffix is Some && !regex_valid(suffix->0)
            ==> stripped(raw, prefix, suffix) == Err::<Seq<char>, _>(
            "Invalid suffix regex: "@ + suffix->0,
        ),
        stripped(raw, prefix, suffix) is Ok && regex_remove_first(prefix->0, raw) == raw
            ==> stripped(raw, prefix, suffix)->Ok_0 == regex_remove_first(suffix->0, raw),
        stripped(raw, prefix, suffix) is Ok ==> forall|cut: Seq<char>|
            cut == regex_remove_first(prefix->0, raw) && #[trigger] regex_remove_first(
                suffix->0,
                cut,
            ) == cut ==> stripped(raw, prefix, suffix)->Ok_0 == cut,
        stripped(raw, prefix, suffix) is Ok ==> stripped(raw, prefix, suffix)->Ok_0
            == regex_remove_first(suffix->0, regex_remove_first(prefix->0, raw)),
{
}

/// A line of the body that is kept is noted once, behind the others, and is
/// asked to be fed to jq once, after all that was asked before.  An empty one
/// leaves no trace, and one that cannot be stripped leaves a remark.  Other
/// requests stay as they were.
pub proof fn lemma_line_is_kept_or_remarked(m: AppModel, idx: usize, raw: Seq<char>)
    ensures
        ({
            let after = m.with_line(idx, raw);
            let kept = stripped(without_cr(raw), m.prefix(), m.suffix());
            &&& forall|j: usize| j != idx ==> #[trigger] after.state(j) == m.state(j)
            &&& after.requests == m.requests
            &&& after.state(idx).streamed_body == m.state(idx).streamed_body
            &&& after.state(idx).jq_output == m.state(idx).jq_output
            &&& kept is Ok && kept->Ok_0.len() == 0 ==> after == m
            &&& kept is Ok && kept->Ok_0.len() > 0 ==> {
                let line = kept->Ok_0;
                &&& after.state(idx).stripped_lines.drop_last() == m.state(idx).stripped_lines
                &&& after.state(idx).stripped_lines.last() == line
                &&& after.state(idx).stripped_lines.len() == m.state(idx).stripped_lines.len() + 1
                &&& after.jq_queue.drop_last() == m.jq_queue
                &&& after.jq_queue.len() == m.jq_queue.len() + 1
                &&& after.jq_queue.last() == (JqWorkModel::Feed { idx, line })
                &&& after.streamed_jq_available <==> (m.streamed_jq_available || json_valid(line))
            }
            &&& kept matches Err(words) ==> {
                &&& after.per_request == m.per_request
                &&& after.streamed_jq_available == m.streamed_jq_available
                &&& after.jq_queue.drop_last() == m.jq_queue
                &&& after.jq_queue.len() == m.jq_queue.len() + 1
                &&& after.jq_queue.last() matches JqWorkModel::Note { idx: to, text } && to == idx
                    && text == "\x1b[31m// "@ + words + "\x1b[0m"@
            }
        }),
{
    let after = m.with_line(idx, raw);
    if stripped(without_cr(raw), m.prefix(), m.suffix()) is Ok {
        let line = stripped(without_cr(raw), m.prefix(), m.suffix())->Ok_0;
        if line.len() > 0 {
            assert(after.state(idx).stripped_lines.drop_last() =~= m.state(idx).stripped_lines);
            assert(after.jq_queue.drop_last() =~= m.jq_queue);
        }
    } else {
        assert(after.jq_queue.drop_last() =~= m.jq_queue);
    }
}

/// The patterns that strip the lines are those of the selected request.
pub proof fn lemma_patterns_are_the_selected_ones(m: AppModel)
    ensures
        m.has_current() ==> m.prefix() == Some(m.current().stream_prefix_regex),
        m.has_current() ==> m.suffix() == Some(m.current().stream_suffix_regex),
        m.prefix() is Some <==> m.has_current(),
        m.suffix() is Some <==> m.has_current(),
{
}

/// The lines kept of two bodies, one behind the other, are those kept of the
/// one and then those kept of the other; so are the remarks.  One line is kept
/// where stripping leaves something of it, and remarked on where it fails.
pub proof fn lemma_kept_lines_join(
    a: Seq<Seq<char>>,
    b: Seq<Seq<char>>,
    line: Seq<char>,
    prefix: Option<Seq<char>>,
    suffix: Option<Seq<char>>,
)
    ensures
        kept_lines(a + b, prefix, suffix) == kept_lines(a, prefix, suffix) + kept_lines(
            b,
            prefix,
            suffix,
        ),
        remarks_on(a + b, prefix, suffix) == remarks_on(a, prefix, suffix) + remarks_on(
            b,
            prefix,
            suffix,
        ),
        kept_lines(seq![line], prefix, suffix) == (match stripped(
            without_cr(line),
            prefix,
            suffix,
        ) {
            Ok(kept) if kept.len() > 0 => seq![kept],
            _ => Seq::empty(),
        }),
        remarks_on(seq![line], prefix, suffix) == (match stripped(
            without_cr(line),
            prefix,
            suffix,
        ) {
            Err(words) => seq!["\x1b[31m// "@ + words + "\x1b[0m"@],
            _ => Seq::empty(),
        }),
    decreases b.len(),
{
    let one = seq![line];
    assert(one.drop_last() =~= Seq::<Seq<char>>::empty());
    assert(kept_lines(one.drop_last(), prefix, suffix) =~= Seq::<Seq<char>>::empty());
    assert(remarks_on(one.drop_last(), prefix, suffix) =~= Seq::<Seq<char>>::empty());
    assert(one.last() == line);
    match stripped(without_cr(line), prefix, suffix) {
        Ok(kept) => {
            assert(Seq::<Seq<char>>::empty().push(kept) =~= seq![kept]);
        },
        Err(words) => {
            assert(Seq::<Seq<char>>::empty().push(remark(words)) =~= seq![remark(words)]);
        },
    }
    if b.len() == 0 {
        assert(a + b =~= a);
        assert(kept_lines(a, prefix, suffix) + kept_lines(b, prefix, suffix) =~= kept_lines(
            a,
            prefix,
            suffix,
        ));
        assert(remarks_on(a, prefix, suffix) + remarks_on(b, prefix, suffix) =~= remarks_on(
            a,
            prefix,
            suffix,
        ));
    } else {
        lemma_kept_lines_join(a, b.drop_last(), line, prefix, suffix);
        assert((a + b).drop_last() =~= a + b.drop_last());
        assert((a + b).last() == b.last());
        assert(kept_lines(a + b, prefix, suffix) =~= kept_lines(a, prefix, suffix) + kept_lines(
            b,
            prefix,
            suffix,
        ));
        assert(remarks_on(a + b, prefix, suffix) =~= remarks_on(a, prefix, suffix) + remarks_on(
            b,
            prefix,
            suffix,
        ));
    }
}

/// Where both patterns are valid there is nothing to remark on, and where one
/// is not no line is kept and every line is remarked on.
pub proof fn lemma_lines_are_kept_or_remarked(
    raw: Seq<Seq<char>>,
    prefix: Option<Seq<char>>,
    suffix: Option<Seq<char>>,
)
    ensures
        ({
            let valid = prefix is Some && regex_valid(prefix->0) && suffix is Some && regex_valid(
                suffix->0,
            );
            &&& valid ==> remarks_on(raw, prefix, suffix).len() == 0
            &&& !valid ==> kept_lines(raw, prefix, suffix).len() == 0
            &&& !valid ==> remarks_on(raw, prefix, suffix).len() == raw.len()
            &&& kept_lines(raw, prefix, suffix).len() <= raw.len()
            &&& forall|i: int|
                0 <= i < kept_lines(raw, prefix, suffix).len() ==> (#[trigger] kept_lines(
                    raw,
                    prefix,
                    suffix,
                )[i]).len() > 0
        }),
    decreases raw.len(),
{
    if raw.len() > 0 {
        lemma_lines_are_kept_or_remarked(raw.drop_last(), prefix, suffix);
    }
}

/// Going over the body again keeps the body, the events and the last response,
/// forgets what was fed, leaves no jq process running, and changes no other
/// request.  A second time it finds the same.
pub proof fn lemma_reprocessing_keeps_the_body(m: AppModel, idx: usize)
    requires
        m.current_request_index == Some(idx),
    ensures
        ({
            let after = m.reprocessed();
            &&& after.state(idx).streamed_body == m.state(idx).streamed_body
            &&& after.state(idx).events == m.state(idx).events
            &&& after.state(idx).last_response == m.state(idx).last_response
            &&& after.state(idx).line_buffer == m.state(idx).line_buffer
            &&& after.state(idx).last_fed.len() == 0
            &&& forall|j: usize| j != idx ==> #[trigger] after.state(j) == m.state(j)
            &&& after.requests == m.requests
            &&& after.current_request_index == m.current_request_index
            &&& after.pending_request_index == m.pending_request_index
            &&& after.pending_response == m.pending_response
            &&& after.jq_queue == m.jq_queue
            &&& !after.streamed_jq_running
            &&& after.reprocessed() == after
        }),
        forall|i: int|
            0 <= i < m.reprocessed().state(idx).stripped_lines.len() && json_valid(
                #[trigger] m.reprocessed().state(idx).stripped_lines[i],
            ) ==> m.reprocessed().streamed_jq_available,
        m.reprocessed().streamed_jq_available ==> exists|i: int|
            0 <= i < m.reprocessed().state(idx).stripped_lines.len() && json_valid(
                #[trigger] m.reprocessed().state(idx).stripped_lines[i],
            ),
{
    reveal_strlit("");
    let after = m.reprocessed();
    let again = after.reprocessed();
    assert(after.prefix() == m.prefix());
    assert(after.suffix() == m.suffix());
    assert(again.state(idx) == after.state(idx));
    assert(again.per_request =~= after.per_request);
    assert(again =~= after);
    let kept = after.state(idx).stripped_lines;
    if after.streamed_jq_available {
        assert(any_json(kept));
        let i = choose|i: int| 0 <= i < kept.len() && json_valid(#[trigger] kept[i]);
        assert(json_valid(m.reprocessed().state(idx).stripped_lines[i]));
    }
}

/// A remark that is due is shown of its request, behind what is shown there.
/// Nothing is asked of jq for it, and no other request changes.
pub proof fn lemma_remark_is_shown(m: AppModel, idx: usize, text: Seq<char>)
    requires
        m.jq_phase is Idle,
        m.jq_queue.len() > 0,
        m.jq_queue[0] == (JqWorkModel::Note { idx, text }),
    ensures
        ({
            let (after, command) = m.after_reply(JqReplyModel::Ready);
            &&& command is Continue
            &&& after.jq_queue == m.jq_queue.drop_first()
            &&& after.state(idx).jq_output.len() == m.state(idx).jq_output.len() + 1
            &&& m.state(idx).jq_output.is_prefix_of(after.state(idx).jq_output)
            &&& after.state(idx).jq_output.last() == text
            &&& after.state(idx).streamed_body == m.state(idx).streamed_body
            &&& forall|j: usize| j != idx ==> #[trigger] after.state(j) == m.state(j)
            &&& after.streamed_jq_running == m.streamed_jq_running
        }),
{
}

/// Asked to stop, the process is killed; with nothing left to do, nothing is
/// asked for and nothing changes.
pub proof fn lemma_stop_kills_the_process(m: AppModel)
    requires
        m.jq_phase is Idle,
    ensures
        m.jq_queue.len() == 0 ==> m.after_reply(JqReplyModel::Ready) == (m, JqCommandModel::Done),
        m.jq_queue.len() > 0 && m.jq_queue[0] is Stop ==> {
            let (after, command) = m.after_reply(JqReplyModel::Ready);
            &&& command is Kill
            &&& !after.streamed_jq_running
            &&& after.jq_queue == m.jq_queue.drop_first()
            &&& after.per_request == m.per_request
        },
{
}

/// With no process running, a line that is due first has one started, with
/// the filter of the selected request as its last argument, and is then written
/// to it and remembered as fed.  Where none can be started, that is told of the
/// selected request and the line is given up.
pub proof fn lemma_line_starts_a_process(
    m: AppModel,
    idx: usize,
    line: Seq<char>,
    current: usize,
    words: Seq<char>,
)
    requires
        m.jq_phase is Idle,
        m.jq_queue.len() > 0,
        m.jq_queue[0] == (JqWorkModel::Feed { idx, line }),
        !m.streamed_jq_running,
        m.current_request_index == Some(current),
    ensures
        ({
            let (asked, spawn) = m.after_reply(JqReplyModel::Ready);
            let (started, write) = asked.after_reply(JqReplyModel::Started);
            let (written, go_on) = started.after_reply(JqReplyModel::Written);
            let (failed, give_up) = asked.after_reply(JqReplyModel::StartFailed(words));
            &&& spawn == JqCommandModel::Spawn(
                seq!["--color-output"@, "--unbuffered"@, effective_filter(m.jq_filter())],
            )
            &&& asked.jq_queue == m.jq_queue.drop_first()
            &&& asked.per_request == m.per_request
            &&& write == JqCommandModel::Write(line)
            &&& started.streamed_jq_running
            &&& started.streamed_jq_output_rx
            &&& started.streamed_jq_output_tx
            &&& started.per_request == m.per_request
            &&& go_on is Continue
            &&& written.state(idx).last_fed == line
            &&& written.state(idx).jq_output == m.state(idx).jq_output
            &&& written.jq_phase is Idle
            &&& give_up is Continue
            &&& failed.jq_phase is Idle
            &&& failed.state(current).jq_output.drop_last() == m.state(current).jq_output
            &&& failed.state(current).jq_output.len() == m.state(current).jq_output.len() + 1
            &&& failed.state(current).jq_output.last() == "\x1b[31m// "@ + ("Failed to start jq: "@
                + words) + "\x1b[0m"@
            &&& failed.jq_queue == m.jq_queue.drop_first()
            &&& forall|j: usize| j != current ==> #[trigger] failed.state(j) == m.state(j)
        }),
{
    let asked = m.after_reply(JqReplyModel::Ready).0;
    let failed = asked.after_reply(JqReplyModel::StartFailed(words)).0;
    assert(failed.state(current).jq_output.drop_last() =~= m.state(current).jq_output);
}

/// A second refusal gives the line up as fed: it is not written a third time.
pub proof fn lemma_line_is_given_up(
    m: AppModel,
    idx: usize,
    line: Seq<char>,
    said: Seq<JqEventModel>,
)
    requires
        m.jq_phase == (JqPhaseModel::Writing { idx, line, retry: true }),
    ensures
        ({
            let (after, command) = m.after_reply(JqReplyModel::WriteFailed(said));
            &&& command is Continue
            &&& after.jq_phase is Idle
            &&& after.state(idx).last_fed == line
            &&& after.state(idx).jq_output == m.state(idx).jq_output
            &&& after.jq_queue == m.jq_queue
        }),
{
}

/// What jq says goes to the selected request, and what comes of the request on
/// its way goes to that request; no third request changes.  While its result
/// is still awaited, or its events still come, the request stays on its way.
pub proof fn lemma_polls_go_to_their_requests(
    m: AppModel,
    jq_events: Seq<JqEventModel>,
    jq_closed: bool,
    events: Seq<EventModel>,
    closed: bool,
    current: usize,
    pending: usize,
)
    requires
        m.current_request_index == Some(current),
        m.pending_request_index == Some(pending),
        current != pending,
    ensures
        ({
            let after = m.after_polls(jq_events, jq_closed, events, closed);
            &&& after.state(current).jq_output.len() == m.state(current).jq_output.len()
                + jq_events.len()
            &&& m.state(current).jq_output.is_prefix_of(after.state(current).jq_output)
            &&& after.state(current).events == m.state(current).events
            &&& after.state(current).streamed_body == m.state(current).streamed_body
            &&& after.state(pending).events.len() == m.state(pending).events.len() + events.len()
            &&& m.state(pending).events.is_prefix_of(after.state(pending).events)
            &&& after.state(pending).streamed_body == m.state(pending).streamed_body + chunk_text(
                events,
            )
            &&& after.state(pending).jq_output == m.state(pending).jq_output
            &&& after.state(pending).last_response == m.state(pending).last_response
            &&& forall|j: usize|
                j != current && j != pending ==> #[trigger] after.state(j) == m.state(j)
            &&& after.requests == m.requests
            &&& after.current_request_index == m.current_request_index
            &&& after.pending_response == m.pending_response
            &&& jq_closed ==> !after.streamed_jq_running
            &&& !closed || m.pending_response ==> after.pending_request_index == Some(pending)
            &&& !closed || m.pending_response ==> after.event_receiver == m.event_receiver
            &&& closed && !m.pending_response ==> {
                &&& after.pending_request_index is None
                &&& !after.event_receiver
                &&& after.state(pending).line_buffer.len() == 0
                &&& after.jq_queue.len() > 0
                &&& after.jq_queue.last() is Stop
            }
        }),
{
    reveal_strlit("");
    lemma_jq_output_grows(m, current, jq_events);
    let heard = m.after_jq_events(current, jq_events);
    let quiet = if jq_closed {
        heard.without_jq()
    } else {
        heard
    };
    lemma_events_are_noted(quiet, pending, events);
    let told = quiet.after_events(pending, events);
    assert(quiet.state(pending) == heard.state(pending));
    assert(quiet.state(current) == heard.state(current));
    assert(told.state(current) == quiet.state(current));
    let after = m.after_polls(jq_events, jq_closed, events, closed);
    let tail = told.state(pending).line_buffer;
    lemma_line_is_kept_or_remarked(told, pending, tail);
    let flushed = told.with_line(pending, tail);
    assert(flushed.state(current) == told.state(current));
    assert forall|j: usize| j != current && j != pending implies #[trigger] after.state(j)
        == m.state(j) by {
        assert(told.state(j) == quiet.state(j));
        assert(quiet.state(j) == heard.state(j));
        assert(heard.state(j) == m.state(j));
        assert(flushed.state(j) == told.state(j));
    }
}

/// Where the request on its way is the selected one, what jq says and what comes
/// of the request both go to it, and to no other.
pub proof fn lemma_polls_go_to_the_selected_request(
    m: AppModel,
    jq_events: Seq<JqEventModel>,
    jq_closed: bool,
    events: Seq<EventModel>,
    closed: bool,
    idx: usize,
)
    requires
        m.current_request_index == Some(idx),
        m.pending_request_index == Some(idx),
    ensures
        ({
            let after = m.after_polls(jq_events, jq_closed, events, closed);
            &&& after.state(idx).jq_output.len() == m.state(idx).jq_output.len() + jq_events.len()
            &&& m.state(idx).jq_output.is_prefix_of(after.state(idx).jq_output)
            &&& after.state(idx).events.len() == m.state(idx).events.len() + events.len()
            &&& m.state(idx).events.is_prefix_of(after.state(idx).events)
            &&& after.state(idx).streamed_body == m.state(idx).streamed_body + chunk_text(events)
            &&& after.state(idx).last_response == m.state(idx).last_response
            &&& forall|j: usize| j != idx ==> #[trigger] after.state(j) == m.state(j)
            &&& after.requests == m.requests
            &&& after.pending_response == m.pending_response
            &&& closed && !m.pending_response ==> after.pending_request_index is None
            &&& !closed || m.pending_response ==> after.pending_request_index == Some(idx)
        }),
{
    lemma_jq_output_grows(m, idx, jq_events);
    let heard = m.after_jq_events(idx, jq_events);
    let quiet = if jq_closed {
        heard.without_jq()
    } else {
        heard
    };
    lemma_events_are_noted(quiet, idx, events);
    let told = quiet.after_events(idx, events);
    assert(quiet.state(idx) == heard.state(idx));
    let tail = told.state(idx).line_buffer;
    lemma_line_is_kept_or_remarked(told, idx, tail);
    lemma_line_leaves_the_rest(told, idx, tail);
    let flushed = told.with_line(idx, tail);
    let after = m.after_polls(jq_events, jq_closed, events, closed);
    assert forall|j: usize| j != idx implies #[trigger] after.state(j) == m.state(j) by {
        assert(told.state(j) == quiet.state(j));
        assert(quiet.state(j) == heard.state(j));
        assert(heard.state(j) == m.state(j));
        assert(flushed.state(j) == told.state(j));
    }
}

proof fn lemma_line_leaves_the_rest(m: AppModel, idx: usize, raw: Seq<char>)
    ensures
        ({
            let after = m.with_line(idx, raw);
            after.state(idx) == (StateModel {
                stripped_lines: after.state(idx).stripped_lines,
                ..m.state(idx)
            })
        }),
{
}

/// With no request on its way nothing that comes changes any request's state,
/// and with none selected nothing that jq says does.
pub proof fn lemma_polls_without_requests(
    m: AppModel,
    jq_events: Seq<JqEventModel>,
    jq_closed: bool,
    events: Seq<EventModel>,
    closed: bool,
)
    requires
        m.current_request_index is None,
        m.pending_request_index is None,
    ensures
        m.after_polls(jq_events, jq_closed, events, closed).per_request == m.per_request,
        m.after_polls(jq_events, jq_closed, events, closed).requests == m.requests,
{
}

/// A reply that answers another question has the question asked again, and
/// changes nothing.
pub proof fn lemma_other_replies_ask_again(m: AppModel, reply: JqReplyModel)
    ensures
        m.jq_phase is Starting && reply !is Started && reply !is StartFailed ==> m.after_reply(
            reply,
        ).0 == m && m.after_reply(reply).1 is Spawn,
        m.jq_phase matches JqPhaseModel::Writing { idx, line, retry } ==> (reply !is Written
            && reply !is WriteFailed ==> m.after_reply(reply) == (
            m,
            if retry {
                JqCommandModel::WriteAgain(line)
            } else {
                JqCommandModel::Write(line)
            },
        )),
{
}

/// Where no second process can be started for a line either, that is told of the
/// selected request, and the line is given up as fed.
pub proof fn lemma_second_start_gives_up(
    m: AppModel,
    idx: usize,
    line: Seq<char>,
    current: usize,
    words: Seq<char>,
)
    requires
        m.jq_phase == (JqPhaseModel::Starting { idx, line, retry: true }),
        m.current_request_index == Some(current),
    ensures
        ({
            let (after, command) = m.after_reply(JqReplyModel::StartFailed(words));
            &&& command is Continue
            &&& after.jq_phase is Idle
            &&& after.state(idx).last_fed == line
            &&& after.state(current).jq_output.len() == m.state(current).jq_output.len() + 1
            &&& m.state(current).jq_output.is_prefix_of(after.state(current).jq_output)
            &&& after.state(current).jq_output.last() == "\x1b[31m// "@ + ("Failed to start jq: "@
                + words) + "\x1b[0m"@
            &&& after.jq_queue == m.jq_queue
        }),
{
}

/// What is left of the body without a line break at its end is a line too once
/// the body has ended, and with nothing left nothing changes.
pub proof fn lemma_last_line_is_not_lost(m: AppModel, idx: usize)
    ensures
        m.state(idx).line_buffer.len() == 0 ==> m.with_flush(idx) == m,
        m.state(idx).line_buffer.len() > 0 ==> {
            let after = m.with_flush(idx);
            let kept = m.with_line(idx, m.state(idx).line_buffer);
            &&& after.state(idx).line_buffer.len() == 0
            &&& after.state(idx).stripped_lines == kept.state(idx).stripped_lines
            &&& after.jq_queue == kept.jq_queue
            &&& after.streamed_jq_available == kept.streamed_jq_available
            &&& after.state(idx).streamed_body == m.state(idx).streamed_body
        },
{
    reveal_strlit("");
    lemma_line_leaves_the_rest(m, idx, m.state(idx).line_buffer);
}

/// A chunk leaves what stands behind its last line break for the next one, and
/// every line that it completes is taken in turn.
pub proof fn lemma_chunk_completes_lines(m: AppModel, idx: usize, a: Seq<char>, b: Seq<char>)
    requires
        !a.contains('\n'),
        !b.contains('\n'),
        m.state(idx).line_buffer.len() == 0,
    ensures
        m.with_chunk(idx, a).state(idx).line_buffer == a,
        m.with_chunk(idx, a).state(idx).stripped_lines == m.state(idx).stripped_lines,
        m.with_chunk(idx, a).jq_queue == m.jq_queue,
        m.with_chunk(idx, a + seq!['\n'] + b).state(idx).line_buffer == b,
        m.with_chunk(idx, a + seq!['\n'] + b).state(idx).stripped_lines == m.with_line(
            idx,
            a,
        ).state(idx).stripped_lines,
        m.with_chunk(idx, a + seq!['\n'] + b).jq_queue == m.with_line(idx, a).jq_queue,
{
    let none = m.state(idx).line_buffer;
    let both = a + seq!['\n'] + b;
    assert(none + a =~= a);
    assert(none + both =~= both);
    crate::text::lemma_one_piece(a);
    crate::text::lemma_one_piece(b);
    crate::text::lemma_pieces_part(a, b);
    assert(pieces(a).drop_last() =~= Seq::<Seq<char>>::empty());
    assert(pieces(both) =~= seq![a, b]);
    assert(pieces(both).drop_last() =~= seq![a]);
    assert(seq![a].drop_last() =~= Seq::<Seq<char>>::empty());
    let tailed = m.with_tail(idx, b);
    assert(tailed.with_lines(idx, seq![a].drop_last()) == tailed);
    assert(m.with_chunk(idx, both) == tailed.with_line(idx, a));
    lemma_line_leaves_the_rest(tailed, idx, a);
    assert(tailed.prefix() == m.prefix());
    assert(tailed.suffix() == m.suffix());
}

} // verus!
