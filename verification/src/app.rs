//! State of the application.

use std::collections::HashMap;

use tokio::sync::{mpsc, oneshot};
use vstd::prelude::*;
use vstd::std_specs::iter::IteratorSpec;

use crate::headers::{
    lemma_place_ignoring_case, lemma_place_of, place_ignoring_case, place_of, value_of, without_field,
};
use crate::http_client::{
    bare_request, joined, prefix_pattern, suffix_pattern, text_of, ErrorModel, HttpError,
    HttpMethod, HttpRequest, HttpResponse, RequestEvent, RequestModel, ResponseModel,
};
use crate::jq::{JqEvent, JqPhase, JqPhaseModel, JqWork, JqWorkModel};
use crate::keymap::{KeyContext, Keymap, RuleModel};
use crate::default_keymap::default_table;
use crate::suggestions::{
    lemma_suggested_names_match, standard_headers, suggest, suggestions_for, texts,
};
use crate::text::{byte_len, join, join_texts, length, lowercase, views};

verus! {

broadcast use vstd::std_specs::hash::group_hash_axioms;

/// Scroll value that means "to the last line on the next render": the renderer
/// clamps scroll values, so any value beyond the content has that effect.
pub const SCROLL_TO_END: u16 = 65535;

// ── State enums ───────────────────────────────────────────────────────────────

/// The screen that is shown.
#[derive(Debug, Clone, Copy, PartialEq, Eq, Structural)]
pub enum CurrentScreen {
    Main,
    Request,
    Exiting,
}

/// The field whose text is being edited.
#[derive(Debug, Clone, Copy, PartialEq, Eq, Structural)]
pub enum EditingField {
    Url,
    Headers,
    Body,
    JsonFilter,
    StreamPrefixRegex,
    StreamSuffixRegex,
}

/// How a response is shown.
#[derive(Debug, Clone, Copy, PartialEq, Eq, Structural)]
pub enum ResponseViewMode {
    Text,
    Json,
    StreamedJson,
}

/// The name of a view mode.
pub open spec fn mode_label(mode: ResponseViewMode) -> Seq<char> {
    match mode {
        ResponseViewMode::Text => "text"@,
        ResponseViewMode::Json => "json"@,
        ResponseViewMode::StreamedJson => "streamed json"@,
    }
}

impl ResponseViewMode {
    pub fn label(&self) -> (r: &'static str)
        ensures
            r@ == mode_label(*self),
    {
        match self {
            ResponseViewMode::Text => "text",
            ResponseViewMode::Json => "json",
            ResponseViewMode::StreamedJson => "streamed json",
        }
    }
}

/// The field of the request screen that has the focus.
#[derive(Debug, Clone, Copy, PartialEq, Eq, Structural)]
pub enum FocusableField {
    Url,
    Headers,
    Body,
    RequestEvents,
    Response,
}

/// Which part of a header the user is editing.
#[derive(Debug, Clone, Copy, PartialEq, Eq, Structural)]
pub enum HeaderField {
    Key,
    Value,
}

/// State of the list of suggested header names.
#[derive(Debug, Clone, Copy, PartialEq, Eq, Structural)]
pub struct AutocompleteState {
    pub selected: usize,
}

// ── Per-request state ─────────────────────────────────────────────────────────

/// Response and streaming state of one request.
#[derive(Debug)]
pub struct PerRequestState {
    pub events: Vec<String>,
    pub streamed_body: String,
    pub last_response: Option<Result<HttpResponse, HttpError>>,
    pub jq_output: Vec<String>,
    pub line_buffer: String,
    pub stripped_lines: Vec<String>,
    pub last_fed: String,
}

/// What the state of one request says.
#[verifier::ext_equal]
pub ghost struct StateModel {
    pub events: Seq<Seq<char>>,
    pub streamed_body: Seq<char>,
    pub last_response: Option<Result<ResponseModel, ErrorModel>>,
    pub jq_output: Seq<Seq<char>>,
    pub line_buffer: Seq<char>,
    pub stripped_lines: Seq<Seq<char>>,
    pub last_fed: Seq<char>,
}

/// What the end of a request says.
pub open spec fn result_model(r: Result<HttpResponse, HttpError>) -> Result<
    ResponseModel,
    ErrorModel,
> {
    match r {
        Ok(response) => Ok(response@),
        Err(e) => Err(e@),
    }
}

impl View for PerRequestState {
    type V = StateModel;

    open spec fn view(&self) -> StateModel {
        StateModel {
            events: views(self.events@),
            streamed_body: self.streamed_body@,
            last_response: match self.last_response {
                Some(r) => Some(result_model(r)),
                None => None,
            },
            jq_output: views(self.jq_output@),
            line_buffer: self.line_buffer@,
            stripped_lines: views(self.stripped_lines@),
            last_fed: self.last_fed@,
        }
    }
}

/// The state of a request of which nothing is known.
pub open spec fn empty_state() -> StateModel {
    StateModel {
        events: Seq::empty(),
        streamed_body: ""@,
        last_response: None,
        jq_output: Seq::empty(),
        line_buffer: ""@,
        stripped_lines: Seq::empty(),
        last_fed: ""@,
    }
}

impl PerRequestState {
    pub fn new() -> (r: PerRequestState)
        ensures
            r@ == empty_state(),
    {
        let r = PerRequestState {
            events: Vec::new(),
            streamed_body: "".to_owned(),
            last_response: None,
            jq_output: Vec::new(),
            line_buffer: "".to_owned(),
            stripped_lines: Vec::new(),
            last_fed: "".to_owned(),
        };
        proof {
            assert(views(r.events@) =~= Seq::<Seq<char>>::empty());
            assert(views(r.jq_output@) =~= Seq::<Seq<char>>::empty());
            assert(views(r.stripped_lines@) =~= Seq::<Seq<char>>::empty());
        }
        r
    }
}

/// The state of a request, which is empty where none was kept.
pub open spec fn state_of(states: Map<usize, StateModel>, idx: usize) -> StateModel {
    if states.contains_key(idx) {
        states[idx]
    } else {
        empty_state()
    }
}

/// What some states say.
pub open spec fn state_models(states: Map<usize, PerRequestState>) -> Map<usize, StateModel> {
    states.map_values(|s: PerRequestState| s@)
}

/// What some requests say.
pub open spec fn request_models(requests: Seq<HttpRequest>) -> Seq<RequestModel> {
    Seq::new(requests.len(), |i: int| requests[i]@)
}

// ── Channels ──────────────────────────────────────────────────────────────────

/// tokio's `oneshot::error::RecvError`, which stands in the type of the
/// receiver and is never looked into.
#[verifier::external_type_specification]
#[verifier::external_body]
pub struct ExRecvError(oneshot::error::RecvError);

/// tokio's `oneshot::Receiver`, on which the end of a request comes.
#[verifier::external_type_specification]
#[verifier::external_body]
#[verifier::reject_recursive_types(T)]
pub struct ExOneshotReceiver<T>(oneshot::Receiver<T>);

/// tokio's `mpsc::UnboundedReceiver`, on which events come one by one.
#[verifier::external_type_specification]
#[verifier::external_body]
#[verifier::reject_recursive_types(T)]
pub struct ExUnboundedReceiver<T>(mpsc::UnboundedReceiver<T>);

/// tokio's `mpsc::UnboundedSender`, which is only kept.
#[verifier::external_type_specification]
#[verifier::external_body]
#[verifier::reject_recursive_types(T)]
pub struct ExUnboundedSender<T>(mpsc::UnboundedSender<T>);

// ── Application ───────────────────────────────────────────────────────────────

/// The whole state of the application.
pub struct App {
    pub current_screen: CurrentScreen,
    pub requests: Vec<HttpRequest>,
    pub current_request_index: Option<usize>,
    pub pending_response: Option<oneshot::Receiver<Result<HttpResponse, HttpError>>>,
    pub pending_request_index: Option<usize>,
    pub event_receiver: Option<mpsc::UnboundedReceiver<RequestEvent>>,
    pub per_request: HashMap<usize, PerRequestState>,
    pub editing_field: Option<EditingField>,
    pub focused_field: FocusableField,
    pub input_buffer: String,
    pub cursor_pos: usize,
    pub header_key_buffer: String,
    pub header_key_cursor: usize,
    pub header_value_buffer: String,
    pub header_value_cursor: usize,
    pub header_field: HeaderField,
    pub editing_existing_header: Option<String>,
    pub selected_header_index: usize,
    pub header_autocomplete: Option<AutocompleteState>,
    pub response_view_mode: ResponseViewMode,
    pub headers_scroll: u16,
    pub body_scroll: u16,
    pub events_scroll: u16,
    pub response_scroll: u16,
    pub url_h_scroll: u16,
    pub filter_h_scroll: u16,
    pub last_save_status: Option<String>,
    pub keymap: Keymap,
    pub streamed_jq_available: bool,
    pub streamed_jq_output_tx: Option<mpsc::UnboundedSender<JqEvent>>,
    pub streamed_jq_output_rx: Option<mpsc::UnboundedReceiver<JqEvent>>,
    /// Whether a jq process is running that takes streamed lines.
    pub streamed_jq_running: bool,
    /// What is still to be done with the jq process.
    pub jq_queue: Vec<JqWork>,
    /// What the jq process was asked to do last.
    pub jq_phase: JqPhase,
}

/// What the state of the application says.  Of a channel only its presence is
/// known.
#[verifier::ext_equal]
pub ghost struct AppModel {
    pub current_screen: CurrentScreen,
    pub requests: Seq<RequestModel>,
    pub current_request_index: Option<usize>,
    pub pending_response: bool,
    pub pending_request_index: Option<usize>,
    pub event_receiver: bool,
    pub per_request: Map<usize, StateModel>,
    pub editing_field: Option<EditingField>,
    pub focused_field: FocusableField,
    pub input_buffer: Seq<char>,
    pub cursor_pos: usize,
    pub header_key_buffer: Seq<char>,
    pub header_key_cursor: usize,
    pub header_value_buffer: Seq<char>,
    pub header_value_cursor: usize,
    pub header_field: HeaderField,
    pub editing_existing_header: Option<Seq<char>>,
    pub selected_header_index: usize,
    pub header_autocomplete: Option<AutocompleteState>,
    pub response_view_mode: ResponseViewMode,
    pub headers_scroll: u16,
    pub body_scroll: u16,
    pub events_scroll: u16,
    pub response_scroll: u16,
    pub url_h_scroll: u16,
    pub filter_h_scroll: u16,
    pub last_save_status: Option<Seq<char>>,
    pub keymap: Seq<RuleModel>,
    pub streamed_jq_available: bool,
    pub streamed_jq_output_tx: bool,
    pub streamed_jq_output_rx: bool,
    pub streamed_jq_running: bool,
    pub jq_queue: Seq<JqWorkModel>,
    pub jq_phase: JqPhaseModel,
}

impl View for App {
    type V = AppModel;

    open spec fn view(&self) -> AppModel {
        AppModel {
            current_screen: self.current_screen,
            requests: request_models(self.requests@),
            current_request_index: self.current_request_index,
            pending_response: self.pending_response is Some,
            pending_request_index: self.pending_request_index,
            event_receiver: self.event_receiver is Some,
            per_request: state_models(self.per_request@),
            editing_field: self.editing_field,
            focused_field: self.focused_field,
            input_buffer: self.input_buffer@,
            cursor_pos: self.cursor_pos,
            header_key_buffer: self.header_key_buffer@,
            header_key_cursor: self.header_key_cursor,
            header_value_buffer: self.header_value_buffer@,
            header_value_cursor: self.header_value_cursor,
            header_field: self.header_field,
            editing_existing_header: text_of(self.editing_existing_header),
            selected_header_index: self.selected_header_index,
            header_autocomplete: self.header_autocomplete,
            response_view_mode: self.response_view_mode,
            headers_scroll: self.headers_scroll,
            body_scroll: self.body_scroll,
            events_scroll: self.events_scroll,
            response_scroll: self.response_scroll,
            url_h_scroll: self.url_h_scroll,
            filter_h_scroll: self.filter_h_scroll,
            last_save_status: text_of(self.last_save_status),
            keymap: self.keymap@,
            streamed_jq_available: self.streamed_jq_available,
            streamed_jq_output_tx: self.streamed_jq_output_tx is Some,
            streamed_jq_output_rx: self.streamed_jq_output_rx is Some,
            streamed_jq_running: self.streamed_jq_running,
            jq_queue: crate::jq::work_models(self.jq_queue@),
            jq_phase: self.jq_phase@,
        }
    }
}

/// The state that the application starts with.
pub open spec fn initial_model(requests: Seq<RequestModel>) -> AppModel {
    AppModel {
        current_screen: CurrentScreen::Main,
        requests,
        current_request_index: if requests.len() == 0 {
            None
        } else {
            Some(0)
        },
        pending_response: false,
        pending_request_index: None,
        event_receiver: false,
        per_request: Map::empty(),
        editing_field: None,
        focused_field: FocusableField::Url,
        input_buffer: ""@,
        cursor_pos: 0,
        header_key_buffer: ""@,
        header_key_cursor: 0,
        header_value_buffer: ""@,
        header_value_cursor: 0,
        header_field: HeaderField::Key,
        editing_existing_header: None,
        selected_header_index: 0,
        header_autocomplete: None,
        response_view_mode: ResponseViewMode::Text,
        headers_scroll: 0,
        body_scroll: 0,
        events_scroll: 0,
        response_scroll: 0,
        url_h_scroll: 0,
        filter_h_scroll: 0,
        last_save_status: None,
        keymap: default_table(),
        streamed_jq_available: false,
        streamed_jq_output_tx: false,
        streamed_jq_output_rx: false,
        streamed_jq_running: false,
        jq_queue: Seq::empty(),
        jq_phase: JqPhaseModel::Idle,
    }
}

impl AppModel {
    /// Whether a request is selected.
    pub open spec fn has_current(self) -> bool {
        self.current_request_index matches Some(i) && i < self.requests.len()
    }

    /// The selected request.
    pub open spec fn current(self) -> RequestModel {
        self.requests[self.current_request_index->0 as int]
    }

    /// The application with the selected request replaced, if there is one.
    pub open spec fn with_current(self, request: RequestModel) -> AppModel {
        if self.has_current() {
            AppModel {
                requests: self.requests.update(self.current_request_index->0 as int, request),
                ..self
            }
        } else {
            self
        }
    }

    /// The application with the state of one request replaced.
    pub open spec fn with_state(self, idx: usize, state: StateModel) -> AppModel {
        AppModel { per_request: self.per_request.insert(idx, state), ..self }
    }

    /// The state of one request.
    pub open spec fn state(self, idx: usize) -> StateModel {
        state_of(self.per_request, idx)
    }
}

impl App {
    /// The application with these requests.
    pub fn new(requests: Vec<HttpRequest>) -> (r: App)
        ensures
            r@ == initial_model(request_models(requests@)),
    {
        let current_request_index: Option<usize> = if requests.len() == 0 {
            None
        } else {
            Some(0)
        };
        let r = App {
            current_screen: CurrentScreen::Main,
            requests,
            current_request_index,
            pending_response: None,
            pending_request_index: None,
            event_receiver: None,
            per_request: HashMap::new(),
            editing_field: None,
            focused_field: FocusableField::Url,
            input_buffer: "".to_owned(),
            cursor_pos: 0,
            header_key_buffer: "".to_owned(),
            header_key_cursor: 0,
            header_value_buffer: "".to_owned(),
            header_value_cursor: 0,
            header_field: HeaderField::Key,
            editing_existing_header: None,
            selected_header_index: 0,
            header_autocomplete: None,
            response_view_mode: ResponseViewMode::Text,
            headers_scroll: 0,
            body_scroll: 0,
            events_scroll: 0,
            response_scroll: 0,
            url_h_scroll: 0,
            filter_h_scroll: 0,
            last_save_status: None,
            keymap: Keymap::default(),
            streamed_jq_available: false,
            streamed_jq_output_tx: None,
            streamed_jq_output_rx: None,
            streamed_jq_running: false,
            jq_queue: Vec::new(),
            jq_phase: JqPhase::Idle,
        };
        proof {
            assert(r@.per_request =~= Map::<usize, StateModel>::empty());
            assert(r@.jq_queue =~= Seq::<JqWorkModel>::empty());
        }
        r
    }

    /// The selected request.
    pub fn get_current_request(&self) -> (r: Option<&HttpRequest>)
        ensures
            r is Some == self@.has_current(),
            r matches Some(request) ==> request@ == self@.current() && *request
                == self.requests@[self.current_request_index->0 as int],
    {
        match self.current_request_index {
            Some(idx) => if idx < self.requests.len() {
                Some(&self.requests[idx])
            } else {
                None
            },
            None => None,
        }
    }

    /// The selected request, to be changed in place.
    pub fn get_current_request_mut(&mut self) -> (r: Option<&mut HttpRequest>)
        ensures
            r is Some == old(self)@.has_current(),
            r is None ==> *final(self) == *old(self),
            r matches Some(request) ==> *request == old(self).requests@[old(
                self,
            ).current_request_index->0 as int] && final(self)@ == old(self)@.with_current(
                final(request)@,
            ),
    {
        match self.current_request_index {
            Some(idx) => if idx < self.requests.len() {
                proof {
                    assert forall|q: HttpRequest| request_models(
                        #[trigger] self.requests@.update(idx as int, q),
                    ) == request_models(self.requests@).update(idx as int, q@) by {
                        assert(request_models(self.requests@.update(idx as int, q))
                            =~= request_models(self.requests@).update(idx as int, q@));
                    }
                }
                Some(&mut self.requests[idx])
            } else {
                None
            },
            None => None,
        }
    }
}

// ── Requests ──────────────────────────────────────────────────────────────────

/// The states of the requests after one of them was removed: those above it
/// move down by one.
pub open spec fn moved_down(states: Map<usize, StateModel>, idx: usize) -> Map<
    usize,
    StateModel,
> {
    Map::new(
        |k: usize|
            if k < idx {
                states.contains_key(k)
            } else {
                k < usize::MAX && states.contains_key((k + 1) as usize)
            },
        |k: usize|
            if k < idx {
                states[k]
            } else {
                states[(k + 1) as usize]
            },
    )
}

impl AppModel {
    /// The application without its selected request.
    pub open spec fn without_current(self) -> AppModel {
        if !self.has_current() {
            self
        } else {
            let idx = self.current_request_index->0;
            let left = self.requests.remove(idx as int);
            let dropped = self.pending_request_index == Some(idx);
            AppModel {
                requests: left,
                per_request: moved_down(self.per_request, idx),
                pending_response: self.pending_response && !dropped,
                event_receiver: self.event_receiver && !dropped,
                pending_request_index: match self.pending_request_index {
                    Some(p) => if p == idx {
                        None
                    } else if p > idx {
                        Some((p - 1) as usize)
                    } else {
                        Some(p)
                    },
                    None => None,
                },
                current_request_index: if left.len() == 0 {
                    None
                } else if idx >= left.len() {
                    Some((left.len() - 1) as usize)
                } else {
                    Some(idx)
                },
                ..self
            }
        }
    }

    /// The filter of the selected request.
    pub open spec fn jq_filter(self) -> Seq<char> {
        if self.has_current() {
            self.current().jq_filter
        } else {
            "."@
        }
    }

    /// The prefix pattern of the selected request.
    pub open spec fn stream_prefix_regex(self) -> Seq<char> {
        if self.has_current() {
            self.current().stream_prefix_regex
        } else {
            prefix_pattern()
        }
    }

    /// The suffix pattern of the selected request.
    pub open spec fn stream_suffix_regex(self) -> Seq<char> {
        if self.has_current() {
            self.current().stream_suffix_regex
        } else {
            suffix_pattern()
        }
    }

    /// The application without anything that has to do with the jq process.
    pub open spec fn without_jq(self) -> AppModel {
        AppModel {
            streamed_jq_running: false,
            streamed_jq_output_tx: false,
            streamed_jq_output_rx: false,
            ..self
        }
    }

    /// The application once the selected request is on its way.
    pub open spec fn sending_current(self) -> AppModel {
        if self.has_current() {
            let idx = self.current_request_index->0;
            AppModel {
                pending_response: true,
                pending_request_index: Some(idx),
                event_receiver: true,
                per_request: self.per_request.insert(idx, empty_state()),
                streamed_jq_available: false,
                ..self.without_jq()
            }
        } else {
            self
        }
    }

    /// The last end of the selected request.
    pub open spec fn last_response(self) -> Option<Result<ResponseModel, ErrorModel>> {
        match self.current_request_index {
            Some(idx) => self.state(idx).last_response,
            None => None,
        }
    }

    /// The body of the selected request's response, as far as it came.
    pub open spec fn streamed_body(self) -> Seq<char> {
        match self.current_request_index {
            Some(idx) => self.state(idx).streamed_body,
            None => ""@,
        }
    }

    /// The events of the selected request.
    pub open spec fn request_events(self) -> Seq<Seq<char>> {
        match self.current_request_index {
            Some(idx) => self.state(idx).events,
            None => Seq::empty(),
        }
    }

    /// What jq made of the selected request's streamed lines.
    pub open spec fn streamed_jq_output(self) -> Seq<Seq<char>> {
        match self.current_request_index {
            Some(idx) => self.state(idx).jq_output,
            None => Seq::empty(),
        }
    }

    /// Whether the selected request was answered with JSON.
    pub open spec fn response_is_json(self) -> bool {
        self.last_response() matches Some(Ok(response)) && json_valid(response.body)
    }

    /// The view mode after the present one.  Json is only entered where the
    /// response is JSON, and StreamedJson only where a streamed line was.
    pub open spec fn next_view_mode(self) -> ResponseViewMode {
        match self.response_view_mode {
            ResponseViewMode::Text => if self.response_is_json() {
                ResponseViewMode::Json
            } else if self.streamed_jq_available {
                ResponseViewMode::StreamedJson
            } else {
                ResponseViewMode::Text
            },
            ResponseViewMode::Json => if self.streamed_jq_available {
                ResponseViewMode::StreamedJson
            } else {
                ResponseViewMode::Text
            },
            ResponseViewMode::StreamedJson => ResponseViewMode::Text,
        }
    }
}

/// Whether serde_json reads a text as a JSON value.
pub uninterp spec fn json_valid(s: Seq<char>) -> bool;

/// `serde_json::from_str` into a JSON value: whether the text is one.
#[verifier::external_body]
pub(crate) fn is_json(s: &str) -> (r: bool)
    ensures
        r == json_valid(s@),
{
    serde_json::from_str::<serde_json::Value>(s).is_ok()
}

/// The keys of a map, each once.
fn keys_of(states: &HashMap<usize, PerRequestState>) -> (r: Vec<usize>)
    ensures
        r@.no_duplicates(),
        forall|k: usize| r@.contains(k) <==> states@.contains_key(k),
{
    let mut r: Vec<usize> = Vec::new();
    for k in it: states.keys()
        invariant
            r@ =~= it.seq().unref().take(it.index() as int),
    {
        r.push(*k);
    }
    proof {
        let all = vstd::std_specs::hash::spec_keys_iter(states).remaining().unref();
        assert(r@ =~= all);
        assert forall|k: usize| r@.contains(k) <==> states@.contains_key(k) by {
            assert(all.to_set().contains(k) <==> states@.dom().contains(k));
        }
    }
    r
}


/// Shortens the causes of an error in the end of a request, as copying does.
pub open spec fn shortened_result(r: Option<Result<ResponseModel, ErrorModel>>) -> Option<
    Result<ResponseModel, ErrorModel>,
> {
    match r {
        Some(Err(e)) => Some(Err(e.shortened())),
        _ => r,
    }
}

/// Copies some strings.
pub(crate) fn copy_texts(v: &Vec<String>) -> (r: Vec<String>)
    ensures
        views(r@) == views(v@),
{
    let mut r: Vec<String> = Vec::new();
    let mut i: usize = 0;
    while i < v.len()
        invariant
            i <= v@.len(),
            views(r@) =~= views(v@).take(i as int),
        decreases v@.len() - i,
    {
        let ghost done = views(r@);
        let copy = v[i].clone();
        let ghost text = copy@;
        r.push(copy);
        proof {
            assert(views(r@) =~= done.push(text));
        }
        i = i + 1;
    }
    proof {
        assert(views(v@).take(i as int) =~= views(v@));
    }
    r
}

impl Clone for PerRequestState {
    fn clone(&self) -> (r: PerRequestState)
        ensures
            r@ == (StateModel { last_response: shortened_result(self@.last_response), ..self@ }),
    {
        PerRequestState {
            events: copy_texts(&self.events),
            streamed_body: self.streamed_body.clone(),
            last_response: match &self.last_response {
                Some(Ok(response)) => Some(Ok(response.clone())),
                Some(Err(e)) => Some(Err(e.clone())),
                None => None,
            },
            jq_output: copy_texts(&self.jq_output),
            line_buffer: self.line_buffer.clone(),
            stripped_lines: copy_texts(&self.stripped_lines),
            last_fed: self.last_fed.clone(),
        }
    }
}

/// Moves the states above a removed request down by one.
fn move_states_down(states: HashMap<usize, PerRequestState>, idx: usize) -> (r: HashMap<
    usize,
    PerRequestState,
>)
    ensures
        state_models(r@) == moved_down(state_models(states@), idx),
{
    let keys = keys_of(&states);
    let ghost all = states@;
    let mut left = states;
    let mut r: HashMap<usize, PerRequestState> = HashMap::new();
    let mut i: usize = 0;
    while i < keys.len()
        invariant
            i <= keys@.len(),
            keys@.no_duplicates(),
            forall|k: usize| keys@.contains(k) <==> all.contains_key(k),
            forall|k: usize| #[trigger]
                left@.contains_key(k) <==> all.contains_key(k) && !keys@.take(i as int).contains(
                    k,
                ),
            forall|k: usize| #[trigger] left@.contains_key(k) ==> left@[k] == all[k],
            forall|k: usize| #[trigger]
                r@.contains_key(k) <==> if k < idx {
                    keys@.take(i as int).contains(k)
                } else {
                    k < usize::MAX && keys@.take(i as int).contains((k + 1) as usize)
                },
            forall|k: usize| #[trigger]
                r@.contains_key(k) ==> r@[k] == (if k < idx {
                    all[k]
                } else {
                    all[(k + 1) as usize]
                }),
        decreases keys@.len() - i,
    {
        let k = keys[i];
        let ghost done = keys@.take(i as int);
        proof {
            assert(keys@.take(i + 1) =~= done.push(k));
            assert(!done.contains(k)) by {
                if done.contains(k) {
                    let j = choose|j: int| 0 <= j < done.len() && done[j] == k;
                    assert(keys@[j] == keys@[i as int]);
                }
            }
            assert(keys@.contains(keys@[i as int]));
            assert(left@.contains_key(k));
            assert forall|m: usize| done.push(k).contains(m) <==> done.contains(m) || m == k by {
                if done.contains(m) {
                    let j = choose|j: int| 0 <= j < done.len() && done[j] == m;
                    assert(done.push(k)[j] == m);
                }
                assert(done.push(k)[done.len() as int] == k);
                if done.push(k).contains(m) {
                    let j = choose|j: int| 0 <= j < done.len() + 1 && done.push(k)[j] == m;
                    if j < done.len() {
                        assert(done[j] == m);
                    }
                }
            }
        }
        if let Some(state) = left.remove(&k) {
            if k < idx {
                r.insert(k, state);
            } else if k > idx {
                r.insert(k - 1, state);
            }
        }
        i = i + 1;
    }
    proof {
        assert(keys@.take(i as int) =~= keys@);
        let got = state_models(r@);
        let want = moved_down(state_models(all), idx);
        assert forall|k: usize| got.contains_key(k) <==> want.contains_key(k) by {
            assert(r@.contains_key(k) <==> got.contains_key(k));
        }
        assert forall|k: usize| got.contains_key(k) implies got[k] == want[k] by {
            assert(r@.contains_key(k));
        }
        assert(got =~= want);
    }
    r
}

impl App {
    // ── Per-request state ─────────────────────────────────────────────────────

    /// Takes the state of a request out.
    pub(crate) fn take_state(&mut self, idx: usize) -> (r: PerRequestState)
        ensures
            r@ == old(self)@.state(idx),
            final(self)@ == (AppModel {
                per_request: old(self)@.per_request.remove(idx),
                ..old(self)@
            }),
    {
        let ghost before = self.per_request@;
        let taken = self.per_request.remove(&idx);
        proof {
            assert(state_models(self.per_request@) =~= state_models(before).remove(idx));
        }
        match taken {
            Some(state) => state,
            None => PerRequestState::new(),
        }
    }

    /// Puts the state of a request in.
    pub(crate) fn put_state(&mut self, idx: usize, state: PerRequestState)
        ensures
            final(self)@ == old(self)@.with_state(idx, state@),
    {
        let ghost before = self.per_request@;
        self.per_request.insert(idx, state);
        proof {
            assert(state_models(self.per_request@) =~= state_models(before).insert(idx, state@));
        }
    }

    /// The state of the selected request, if one was kept.
    fn current_state(&self) -> (r: Option<&PerRequestState>)
        ensures
            r is Some == (self.current_request_index matches Some(idx)
                && self@.per_request.contains_key(idx)),
            r matches Some(state) ==> state@ == self@.state(self.current_request_index->0),
    {
        match self.current_request_index {
            Some(idx) => self.per_request.get(&idx),
            None => None,
        }
    }

    // ── Filters and patterns of the selected request ──────────────────────────

    pub fn current_jq_filter(&self) -> (r: &str)
        ensures
            r@ == self@.jq_filter(),
    {
        match self.get_current_request() {
            Some(request) => request.jq_filter.as_str(),
            None => ".",
        }
    }

    pub fn current_stream_prefix_regex(&self) -> (r: &str)
        ensures
            r@ == self@.stream_prefix_regex(),
    {
        match self.get_current_request() {
            Some(request) => request.stream_prefix_regex.pattern(),
            None => r"^\w+:\s*",
        }
    }

    pub fn current_stream_suffix_regex(&self) -> (r: &str)
        ensures
            r@ == self@.stream_suffix_regex(),
    {
        match self.get_current_request() {
            Some(request) => request.stream_suffix_regex.pattern(),
            None => r"\s*$",
        }
    }

    // ── Requests ──────────────────────────────────────────────────────────────

    /// Appends an empty request and selects it.
    pub fn create_new_request(&mut self)
        ensures
            final(self)@ == (AppModel {
                requests: old(self)@.requests.push(bare_request("GET"@, "https://"@)),
                current_request_index: Some(old(self)@.requests.len() as usize),
                ..old(self)@
            }),
    {
        let request = HttpRequest::new(HttpMethod::GET, "https://");
        let ghost before = self.requests@;
        let ghost said = request@;
        self.requests.push(request);
        proof {
            assert(request_models(self.requests@) =~= request_models(before).push(said));
        }
        self.current_request_index = Some(self.requests.len() - 1);
    }

    /// Removes the state of a request that is gone.
    fn drop_state(&mut self, idx: usize)
        ensures
            final(self)@ == (AppModel {
                per_request: moved_down(old(self)@.per_request, idx),
                ..old(self)@
            }),
            final(self).requests == old(self).requests,
    {
        let mut states: HashMap<usize, PerRequestState> = HashMap::new();
        std::mem::swap(&mut states, &mut self.per_request);
        self.per_request = move_states_down(states, idx);
    }

    /// Forgets what was still to come for a request that is gone.
    fn drop_pending(&mut self, idx: usize)
        ensures
            final(self)@ == (AppModel {
                pending_response: old(self)@.pending_response && old(self)@.pending_request_index
                    != Some(idx),
                event_receiver: old(self)@.event_receiver && old(self)@.pending_request_index
                    != Some(idx),
                pending_request_index: match old(self)@.pending_request_index {
                    Some(p) => if p == idx {
                        None
                    } else if p > idx {
                        Some((p - 1) as usize)
                    } else {
                        Some(p)
                    },
                    None => None,
                },
                ..old(self)@
            }),
            final(self).requests == old(self).requests,
    {
        if let Some(pending) = self.pending_request_index {
            if pending == idx {
                self.pending_response = None;
                self.pending_request_index = None;
                self.event_receiver = None;
            } else if pending > idx {
                self.pending_request_index = Some(pending - 1);
            }
        }
    }

    /// Removes the selected request with everything that was kept for it.
    pub fn delete_current_request(&mut self)
        ensures
            final(self)@ == old(self)@.without_current(),
    {
        if let Some(idx) = self.current_request_index {
            if idx < self.requests.len() {
                let ghost before = self.requests@;
                self.requests.remove(idx);
                proof {
                    assert(request_models(self.requests@) =~= request_models(before).remove(
                        idx as int,
                    ));
                }
                self.drop_state(idx);
                self.drop_pending(idx);
                if self.requests.len() == 0 {
                    self.current_request_index = None;
                } else if idx >= self.requests.len() {
                    self.current_request_index = Some(self.requests.len() - 1);
                }
            }
        }
    }

    /// Selects the request below, if there is one.
    pub fn select_next_request(&mut self)
        ensures
            final(self)@ == (AppModel {
                current_request_index: if old(self)@.requests.len() == 0 {
                    old(self)@.current_request_index
                } else {
                    match old(self)@.current_request_index {
                        Some(idx) => if idx < old(self)@.requests.len() - 1 {
                            Some((idx + 1) as usize)
                        } else {
                            Some(idx)
                        },
                        None => Some(0),
                    }
                },
                ..old(self)@
            }),
    {
        if self.requests.len() == 0 {
            return;
        }
        self.current_request_index = Some(
            match self.current_request_index {
                Some(idx) => if idx < self.requests.len() - 1 {
                    idx + 1
                } else {
                    idx
                },
                None => 0,
            },
        );
    }

    /// Selects the request above, if there is one.
    pub fn select_previous_request(&mut self)
        ensures
            final(self)@ == (AppModel {
                current_request_index: if old(self)@.requests.len() == 0 {
                    old(self)@.current_request_index
                } else {
                    match old(self)@.current_request_index {
                        Some(idx) => if idx > 0 {
                            Some((idx - 1) as usize)
                        } else {
                            Some(idx)
                        },
                        None => Some(0),
                    }
                },
                ..old(self)@
            }),
    {
        if self.requests.len() == 0 {
            return;
        }
        self.current_request_index = Some(
            match self.current_request_index {
                Some(idx) => if idx > 0 {
                    idx - 1
                } else {
                    idx
                },
                None => 0,
            },
        );
    }

    /// A copy of the selected request, to be sent.
    pub fn request_to_send(&self) -> (r: Option<HttpRequest>)
        ensures
            r is Some == self@.has_current(),
            r matches Some(request) ==> request@ == self@.current(),
    {
        match self.get_current_request() {
            Some(request) => Some(request.clone()),
            None => None,
        }
    }

    /// Notes that the selected request is on its way, with the channels on
    /// which its end and its events come.
    pub fn send_current_request(
        &mut self,
        result_rx: oneshot::Receiver<Result<HttpResponse, HttpError>>,
        event_rx: mpsc::UnboundedReceiver<RequestEvent>,
    )
        ensures
            final(self)@ == old(self)@.sending_current(),
            old(self)@.has_current() ==> final(self).pending_response == Some(result_rx)
                && final(self).event_receiver == Some(event_rx),
    {
        if let Some(idx) = self.current_request_index {
            if idx < self.requests.len() {
                self.kill_streamed_jq();
                self.put_state(idx, PerRequestState::new());
                self.pending_response = Some(result_rx);
                self.pending_request_index = Some(idx);
                self.event_receiver = Some(event_rx);
                self.streamed_jq_available = false;
            }
        }
    }

    /// Lets the jq process go, and what it still had to say.
    pub fn kill_streamed_jq(&mut self)
        ensures
            final(self)@ == old(self)@.without_jq(),
            final(self).requests == old(self).requests,
            final(self).per_request == old(self).per_request,
    {
        self.streamed_jq_running = false;
        self.streamed_jq_output_tx = None;
        self.streamed_jq_output_rx = None;
    }

    /// Steps to the next method of the selected request.
    pub fn toggle_method(&mut self)
        ensures
            final(self)@ == old(self)@.with_current(
                RequestModel {
                    method: crate::http_client::next_method(old(self)@.current().method),
                    ..old(self)@.current()
                },
            ),
    {
        if let Some(request) = self.get_current_request_mut() {
            request.method = request.method.next();
        }
    }

    // ── What is known of the selected request ─────────────────────────────────

    pub fn current_request_is_pending(&self) -> (r: bool)
        ensures
            r == (self@.pending_request_index == self@.current_request_index
                && self@.pending_response),
    {
        let same_request = match (self.pending_request_index, self.current_request_index) {
            (Some(a), Some(b)) => a == b,
            (None, None) => true,
            _ => false,
        };
        same_request && self.pending_response.is_some()
    }

    pub fn current_last_response(&self) -> (r: Option<&Result<HttpResponse, HttpError>>)
        ensures
            r is Some == self@.last_response() is Some,
            r matches Some(result) ==> self@.last_response() == Some(result_model(*result)),
    {
        match self.current_state() {
            Some(state) => match &state.last_response {
                Some(result) => Some(result),
                None => None,
            },
            None => None,
        }
    }

    pub fn current_streamed_body(&self) -> (r: &str)
        ensures
            r@ == self@.streamed_body(),
    {
        match self.current_state() {
            Some(state) => state.streamed_body.as_str(),
            None => "",
        }
    }

    pub fn current_request_events(&self) -> (r: &[String])
        ensures
            views(r@) == self@.request_events(),
    {
        match self.current_state() {
            Some(state) => state.events.as_slice(),
            None => {
                proof {
                    assert(views(Seq::<String>::empty()) =~= Seq::<Seq<char>>::empty());
                }
                &[]
            },
        }
    }

    pub fn is_response_json(&self) -> (r: bool)
        ensures
            r == self@.response_is_json(),
    {
        match self.current_last_response() {
            Some(Ok(response)) => is_json(response.body.as_str()),
            _ => false,
        }
    }

    /// What jq made of the streamed lines, one under the other.
    pub fn current_streamed_jq_output(&self) -> (r: String)
        ensures
            r@ == join_texts(self@.streamed_jq_output(), "\n"@),
    {
        match self.current_state() {
            Some(state) => join(&state.jq_output, "\n"),
            None => {
                proof {
                    reveal_strlit("");
                    assert(join_texts(Seq::empty(), "\n"@) =~= ""@);
                }
                "".to_owned()
            },
        }
    }

    /// Steps to the next view mode that shows something.
    pub fn cycle_response_view_mode(&mut self)
        ensures
            final(self)@ == (AppModel {
                response_view_mode: old(self)@.next_view_mode(),
                ..old(self)@
            }),
    {
        self.response_view_mode = match self.response_view_mode {
            ResponseViewMode::Text => if self.is_response_json() {
                ResponseViewMode::Json
            } else if self.streamed_jq_available {
                ResponseViewMode::StreamedJson
            } else {
                ResponseViewMode::Text
            },
            ResponseViewMode::Json => if self.streamed_jq_available {
                ResponseViewMode::StreamedJson
            } else {
                ResponseViewMode::Text
            },
            ResponseViewMode::StreamedJson => ResponseViewMode::Text,
        };
    }
}

// ── Focus, headers and scrolling ──────────────────────────────────────────────

/// The field after this one.
pub open spec fn field_after(field: FocusableField) -> FocusableField {
    match field {
        FocusableField::Url => FocusableField::Headers,
        FocusableField::Headers => FocusableField::Body,
        FocusableField::Body => FocusableField::Response,
        FocusableField::Response => FocusableField::RequestEvents,
        FocusableField::RequestEvents => FocusableField::Url,
    }
}

/// The field before this one.
pub open spec fn field_before(field: FocusableField) -> FocusableField {
    match field {
        FocusableField::Url => FocusableField::RequestEvents,
        FocusableField::Headers => FocusableField::Url,
        FocusableField::Body => FocusableField::Headers,
        FocusableField::Response => FocusableField::Body,
        FocusableField::RequestEvents => FocusableField::Response,
    }
}

/// Moving the focus there and back leaves it where it was, and five steps lead
/// once around.
pub proof fn lemma_fields_go_around(field: FocusableField)
    ensures
        field_before(field_after(field)) == field,
        field_after(field_before(field)) == field,
        field_after(field_after(field_after(field_after(field_after(field))))) == field,
{
}

/// A scroll value moved up.
pub open spec fn scrolled_up(scroll: u16, by: u16) -> u16 {
    if scroll >= by {
        (scroll - by) as u16
    } else {
        0
    }
}

/// A scroll value moved down.
pub open spec fn scrolled_down(scroll: u16, by: u16) -> u16 {
    if scroll + by <= u16::MAX {
        (scroll + by) as u16
    } else {
        u16::MAX
    }
}

impl AppModel {
    /// The application while the focused field is edited.
    pub open spec fn editing_focused(self) -> AppModel {
        match self.focused_field {
            FocusableField::Url => {
                let text = if self.has_current() {
                    self.current().url
                } else {
                    self.input_buffer
                };
                AppModel {
                    input_buffer: text,
                    cursor_pos: byte_len(text) as usize,
                    editing_field: Some(EditingField::Url),
                    ..self
                }
            },
            FocusableField::Headers => AppModel {
                header_key_buffer: ""@,
                header_key_cursor: 0,
                header_value_buffer: ""@,
                header_value_cursor: 0,
                header_field: HeaderField::Key,
                editing_existing_header: None,
                header_autocomplete: Some(AutocompleteState { selected: 0 }),
                editing_field: Some(EditingField::Headers),
                ..self
            },
            FocusableField::Body => {
                let text = if self.has_current() {
                    match self.current().body {
                        Some(body) => body,
                        None => ""@,
                    }
                } else {
                    self.input_buffer
                };
                AppModel {
                    input_buffer: text,
                    cursor_pos: byte_len(text) as usize,
                    editing_field: Some(EditingField::Body),
                    ..self
                }
            },
            FocusableField::RequestEvents => self,
            FocusableField::Response => self,
        }
    }

    /// Whether a header of the selected request is selected.
    pub open spec fn has_selected_header(self) -> bool {
        self.has_current() && self.selected_header_index < self.current().headers.len()
    }

    /// The selected header.
    pub open spec fn selected_header(self) -> (Seq<char>, Seq<char>) {
        self.current().headers[self.selected_header_index as int]
    }

    /// The application while the selected header is edited, if there is one.
    pub open spec fn editing_selected_header(self) -> AppModel {
        if self.has_selected_header() {
            let header = self.selected_header();
            AppModel {
                editing_existing_header: Some(header.0),
                header_key_buffer: header.0,
                header_key_cursor: byte_len(header.0) as usize,
                header_value_buffer: header.1,
                header_value_cursor: byte_len(header.1) as usize,
                editing_field: Some(EditingField::Headers),
                header_field: HeaderField::Key,
                header_autocomplete: Some(AutocompleteState { selected: 0 }),
                ..self
            }
        } else {
            self
        }
    }

    /// The application without the selected header, if there is one.
    pub open spec fn without_selected_header(self) -> AppModel {
        if self.has_selected_header() {
            let left = without_field(self.current().headers, self.selected_header().0);
            let sel = self.selected_header_index;
            AppModel {
                selected_header_index: if sel >= left.len() && sel > 0 {
                    (sel - 1) as usize
                } else {
                    sel
                },
                ..self.with_current(RequestModel { headers: left, ..self.current() })
            }
        } else {
            self
        }
    }

    /// The application with the focused field scrolled to where `f` leads.
    pub open spec fn with_scroll(self, f: spec_fn(u16) -> u16) -> AppModel {
        match self.focused_field {
            FocusableField::Headers => AppModel { headers_scroll: f(self.headers_scroll), ..self },
            FocusableField::Body => AppModel { body_scroll: f(self.body_scroll), ..self },
            FocusableField::RequestEvents => AppModel {
                events_scroll: f(self.events_scroll),
                ..self
            },
            FocusableField::Response => AppModel {
                response_scroll: f(self.response_scroll),
                ..self
            },
            FocusableField::Url => self,
        }
    }

    /// What the meaning of a key depends on.
    pub open spec fn key_context(self) -> KeyContext {
        KeyContext {
            screen: self.current_screen,
            editing: self.editing_field,
            focus: self.focused_field,
        }
    }

    /// The application with the request screen as it is first shown.
    pub open spec fn with_fresh_request_screen(self) -> AppModel {
        AppModel {
            editing_field: None,
            input_buffer: ""@,
            cursor_pos: 0,
            header_key_buffer: ""@,
            header_key_cursor: 0,
            header_value_buffer: ""@,
            header_value_cursor: 0,
            header_field: HeaderField::Key,
            editing_existing_header: None,
            focused_field: FocusableField::Url,
            headers_scroll: 0,
            body_scroll: 0,
            events_scroll: 0,
            response_scroll: 0,
            url_h_scroll: 0,
            filter_h_scroll: 0,
            header_autocomplete: None,
            ..self
        }
    }

    /// The header names that are offered.
    pub open spec fn suggestions(self) -> Seq<Seq<char>> {
        if self.header_field == HeaderField::Key {
            suggestions_for(standard_headers(), lowercase(self.header_key_buffer))
        } else {
            Seq::empty()
        }
    }

    /// The application with the selected one of some names taken over.
    pub open spec fn with_suggestion(self, names: Seq<Seq<char>>) -> AppModel {
        match self.header_autocomplete {
            Some(ac) => if ac.selected < names.len() {
                AppModel {
                    header_key_buffer: names[ac.selected as int],
                    header_field: HeaderField::Value,
                    header_autocomplete: None,
                    ..self
                }
            } else {
                self
            },
            None => self,
        }
    }

    /// The application with the suggestion below selected.
    pub open spec fn with_next_suggestion(self, max: int) -> AppModel {
        match self.header_autocomplete {
            Some(ac) => if max > 0 && ac.selected < max - 1 {
                AppModel {
                    header_autocomplete: Some(
                        AutocompleteState { selected: (ac.selected + 1) as usize },
                    ),
                    ..self
                }
            } else {
                self
            },
            None => self,
        }
    }

    /// The application with the suggestion above selected.
    pub open spec fn with_previous_suggestion(self) -> AppModel {
        match self.header_autocomplete {
            Some(ac) => if ac.selected > 0 {
                AppModel {
                    header_autocomplete: Some(
                        AutocompleteState { selected: (ac.selected - 1) as usize },
                    ),
                    ..self
                }
            } else {
                self
            },
            None => self,
        }
    }

    /// The application with the header below selected; below the last one is
    /// the first.
    pub open spec fn with_next_header(self) -> AppModel {
        if self.has_current() && self.current().headers.len() > 0 {
            AppModel {
                selected_header_index: ((self.selected_header_index + 1)
                    % self.current().headers.len() as int) as usize,
                ..self
            }
        } else {
            self
        }
    }

    /// The application with the header above selected; above the first one is
    /// the last.
    pub open spec fn with_previous_header(self) -> AppModel {
        if self.has_current() && self.current().headers.len() > 0 {
            AppModel {
                selected_header_index: if self.selected_header_index > 0 {
                    (self.selected_header_index - 1) as usize
                } else {
                    (self.current().headers.len() - 1) as usize
                },
                ..self
            }
        } else {
            self
        }
    }
}

impl App {
    pub fn focus_next_field(&mut self)
        ensures
            final(self)@ == (AppModel {
                focused_field: field_after(old(self)@.focused_field),
                ..old(self)@
            }),
    {
        self.focused_field = match self.focused_field {
            FocusableField::Url => FocusableField::Headers,
            FocusableField::Headers => FocusableField::Body,
            FocusableField::Body => FocusableField::Response,
            FocusableField::Response => FocusableField::RequestEvents,
            FocusableField::RequestEvents => FocusableField::Url,
        };
    }

    pub fn focus_previous_field(&mut self)
        ensures
            final(self)@ == (AppModel {
                focused_field: field_before(old(self)@.focused_field),
                ..old(self)@
            }),
    {
        self.focused_field = match self.focused_field {
            FocusableField::Url => FocusableField::RequestEvents,
            FocusableField::Headers => FocusableField::Url,
            FocusableField::Body => FocusableField::Headers,
            FocusableField::Response => FocusableField::Body,
            FocusableField::RequestEvents => FocusableField::Response,
        };
    }

    /// Starts to edit the focused field, if it can be edited.
    pub fn edit_focused_field(&mut self)
        ensures
            final(self)@ == old(self)@.editing_focused(),
    {
        match self.focused_field {
            FocusableField::Url => {
                let text = match self.get_current_request() {
                    Some(request) => Some(request.url.to_string()),
                    None => None,
                };
                if let Some(url) = text {
                    self.input_buffer = url;
                }
                self.cursor_pos = length(self.input_buffer.as_str());
                self.editing_field = Some(EditingField::Url);
            },
            FocusableField::Headers => {
                self.header_key_buffer = "".to_owned();
                self.header_key_cursor = 0;
                self.header_value_buffer = "".to_owned();
                self.header_value_cursor = 0;
                self.header_field = HeaderField::Key;
                self.editing_existing_header = None;
                self.header_autocomplete = Some(AutocompleteState { selected: 0 });
                self.editing_field = Some(EditingField::Headers);
            },
            FocusableField::Body => {
                let text = match self.get_current_request() {
                    Some(request) => Some(
                        match &request.body {
                            Some(body) => body.clone(),
                            None => "".to_owned(),
                        },
                    ),
                    None => None,
                };
                if let Some(body) = text {
                    self.input_buffer = body;
                }
                self.cursor_pos = length(self.input_buffer.as_str());
                self.editing_field = Some(EditingField::Body);
            },
            FocusableField::RequestEvents => {},
            FocusableField::Response => {},
        }
    }

    /// Selects the header below; below the last one is the first.
    pub fn select_next_header(&mut self)
        requires
            old(self)@.has_current() && old(self)@.current().headers.len() > 0 ==> old(
                self,
            ).selected_header_index < usize::MAX,
        ensures
            final(self)@ == old(self)@.with_next_header(),
    {
        if let Some(request) = self.get_current_request() {
            let header_count: usize = request.headers.len();
            if header_count > 0 {
                self.selected_header_index = (self.selected_header_index + 1) % header_count;
            }
        }
    }

    /// Selects the header above; above the first one is the last.
    pub fn select_previous_header(&mut self)
        ensures
            final(self)@ == old(self)@.with_previous_header(),
    {
        if let Some(request) = self.get_current_request() {
            let header_count: usize = request.headers.len();
            if header_count > 0 {
                self.selected_header_index = if self.selected_header_index > 0 {
                    self.selected_header_index - 1
                } else {
                    header_count - 1
                };
            }
        }
    }

    /// Starts to edit the selected header, if there is one.
    pub fn edit_selected_header(&mut self)
        ensures
            final(self)@ == old(self)@.editing_selected_header(),
    {
        let header = match self.get_current_request() {
            Some(request) => if self.selected_header_index < request.headers.len() {
                Some(
                    (
                        request.headers.name_at(self.selected_header_index).to_string(),
                        request.headers.value_at(self.selected_header_index).to_string(),
                    ),
                )
            } else {
                None
            },
            None => None,
        };
        if let Some((key, value)) = header {
            self.editing_existing_header = Some(key.clone());
            self.header_key_cursor = length(key.as_str());
            self.header_key_buffer = key;
            self.header_value_cursor = length(value.as_str());
            self.header_value_buffer = value;
            self.editing_field = Some(EditingField::Headers);
            self.header_field = HeaderField::Key;
            self.header_autocomplete = Some(AutocompleteState { selected: 0 });
        }
    }

    /// Removes the selected header, if there is one.
    pub fn delete_selected_header(&mut self)
        ensures
            final(self)@ == old(self)@.without_selected_header(),
    {
        let selected: usize = self.selected_header_index;
        let key = match self.get_current_request() {
            Some(request) => if selected < request.headers.len() {
                Some(request.headers.name_at(selected).to_string())
            } else {
                None
            },
            None => None,
        };
        if let Some(name) = key {
            let mut left: usize = 0;
            if let Some(request) = self.get_current_request_mut() {
                request.remove_header(name.as_str());
                left = request.headers.len();
            }
            if selected >= left && selected > 0 {
                self.selected_header_index = selected - 1;
            }
        }
    }

    /// Scrolls the focused field up.
    pub fn scroll_up(&mut self, by: u16)
        ensures
            final(self)@ == old(self)@.with_scroll(|scroll: u16| scrolled_up(scroll, by)),
    {
        match self.focused_field {
            FocusableField::Headers => {
                self.headers_scroll = self.headers_scroll.saturating_sub(by);
            },
            FocusableField::Body => {
                self.body_scroll = self.body_scroll.saturating_sub(by);
            },
            FocusableField::RequestEvents => {
                self.events_scroll = self.events_scroll.saturating_sub(by);
            },
            FocusableField::Response => {
                self.response_scroll = self.response_scroll.saturating_sub(by);
            },
            FocusableField::Url => {},
        }
    }

    /// Scrolls the focused field down.
    pub fn scroll_down(&mut self, by: u16)
        ensures
            final(self)@ == old(self)@.with_scroll(|scroll: u16| scrolled_down(scroll, by)),
    {
        match self.focused_field {
            FocusableField::Headers => {
                self.headers_scroll = self.headers_scroll.saturating_add(by);
            },
            FocusableField::Body => {
                self.body_scroll = self.body_scroll.saturating_add(by);
            },
            FocusableField::RequestEvents => {
                self.events_scroll = self.events_scroll.saturating_add(by);
            },
            FocusableField::Response => {
                self.response_scroll = self.response_scroll.saturating_add(by);
            },
            FocusableField::Url => {},
        }
    }

    pub fn key_context(&self) -> (r: KeyContext)
        ensures
            r == self@.key_context(),
    {
        KeyContext {
            screen: self.current_screen,
            editing: self.editing_field,
            focus: self.focused_field,
        }
    }

    /// Makes the request screen as it is first shown.
    pub fn reset_request_screen_state(&mut self)
        ensures
            final(self)@ == old(self)@.with_fresh_request_screen(),
    {
        self.editing_field = None;
        self.input_buffer = "".to_owned();
        self.cursor_pos = 0;
        self.header_key_buffer = "".to_owned();
        self.header_key_cursor = 0;
        self.header_value_buffer = "".to_owned();
        self.header_value_cursor = 0;
        self.header_field = HeaderField::Key;
        self.editing_existing_header = None;
        self.focused_field = FocusableField::Url;
        self.headers_scroll = 0;
        self.body_scroll = 0;
        self.events_scroll = 0;
        self.response_scroll = 0;
        self.url_h_scroll = 0;
        self.filter_h_scroll = 0;
        self.header_autocomplete = None;
    }

    /// The header names that match what was typed, while a name is typed.
    pub fn get_filtered_header_suggestions(&self) -> (r: Vec<&'static str>)
        ensures
            texts(r@) == self@.suggestions(),
    {
        if self.header_field != HeaderField::Key {
            let r: Vec<&'static str> = Vec::new();
            proof {
                assert(texts(r@) =~= Seq::<Seq<char>>::empty());
            }
            return r;
        }
        suggest(self.header_key_buffer.as_str())
    }

    pub fn select_next_autocomplete(&mut self, max: usize)
        ensures
            final(self)@ == old(self)@.with_next_suggestion(max as int),
    {
        if let Some(ac) = self.header_autocomplete {
            if max > 0 && ac.selected < max - 1 {
                self.header_autocomplete = Some(AutocompleteState { selected: ac.selected + 1 });
            }
        }
    }

    pub fn select_previous_autocomplete(&mut self)
        ensures
            final(self)@ == old(self)@.with_previous_suggestion(),
    {
        if let Some(ac) = self.header_autocomplete {
            if ac.selected > 0 {
                self.header_autocomplete = Some(AutocompleteState { selected: ac.selected - 1 });
            }
        }
    }

    /// Takes the selected one of some names over, and goes on to the value.
    pub fn apply_autocomplete_selection(&mut self, suggestions: &[&str])
        ensures
            final(self)@ == old(self)@.with_suggestion(texts(suggestions@)),
    {
        if let Some(ac) = self.header_autocomplete {
            if ac.selected < suggestions.len() {
                self.header_key_buffer = suggestions[ac.selected].to_owned();
                self.header_field = HeaderField::Value;
                self.header_autocomplete = None;
            }
        }
    }

    /// Notes where the requests were saved, or why they were not.
    pub fn save_requests(&mut self, outcome: Result<String, String>)
        ensures
            final(self)@ == (AppModel {
                last_save_status: Some(
                    match outcome {
                        Ok(path) => "Saved to "@ + path@,
                        Err(e) => "Save failed: "@ + e@,
                    },
                ),
                ..old(self)@
            }),
            outcome matches Ok(path) ==> (final(self)@.last_save_status matches Some(status)
                && path@.is_suffix_of(status) && "Saved to "@.is_prefix_of(status)),
            outcome matches Err(e) ==> (final(self)@.last_save_status matches Some(status)
                && e@.is_suffix_of(status) && "Save failed: "@.is_prefix_of(status)),
    {
        let text = match outcome {
            Ok(path) => joined("Saved to ", path.as_str()),
            Err(e) => joined("Save failed: ", e.as_str()),
        };
        self.last_save_status = Some(text);
    }
}

// ── Laws ──────────────────────────────────────────────────────────────────────

/// When a request is removed, what was kept for every other request stays with
/// it.
pub proof fn lemma_states_follow_requests(m: AppModel, j: usize)
    requires
        m.has_current(),
        j < m.requests.len() <= usize::MAX,
        j != m.current_request_index->0,
    ensures
        ({
            let after = m.without_current();
            let k = if j < m.current_request_index->0 {
                j
            } else {
                (j - 1) as usize
            };
            &&& k < after.requests.len()
            &&& after.requests[k as int] == m.requests[j as int]
            &&& after.state(k) == m.state(j)
        }),
{
}

/// A request that is on its way stays on its way while another one is removed.
pub proof fn lemma_pending_follows_request(m: AppModel)
    requires
        m.has_current(),
        m.pending_request_index matches Some(p) && p < m.requests.len() <= usize::MAX && p
            != m.current_request_index->0,
    ensures
        m.without_current().pending_response == m.pending_response,
        m.without_current().event_receiver == m.event_receiver,
        m.without_current().pending_request_index matches Some(p)
            && m.without_current().requests[p as int]
            == m.requests[m.pending_request_index->0 as int],
{
}

/// Stepping through the view modes leads back to text after three steps at
/// most.
pub proof fn lemma_modes_lead_back(m: AppModel)
    ensures
        ({
            let one = AppModel { response_view_mode: m.next_view_mode(), ..m };
            let two = AppModel { response_view_mode: one.next_view_mode(), ..m };
            let three = AppModel { response_view_mode: two.next_view_mode(), ..m };
            ||| m.response_view_mode == ResponseViewMode::Text
            ||| one.response_view_mode == ResponseViewMode::Text
            ||| two.response_view_mode == ResponseViewMode::Text
            ||| three.response_view_mode == ResponseViewMode::Text
        }),
{
}

/// A view mode is only entered where it shows something.
pub proof fn lemma_modes_show_something(m: AppModel)
    ensures
        m.next_view_mode() == ResponseViewMode::Json ==> m.response_is_json(),
        m.next_view_mode() == ResponseViewMode::StreamedJson ==> m.streamed_jq_available,
{
}

/// Stepping through the headers stays among them, and a step up undoes a step
/// down.
pub proof fn lemma_headers_go_around(m: AppModel)
    requires
        m.has_current(),
        m.selected_header_index < m.current().headers.len() <= usize::MAX,
    ensures
        m.with_next_header().selected_header_index < m.current().headers.len(),
        m.with_previous_header().selected_header_index < m.current().headers.len(),
        m.with_next_header().with_previous_header() == m,
        m.with_previous_header().with_next_header() == m,
{
    let n = m.current().headers.len() as int;
    let i = m.selected_header_index as int;
    if i + 1 < n {
        vstd::arithmetic::div_mod::lemma_small_mod((i + 1) as nat, n as nat);
    } else {
        vstd::arithmetic::div_mod::lemma_mod_self_0(n);
    }
    vstd::arithmetic::div_mod::lemma_small_mod(i as nat, n as nat);
    vstd::arithmetic::div_mod::lemma_mod_self_0(n);
}

/// Stepping through suggestions stays among them.
pub proof fn lemma_suggestion_stays_in_list(m: AppModel, max: int)
    requires
        m.header_autocomplete matches Some(ac) && ac.selected < max,
    ensures
        m.with_next_suggestion(max).header_autocomplete matches Some(ac) && ac.selected < max,
        m.with_previous_suggestion().header_autocomplete matches Some(ac) && ac.selected < max,
{
}

/// Scrolling up undoes scrolling down, as far as scroll values go.
pub proof fn lemma_scrolling_leads_back(scroll: u16, by: u16)
    requires
        scroll + by <= u16::MAX,
    ensures
        scrolled_up(scrolled_down(scroll, by), by) == scroll,
{
}

/// After deleting, the headers of the selected request are those before without
/// the one at the selected place, where the names differ but for their case:
/// every other header keeps its value and its order.  No other request changes,
/// and the selection stays where it was or moves up to the last header left.
pub proof fn lemma_deleted_header_is_the_selected_one(m: AppModel)
    requires
        m.has_current(),
        m.selected_header_index < m.current().headers.len(),
        forall|i: int, j: int|
            0 <= i < j < m.current().headers.len() ==> lowercase(
                (#[trigger] m.current().headers[i]).0,
            ) != lowercase((#[trigger] m.current().headers[j]).0),
    ensures
        ({
            let before = m.current().headers;
            let at = m.selected_header_index as int;
            let after = m.without_selected_header();
            let left = after.current().headers;
            &&& left.len() == before.len() - 1
            &&& forall|k: int| 0 <= k < at ==> #[trigger] left[k] == before[k]
            &&& forall|k: int| at <= k < left.len() ==> #[trigger] left[k] == before[k + 1]
            &&& value_of(left, before[at].0) is None
            &&& forall|k: int|
                0 <= k < before.len() && k != at ==> value_of(left, (#[trigger] before[k]).0)
                    == Some(before[k].1)
            &&& after.current() == (RequestModel { headers: left, ..m.current() })
            &&& after.requests.len() == m.requests.len()
            &&& forall|r: int|
                0 <= r < m.requests.len() && r != m.current_request_index->0
                    ==> #[trigger] after.requests[r] == m.requests[r]
            &&& at < left.len() ==> after.selected_header_index == at
            &&& at > 0 && at == left.len() ==> after.selected_header_index == at - 1
            &&& left.len() > 0 ==> after.selected_header_index < left.len()
        }),
        m.without_selected_header() == (AppModel {
            requests: m.without_selected_header().requests,
            selected_header_index: m.without_selected_header().selected_header_index,
            ..m
        }),
{
    let before = m.current().headers;
    let at = m.selected_header_index as int;
    let after = m.without_selected_header();
    let left = after.current().headers;
    lemma_place_ignoring_case(before, before[at].0);
    let place = place_ignoring_case(before, before[at].0);
    assert(place is Some) by {
        if place is None {
            assert(lowercase(before[at].0) != lowercase(before[at].0));
        }
    }
    let i = place->0;
    if i < at {
        assert(lowercase(before[i].0) != lowercase(before[at].0));
    }
    if at < i {
        assert(lowercase(before[at].0) != lowercase(before[at].0));
    }
    assert(i == at);
    assert(left == before.remove(at));
    assert forall|k: int| 0 <= k < before.len() && k != at implies value_of(
        left,
        (#[trigger] before[k]).0,
    ) == Some(before[k].1) by {
        let n: int = if k < at {
            k
        } else {
            k - 1
        };
        assert(left[n] == before[k]);
        lemma_place_of(left, before[k].0);
        match place_of(left, before[k].0) {
            Some(p) => {
                let q: int = if p < at {
                    p
                } else {
                    p + 1
                };
                assert(left[p] == before[q]);
                if q < k {
                    assert(lowercase(before[q].0) != lowercase(before[k].0));
                }
                if k < q {
                    assert(lowercase(before[k].0) != lowercase(before[q].0));
                }
            },
            None => {
                assert(left[n].0 != before[k].0);
            },
        }
    }
    assert(value_of(left, before[at].0) is None) by {
        lemma_place_of(left, before[at].0);
        match place_of(left, before[at].0) {
            Some(p) => {
                let q: int = if p < at {
                    p
                } else {
                    p + 1
                };
                assert(left[p] == before[q]);
                if q < at {
                    assert(lowercase(before[q].0) != lowercase(before[at].0));
                } else {
                    assert(lowercase(before[at].0) != lowercase(before[q].0));
                }
            },
            None => {},
        }
    }
}

/// With no header selected, nothing is deleted and nothing is edited.
pub proof fn lemma_no_header_no_change(m: AppModel)
    requires
        !m.has_current() || m.selected_header_index >= m.current().headers.len(),
    ensures
        m.without_selected_header() == m,
        m.editing_selected_header() == m,
{
}

/// Editing the selected header begins with its name and its value as they are,
/// the cursors behind them, and remembers which header it was.  No request
/// changes.
pub proof fn lemma_selected_header_is_edited(m: AppModel)
    requires
        m.has_current(),
        m.selected_header_index < m.current().headers.len(),
        byte_len(m.current().headers[m.selected_header_index as int].0) <= usize::MAX,
        byte_len(m.current().headers[m.selected_header_index as int].1) <= usize::MAX,
    ensures
        ({
            let after = m.editing_selected_header();
            let header = m.current().headers[m.selected_header_index as int];
            &&& after.editing_field == Some(EditingField::Headers)
            &&& after.header_key_buffer == header.0
            &&& after.header_value_buffer == header.1
            &&& after.header_key_cursor == byte_len(header.0)
            &&& after.header_value_cursor == byte_len(header.1)
            &&& after.editing_existing_header == Some(header.0)
            &&& after.header_field == HeaderField::Key
            &&& after.header_autocomplete is Some
            &&& after.requests == m.requests
            &&& after.per_request == m.per_request
            &&& after.current_request_index == m.current_request_index
            &&& after.input_buffer == m.input_buffer
        }),
{
}

/// Editing the field that has the focus begins with what the selected request
/// has there, the cursor behind it; a new header begins empty.  What cannot be
/// edited is left alone, and no request changes.
pub proof fn lemma_focused_field_is_edited(m: AppModel)
    requires
        m.has_current(),
        byte_len(m.current().url) <= usize::MAX,
        m.current().body matches Some(body) ==> byte_len(body) <= usize::MAX,
    ensures
        ({
            let after = m.editing_focused();
            &&& after.requests == m.requests
            &&& after.per_request == m.per_request
            &&& after.current_request_index == m.current_request_index
            &&& after.focused_field == m.focused_field
            &&& m.focused_field == FocusableField::Url ==> {
                &&& after.editing_field == Some(EditingField::Url)
                &&& after.input_buffer == m.current().url
                &&& after.cursor_pos == byte_len(m.current().url)
            }
            &&& m.focused_field == FocusableField::Body ==> {
                &&& after.editing_field == Some(EditingField::Body)
                &&& m.current().body matches Some(body) ==> after.input_buffer == body
                    && after.cursor_pos == byte_len(body)
                &&& m.current().body is None ==> after.input_buffer.len() == 0 && after.cursor_pos
                    == 0
            }
            &&& m.focused_field == FocusableField::Headers ==> {
                &&& after.editing_field == Some(EditingField::Headers)
                &&& after.header_key_buffer.len() == 0 && after.header_key_cursor == 0
                &&& after.header_value_buffer.len() == 0 && after.header_value_cursor == 0
                &&& after.header_field == HeaderField::Key
                &&& after.editing_existing_header is None
                &&& after.header_autocomplete == Some(AutocompleteState { selected: 0 })
                &&& after.input_buffer == m.input_buffer
            }
            &&& m.focused_field == FocusableField::Response || m.focused_field
                == FocusableField::RequestEvents ==> after == m
        }),
{
    reveal_strlit("");
    crate::text::lemma_encode_concat(""@, ""@);
    assert(""@ + ""@ =~= ""@);
}

/// Sending the selected request puts it on its way with nothing known of it
/// yet: no event, no body, no answer, no line.  Every other request's state and
/// every request as it is written stay as they were, and no jq process is left
/// running.
pub proof fn lemma_sending_starts_afresh(m: AppModel, idx: usize)
    requires
        m.current_request_index == Some(idx),
        idx < m.requests.len(),
    ensures
        ({
            let after = m.sending_current();
            &&& after.pending_request_index == Some(idx)
            &&& after.pending_response
            &&& after.event_receiver
            &&& after.state(idx).events.len() == 0
            &&& after.state(idx).streamed_body.len() == 0
            &&& after.state(idx).last_response is None
            &&& after.state(idx).jq_output.len() == 0
            &&& after.state(idx).line_buffer.len() == 0
            &&& after.state(idx).stripped_lines.len() == 0
            &&& after.state(idx).last_fed.len() == 0
            &&& forall|j: usize| j != idx ==> #[trigger] after.state(j) == m.state(j)
            &&& after.requests == m.requests
            &&& after.current_request_index == m.current_request_index
            &&& !after.streamed_jq_running
            &&& !after.streamed_jq_output_rx
            &&& !after.streamed_jq_output_tx
            &&& !after.streamed_jq_available
            &&& after.last_response() is None
            &&& after.streamed_body().len() == 0
            &&& after.request_events().len() == 0
        }),
{
    reveal_strlit("");
}

/// With no request selected, nothing is sent and nothing is deleted.
pub proof fn lemma_nothing_selected_nothing_done(m: AppModel)
    requires
        !m.has_current(),
    ensures
        m.sending_current() == m,
        m.without_current() == m,
        m.with_next_header() == m,
        m.with_previous_header() == m,
{
}

/// What is read of the selected request is what was last noted of it, whatever
/// was noted of others.
pub proof fn lemma_selected_state_is_read(m: AppModel, idx: usize, noted: StateModel)
    ensures
        m.with_state(idx, noted).state(idx) == noted,
        forall|j: usize| j != idx ==> #[trigger] m.with_state(idx, noted).state(j) == m.state(j),
        m.with_state(idx, noted).requests == m.requests,
        m.current_request_index == Some(idx) ==> {
            let after = m.with_state(idx, noted);
            &&& after.last_response() == noted.last_response
            &&& after.streamed_body() == noted.streamed_body
            &&& after.request_events() == noted.events
            &&& after.streamed_jq_output() == noted.jq_output
        },
        m.current_request_index != Some(idx) ==> {
            let after = m.with_state(idx, noted);
            &&& after.last_response() == m.last_response()
            &&& after.streamed_body() == m.streamed_body()
            &&& after.request_events() == m.request_events()
            &&& after.streamed_jq_output() == m.streamed_jq_output()
        },
        m.current_request_index is None ==> {
            &&& m.last_response() is None
            &&& m.streamed_body().len() == 0
            &&& m.request_events().len() == 0
            &&& m.streamed_jq_output().len() == 0
        },
{
    reveal_strlit("");
}

/// The filter and the patterns in use are those of the selected request.
pub proof fn lemma_selected_filter_is_used(m: AppModel, request: RequestModel)
    requires
        m.has_current(),
    ensures
        m.with_current(request).current() == request,
        m.with_current(request).jq_filter() == request.jq_filter,
        m.with_current(request).stream_prefix_regex() == request.stream_prefix_regex,
        m.with_current(request).stream_suffix_regex() == request.stream_suffix_regex,
        m.with_current(request).requests.len() == m.requests.len(),
        forall|r: int|
            0 <= r < m.requests.len() && r != m.current_request_index->0
                ==> #[trigger] m.with_current(request).requests[r] == m.requests[r],
{
}

/// Deleting the selected request leaves one fewer and keeps the others in their
/// order; the one behind it is selected, the last one where there is none
/// behind, and none where none is left.  A request that was on its way and is
/// deleted is awaited no more.
pub proof fn lemma_deleted_request_is_the_selected_one(m: AppModel, idx: usize)
    requires
        m.current_request_index == Some(idx),
        idx < m.requests.len() <= usize::MAX,
    ensures
        ({
            let after = m.without_current();
            &&& after.requests.len() == m.requests.len() - 1
            &&& forall|k: int| 0 <= k < idx ==> #[trigger] after.requests[k] == m.requests[k]
            &&& forall|k: int|
                idx <= k < after.requests.len() ==> #[trigger] after.requests[k] == m.requests[k
                    + 1]
            &&& m.requests.len() == 1 ==> after.current_request_index is None
            &&& idx + 1 < m.requests.len() ==> after.current_request_index == Some(idx)
            &&& idx > 0 && idx + 1 == m.requests.len() ==> after.current_request_index == Some(
                (idx - 1) as usize,
            )
            &&& m.pending_request_index == Some(idx) ==> {
                &&& after.pending_request_index is None
                &&& !after.pending_response
                &&& !after.event_receiver
            }
            &&& m.pending_request_index is None ==> {
                &&& after.pending_request_index is None
                &&& after.pending_response == m.pending_response
            }
            &&& after.current_screen == m.current_screen
        }),
{
}

/// The next header is the one below, and the first one below the last; the
/// previous one is the one above, and the last one above the first.  Nothing
/// but the selection changes.
pub proof fn lemma_next_header_is_below(m: AppModel)
    requires
        m.has_current(),
        m.selected_header_index < m.current().headers.len() <= usize::MAX,
    ensures
        ({
            let n = m.current().headers.len();
            let at = m.selected_header_index as int;
            &&& at + 1 < n ==> m.with_next_header().selected_header_index == at + 1
            &&& at + 1 == n ==> m.with_next_header().selected_header_index == 0
            &&& at > 0 ==> m.with_previous_header().selected_header_index == at - 1
            &&& at == 0 ==> m.with_previous_header().selected_header_index == n - 1
        }),
        m.with_next_header() == (AppModel {
            selected_header_index: m.with_next_header().selected_header_index,
            ..m
        }),
        m.with_previous_header() == (AppModel {
            selected_header_index: m.with_previous_header().selected_header_index,
            ..m
        }),
{
    let n = m.current().headers.len() as int;
    let at = m.selected_header_index as int;
    if at + 1 < n {
        vstd::arithmetic::div_mod::lemma_small_mod((at + 1) as nat, n as nat);
    } else {
        vstd::arithmetic::div_mod::lemma_mod_self_0(n);
    }
}

/// The focus goes down the fields as they stand on the screen, the answer before
/// the events, and up the other way.
pub proof fn lemma_focus_goes_down(field: FocusableField)
    ensures
        field_after(FocusableField::Url) == FocusableField::Headers,
        field_after(FocusableField::Headers) == FocusableField::Body,
        field_after(FocusableField::Body) == FocusableField::Response,
        field_after(FocusableField::Response) == FocusableField::RequestEvents,
        field_after(field) != field,
        field_before(field) != field,
        field_before(FocusableField::Headers) == FocusableField::Url,
        field_before(FocusableField::RequestEvents) == FocusableField::Response,
{
}

/// Every view mode that has something to show is reached: JSON first, then the
/// streamed lines, and text after them.
pub proof fn lemma_modes_are_reached(m: AppModel)
    ensures
        m.response_view_mode == ResponseViewMode::Text && m.response_is_json() ==> m.next_view_mode()
            == ResponseViewMode::Json,
        m.response_view_mode == ResponseViewMode::Json && m.streamed_jq_available
            ==> m.next_view_mode() == ResponseViewMode::StreamedJson,
        m.response_view_mode == ResponseViewMode::Text && !m.response_is_json()
            && m.streamed_jq_available ==> m.next_view_mode() == ResponseViewMode::StreamedJson,
        m.response_view_mode == ResponseViewMode::StreamedJson ==> m.next_view_mode()
            == ResponseViewMode::Text,
        !m.response_is_json() && !m.streamed_jq_available ==> m.next_view_mode()
            == ResponseViewMode::Text,
        m.response_is_json() <==> (m.last_response() matches Some(Ok(response)) && json_valid(
            response.body,
        )),
{
}

/// The next suggestion is the one below while there is one, the previous one the
/// one above while there is one; at the ends the selection stays.  Nothing else
/// changes.
pub proof fn lemma_next_suggestion_is_below(m: AppModel, at: usize, max: int)
    requires
        m.header_autocomplete == Some(AutocompleteState { selected: at }),
        max <= usize::MAX,
    ensures
        at + 1 < max ==> m.with_next_suggestion(max) == (AppModel {
            header_autocomplete: Some(AutocompleteState { selected: (at + 1) as usize }),
            ..m
        }),
        at + 1 >= max ==> m.with_next_suggestion(max) == m,
        at > 0 ==> m.with_previous_suggestion() == (AppModel {
            header_autocomplete: Some(AutocompleteState { selected: (at - 1) as usize }),
            ..m
        }),
        at == 0 ==> m.with_previous_suggestion() == m,
{
}

/// Taking a suggestion writes the selected name as the header's name and goes on
/// to the value, with no more suggestions.  The value and every request stay.
pub proof fn lemma_selected_suggestion_is_taken(m: AppModel, names: Seq<Seq<char>>, at: usize)
    requires
        m.header_autocomplete == Some(AutocompleteState { selected: at }),
    ensures
        at < names.len() ==> {
            let after = m.with_suggestion(names);
            &&& after.header_key_buffer == names[at as int]
            &&& after.header_field == HeaderField::Value
            &&& after.header_autocomplete is None
            &&& after.header_value_buffer == m.header_value_buffer
            &&& after.requests == m.requests
            &&& after.editing_field == m.editing_field
            &&& after.editing_existing_header == m.editing_existing_header
        },
        at >= names.len() ==> m.with_suggestion(names) == m,
{
}

/// Scrolling moves the part that has the focus, and only that one.
pub proof fn lemma_focused_part_is_scrolled(m: AppModel, f: spec_fn(u16) -> u16)
    ensures
        ({
            let after = m.with_scroll(f);
            let focus = m.focused_field;
            &&& focus == FocusableField::Headers ==> after.headers_scroll == f(m.headers_scroll)
            &&& focus == FocusableField::Body ==> after.body_scroll == f(m.body_scroll)
            &&& focus == FocusableField::RequestEvents ==> after.events_scroll == f(
                m.events_scroll,
            )
            &&& focus == FocusableField::Response ==> after.response_scroll == f(m.response_scroll)
            &&& focus != FocusableField::Headers ==> after.headers_scroll == m.headers_scroll
            &&& focus != FocusableField::Body ==> after.body_scroll == m.body_scroll
            &&& focus != FocusableField::RequestEvents ==> after.events_scroll == m.events_scroll
            &&& focus != FocusableField::Response ==> after.response_scroll == m.response_scroll
            &&& after == (AppModel {
                headers_scroll: after.headers_scroll,
                body_scroll: after.body_scroll,
                events_scroll: after.events_scroll,
                response_scroll: after.response_scroll,
                ..m
            })
        }),
{
}

/// Scrolling goes by exactly as many rows as asked, and stops at the first and
/// at the last row there can be.
pub proof fn lemma_scrolling_goes_by(scroll: u16, by: u16)
    ensures
        scroll + by <= u16::MAX ==> scrolled_down(scroll, by) == scroll + by,
        scroll + by > u16::MAX ==> scrolled_down(scroll, by) == u16::MAX,
        scroll >= by ==> scrolled_up(scroll, by) == scroll - by,
        scroll < by ==> scrolled_up(scroll, by) == 0,
{
}

/// The application starts on the list of requests, with every request that was
/// given, the first one selected, and nothing on its way, edited or known.
pub proof fn lemma_start_is_fresh(requests: Seq<RequestModel>, idx: usize)
    ensures
        ({
            let m = initial_model(requests);
            &&& m.requests == requests
            &&& requests.len() > 0 ==> m.has_current() && m.current() == requests[0]
            &&& requests.len() == 0 ==> !m.has_current()
            &&& m.current_screen == CurrentScreen::Main
            &&& m.editing_field is None
            &&& m.focused_field == FocusableField::Url
            &&& m.response_view_mode == ResponseViewMode::Text
            &&& !m.pending_response && m.pending_request_index is None && !m.event_receiver
            &&& m.state(idx).last_response is None && m.state(idx).events.len() == 0
            &&& m.state(idx).streamed_body.len() == 0 && m.state(idx).jq_output.len() == 0
            &&& m.input_buffer.len() == 0 && m.header_key_buffer.len() == 0
            &&& m.headers_scroll == 0 && m.body_scroll == 0 && m.events_scroll == 0
            &&& m.response_scroll == 0 && m.url_h_scroll == 0 && m.filter_h_scroll == 0
            &&& m.last_save_status is None
            &&& m.jq_queue.len() == 0 && !m.streamed_jq_running && !m.streamed_jq_available
        }),
{
    reveal_strlit("");
}

/// A fresh request screen forgets what was typed and where it was scrolled, and
/// changes no request, no state and no selection.
pub proof fn lemma_fresh_screen_forgets_typing(m: AppModel)
    ensures
        ({
            let after = m.with_fresh_request_screen();
            &&& after.editing_field is None
            &&& after.input_buffer.len() == 0 && after.cursor_pos == 0
            &&& after.header_key_buffer.len() == 0 && after.header_key_cursor == 0
            &&& after.header_value_buffer.len() == 0 && after.header_value_cursor == 0
            &&& after.header_field == HeaderField::Key
            &&& after.editing_existing_header is None
            &&& after.header_autocomplete is None
            &&& after.focused_field == FocusableField::Url
            &&& after.headers_scroll == 0 && after.body_scroll == 0 && after.events_scroll == 0
            &&& after.response_scroll == 0 && after.url_h_scroll == 0 && after.filter_h_scroll == 0
            &&& after.requests == m.requests
            &&& after.per_request == m.per_request
            &&& after.current_request_index == m.current_request_index
            &&& after.pending_request_index == m.pending_request_index
            &&& after.pending_response == m.pending_response
            &&& after.current_screen == m.current_screen
            &&& after.response_view_mode == m.response_view_mode
            &&& after.selected_header_index == m.selected_header_index
            &&& after.jq_queue == m.jq_queue
        }),
{
    reveal_strlit("");
}

/// Names are suggested for what is typed as a name, among the standard ones and
/// without regard to case, and never for a value.
pub proof fn lemma_suggestions_are_for_names(m: AppModel, other: AppModel)
    ensures
        m.header_field == HeaderField::Value ==> m.suggestions().len() == 0,
        m.header_field == HeaderField::Key && other.header_field == HeaderField::Key && lowercase(
            m.header_key_buffer,
        ) == lowercase(other.header_key_buffer) ==> m.suggestions() == other.suggestions(),
        forall|i: int|
            m.header_field == HeaderField::Key && 0 <= i < m.suggestions().len()
                ==> standard_headers().contains(#[trigger] m.suggestions()[i]),
{
    if m.header_field == HeaderField::Key {
        assert forall|i: int| 0 <= i < m.suggestions().len() implies standard_headers().contains(
            #[trigger] m.suggestions()[i],
        ) by {
            lemma_suggested_names_match(
                standard_headers(),
                lowercase(m.header_key_buffer),
                m.suggestions()[i],
            );
        }
    }
}

/// Sending and deleting a request leave all else of the application alone: the
/// screen, what is edited, and what is still to be done with jq.
pub proof fn lemma_requests_change_alone(m: AppModel)
    ensures
        ({
            let sent = m.sending_current();
            sent == (AppModel {
                pending_response: sent.pending_response,
                pending_request_index: sent.pending_request_index,
                event_receiver: sent.event_receiver,
                per_request: sent.per_request,
                streamed_jq_available: sent.streamed_jq_available,
                streamed_jq_running: sent.streamed_jq_running,
                streamed_jq_output_tx: sent.streamed_jq_output_tx,
                streamed_jq_output_rx: sent.streamed_jq_output_rx,
                ..m
            })
        }),
        ({
            let left = m.without_current();
            left == (AppModel {
                requests: left.requests,
                per_request: left.per_request,
                pending_response: left.pending_response,
                event_receiver: left.event_receiver,
                pending_request_index: left.pending_request_index,
                current_request_index: left.current_request_index,
                ..m
            })
        }),
        ({
            let quiet = m.without_jq();
            &&& !quiet.streamed_jq_running
            &&& !quiet.streamed_jq_output_tx && !quiet.streamed_jq_output_rx
            &&& quiet.per_request == m.per_request && quiet.requests == m.requests
            &&& quiet.streamed_jq_available == m.streamed_jq_available
            &&& quiet.jq_queue == m.jq_queue && quiet.jq_phase == m.jq_phase
        }),
{
}

/// A copy of a result says the same: an answer whole, an error with its words.
pub proof fn lemma_copied_result_says_the_same(r: Option<Result<ResponseModel, ErrorModel>>)
    ensures
        r is None ==> shortened_result(r) is None,
        r matches Some(Ok(response)) ==> shortened_result(r) == Some(
            Ok::<ResponseModel, ErrorModel>(response),
        ),
        r matches Some(Err(e)) ==> (shortened_result(r) matches Some(Err(copy)) && copy.kind
            == e.kind && copy.msg == e.msg),
{
}

} // verus!
