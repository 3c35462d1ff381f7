//! One exchange with a server: what is checked and reported before a request
//! is sent, and what becomes of the answer.  The sending itself is done by the
//! caller, who hands back what happened.

use vstd::prelude::*;

use crate::headers::{
    lemma_place_of, lemma_set_is_read_back, value_of, with_field, Headers,
};
use crate::http_client::{
    causes, is_token, joined, text_of, ErrorKind, ErrorModel, ErrorSource, EventModel, HeaderName,
    HeaderValue, HttpError, HttpMethod, HttpRequest, HttpResponse, RequestEvent, RequestModel,
    ResponseModel, StatusCode,
};
use crate::text::{byte_len, from_utf8_lossy, length, same, utf8_lossy};

verus! {

// ── Outside checks ────────────────────────────────────────────────────────────

/// What `Url::parse` makes of an address: the address in its normal form, or
/// the text of its error.
pub uninterp spec fn url_parse(url: Seq<char>) -> Result<Seq<char>, Seq<char>>;

/// What hyper's `Uri` parser makes of an address: its scheme and its host, as
/// far as it has them, or the text of its error.
pub uninterp spec fn uri_parse(uri: Seq<char>) -> Result<
    (Option<Seq<char>>, Option<Seq<char>>),
    Seq<char>,
>;

/// The texts of a result.
pub open spec fn text_result(r: Result<String, String>) -> Result<Seq<char>, Seq<char>> {
    match r {
        Ok(text) => Ok(text@),
        Err(text) => Err(text@),
    }
}

/// `url::Url::parse`: the normal form of an address, or why it is none.
#[verifier::external_body]
fn parse_url(url: &str) -> (r: Result<String, String>)
    ensures
        text_result(r) == url_parse(url@),
{
    match url::Url::parse(url) {
        Ok(parsed) => Ok(parsed.as_str().to_owned()),
        Err(e) => Err(e.to_string()),
    }
}

/// The scheme and the host of an address.
pub struct UriParts {
    pub scheme: Option<String>,
    pub host: Option<String>,
}

/// The texts of a result.
pub open spec fn parts_result(r: Result<UriParts, String>) -> Result<
    (Option<Seq<char>>, Option<Seq<char>>),
    Seq<char>,
> {
    match r {
        Ok(parts) => Ok((text_of(parts.scheme), text_of(parts.host))),
        Err(text) => Err(text@),
    }
}

/// `hyper::Uri`'s parsing: the scheme and the host of an address, or why it is
/// none.
#[verifier::external_body]
fn parse_uri(uri: &str) -> (r: Result<UriParts, String>)
    ensures
        parts_result(r) == uri_parse(uri@),
{
    match uri.parse::<hyper::Uri>() {
        Ok(parsed) => Ok(UriParts {
            scheme: parsed.scheme_str().map(|s| s.to_owned()),
            host: parsed.host().map(|s| s.to_owned()),
        }),
        Err(e) => Err(e.to_string()),
    }
}

/// Whether a text can be the value of a header: it has no control characters
/// but tabs.
pub open spec fn is_header_value(value: Seq<char>) -> bool {
    forall|i: int| 0 <= i < value.len() ==> #[trigger] value[i] == '\t' || (value[i] >= ' '
        && value[i] != '\u{7f}')
}

/// `hyper::header::HeaderValue`'s parsing: refuses control characters but
/// tabs, always with the same words.
#[verifier::external_body]
fn check_header_value(value: &str) -> (r: Result<(), String>)
    ensures
        r is Ok == is_header_value(value@),
        r matches Err(text) ==> text@ == "failed to parse header value"@,
{
    match value.parse::<hyper::header::HeaderValue>() {
        Ok(_) => Ok(()),
        Err(e) => Err(e.to_string()),
    }
}

/// Whether a text can be the name of a header: a token that is not too long.
pub open spec fn is_header_name(name: Seq<char>) -> bool {
    is_token(name) && byte_len(name) <= 65535
}

/// `hyper::header::HeaderName::from_bytes`: takes tokens of up to 65535 bytes
/// and refuses everything else, always with the same words.
#[verifier::external_body]
fn check_header_name(name: &str) -> (r: Result<(), String>)
    ensures
        r is Ok == is_header_name(name@),
        r matches Err(text) ==> text@ == "invalid HTTP header name"@,
{
    match hyper::header::HeaderName::from_bytes(name.as_bytes()) {
        Ok(_) => Ok(()),
        Err(e) => Err(e.to_string()),
    }
}

// ── Before sending ────────────────────────────────────────────────────────────

/// What some events say.
pub open spec fn event_models(events: Seq<RequestEvent>) -> Seq<EventModel> {
    Seq::new(events.len(), |i: int| events[i]@)
}

/// Reports a failure and makes its error.
pub fn fail(
    events: &mut Vec<RequestEvent>,
    msg: String,
    source: Option<Box<ErrorSource>>,
    kind: ErrorKind,
) -> (r: HttpError)
    ensures
        event_models(final(events)@) == event_models(old(events)@).push(EventModel::Failed(msg@)),
        r@ == (ErrorModel { kind, msg: msg@, causes: causes(source) }),
{
    let event = RequestEvent::Failed(msg.clone());
    proof {
        assert(event_models(events@.push(event)) =~= event_models(events@).push(
            EventModel::Failed(msg@),
        ));
    }
    events.push(event);
    HttpError::new(kind, msg, source)
}

/// Adds an event to a list.
fn report(events: &mut Vec<RequestEvent>, event: RequestEvent)
    ensures
        event_models(final(events)@) == event_models(old(events)@).push(event@),
{
    proof {
        assert(event_models(events@.push(event)) =~= event_models(events@).push(event@));
    }
    events.push(event);
}

/// A request that is ready to be sent.
#[derive(Debug)]
pub struct PreparedRequest {
    pub method: HttpMethod,
    pub uri: String,
    pub headers: Headers,
    pub body: String,
}

/// What a request that is ready to be sent says.
#[verifier::ext_equal]
pub ghost struct PreparedModel {
    pub method: Seq<char>,
    pub uri: Seq<char>,
    pub headers: Seq<(Seq<char>, Seq<char>)>,
    pub body: Seq<char>,
}

impl View for PreparedRequest {
    type V = PreparedModel;

    open spec fn view(&self) -> PreparedModel {
        PreparedModel {
            method: self.method@,
            uri: self.uri@,
            headers: self.headers@,
            body: self.body@,
        }
    }
}

/// The first of the fields from `i` on whose value cannot be sent.
pub open spec fn bad_value_from(fields: Seq<(Seq<char>, Seq<char>)>, i: int) -> Option<int>
    decreases fields.len() - i,
{
    if i >= fields.len() {
        None
    } else if !is_header_value(fields[i].1) {
        Some(i)
    } else {
        bad_value_from(fields, i + 1)
    }
}

/// Whether all the names can be sent.
pub open spec fn names_are_valid(fields: Seq<(Seq<char>, Seq<char>)>) -> bool {
    forall|i: int| 0 <= i < fields.len() ==> is_header_name((#[trigger] fields[i]).0)
}

/// What is reported of an address that is about to be reached.
pub open spec fn approach(scheme: Option<Seq<char>>, host: Option<Seq<char>>) -> Seq<EventModel> {
    seq![EventModel::Started] + (match host {
        Some(name) => seq![EventModel::ResolvingHost(name)],
        None => Seq::empty(),
    }) + seq![EventModel::HostResolved, EventModel::Connecting] + (if scheme == Some("https"@) {
        seq![EventModel::TlsHandshakeStarted, EventModel::TlsHandshakeComplete]
    } else {
        Seq::empty()
    })
}

/// A failure with its cause, after some events.
pub open spec fn refusal(
    before: Seq<EventModel>,
    kind: ErrorKind,
    msg: Seq<char>,
    causes: Seq<Seq<char>>,
) -> (Seq<EventModel>, Result<PreparedModel, ErrorModel>) {
    (before.push(EventModel::Failed(msg)), Err(ErrorModel { kind, msg, causes }))
}

/// What is reported of a request before it is sent, and either the request as
/// it will be sent or why it will not be.
pub open spec fn preparation(request: RequestModel) -> (
    Seq<EventModel>,
    Result<PreparedModel, ErrorModel>,
) {
    match url_parse(request.url) {
        Err(msg) => refusal(seq![EventModel::Started], ErrorKind::InvalidUrl, msg, seq![msg]),
        Ok(uri) => match uri_parse(uri) {
            Err(msg) => refusal(seq![EventModel::Started], ErrorKind::InvalidUrl, msg, seq![msg]),
            Ok((scheme, host)) => match bad_value_from(request.headers, 0) {
                Some(i) => refusal(
                    approach(scheme, host),
                    ErrorKind::InvalidHeader,
                    request.headers[i].0 + ": "@ + "failed to parse header value"@,
                    Seq::empty(),
                ),
                None => if names_are_valid(request.headers) {
                    (
                        approach(scheme, host),
                        Ok(
                            PreparedModel {
                                method: request.method,
                                uri,
                                headers: request.headers,
                                body: match request.body {
                                    Some(text) => text,
                                    None => ""@,
                                },
                            },
                        ),
                    )
                } else {
                    refusal(
                        approach(scheme, host),
                        ErrorKind::RequestFailed,
                        "invalid HTTP header name"@,
                        seq!["invalid HTTP header name"@],
                    )
                },
            },
        },
    }
}

/// What a result of the preparation says.
pub open spec fn prepared_model(r: Result<PreparedRequest, HttpError>) -> Result<
    PreparedModel,
    ErrorModel,
> {
    match r {
        Ok(p) => Ok(p@),
        Err(e) => Err(e@),
    }
}

/// A cause with nothing behind it.
fn only_cause(msg: &String) -> (r: Option<Box<ErrorSource>>)
    ensures
        causes(r) == seq![msg@],
{
    let source = ErrorSource::new(msg.clone(), None);
    proof {
        assert(source@ =~= seq![msg@]);
    }
    Some(Box::new(source))
}

/// Why the headers cannot be sent, if they cannot: the first bad value, or a
/// bad name.
fn check_headers(headers: &Headers, events: &mut Vec<RequestEvent>) -> (r: Option<HttpError>)
    ensures
        r is None == (bad_value_from(headers@, 0) is None && names_are_valid(headers@)),
        r is None ==> final(events)@ == old(events)@,
        r matches Some(e) ==> (event_models(final(events)@), Err::<PreparedModel, ErrorModel>(e@))
            == (match bad_value_from(headers@, 0) {
            Some(i) => refusal(
                event_models(old(events)@),
                ErrorKind::InvalidHeader,
                headers@[i].0 + ": "@ + "failed to parse header value"@,
                Seq::empty(),
            ),
            None => refusal(
                event_models(old(events)@),
                ErrorKind::RequestFailed,
                "invalid HTTP header name"@,
                seq!["invalid HTTP header name"@],
            ),
        }),
{
    let mut i: usize = 0;
    let n: usize = headers.len();
    while i < n
        invariant
            i <= n,
            n == headers@.len(),
            bad_value_from(headers@, 0) == bad_value_from(headers@, i as int),
            events@ == old(events)@,
        decreases n - i,
    {
        match check_header_value(headers.value_at(i).as_str()) {
            Ok(_) => {},
            Err(text) => {
                let mut msg = joined(headers.name_at(i).as_str(), ": ");
                msg.append(text.as_str());
                return Some(fail(events, msg, None, ErrorKind::InvalidHeader));
            },
        }
        i = i + 1;
    }
    let mut j: usize = 0;
    while j < n
        invariant
            j <= n,
            n == headers@.len(),
            bad_value_from(headers@, 0) is None,
            events@ == old(events)@,
            forall|k: int| 0 <= k < j ==> is_header_name((#[trigger] headers@[k]).0),
        decreases n - j,
    {
        match check_header_name(headers.name_at(j).as_str()) {
            Ok(_) => {},
            Err(msg) => {
                proof {
                    assert(!is_header_name(headers@[j as int].0));
                }
                let source = only_cause(&msg);
                return Some(fail(events, msg, source, ErrorKind::RequestFailed));
            },
        }
        j = j + 1;
    }
    None
}

/// Checks a request and reports what happens until it is sent.
pub fn prepare(request: &HttpRequest) -> (r: (Vec<RequestEvent>, Result<
    PreparedRequest,
    HttpError,
>))
    ensures
        (event_models(r.0@), prepared_model(r.1)) == preparation(request@),
{
    let mut events: Vec<RequestEvent> = Vec::new();
    proof {
        assert(event_models(events@) =~= Seq::<EventModel>::empty());
    }
    report(&mut events, RequestEvent::Started);
    proof {
        assert(event_models(events@) =~= seq![EventModel::Started]);
    }
    let uri = match parse_url(request.url.as_str()) {
        Ok(uri) => uri,
        Err(msg) => {
            let source = only_cause(&msg);
            let error = fail(&mut events, msg, source, ErrorKind::InvalidUrl);
            return (events, Err(error));
        },
    };
    let parts = match parse_uri(uri.as_str()) {
        Ok(parts) => parts,
        Err(msg) => {
            let source = only_cause(&msg);
            let error = fail(&mut events, msg, source, ErrorKind::InvalidUrl);
            return (events, Err(error));
        },
    };
    let ghost scheme = text_of(parts.scheme);
    let ghost host = text_of(parts.host);
    if let Some(name) = &parts.host {
        report(&mut events, RequestEvent::ResolvingHost(name.clone()));
    }
    report(&mut events, RequestEvent::HostResolved);
    report(&mut events, RequestEvent::Connecting);
    let is_https = match &parts.scheme {
        Some(name) => same(name.as_str(), "https"),
        None => false,
    };
    if is_https {
        report(&mut events, RequestEvent::TlsHandshakeStarted);
        report(&mut events, RequestEvent::TlsHandshakeComplete);
    }
    proof {
        assert(event_models(events@) =~= approach(scheme, host));
    }
    if let Some(error) = check_headers(&request.headers, &mut events) {
        return (events, Err(error));
    }
    let body = match &request.body {
        Some(text) => text.clone(),
        None => "".to_owned(),
    };
    let prepared = PreparedRequest {
        method: request.method.clone(),
        uri,
        headers: request.headers.clone(),
        body,
    };
    (events, Ok(prepared))
}

/// What an optional error says.
pub open spec fn error_model(e: Option<HttpError>) -> Option<ErrorModel> {
    match e {
        Some(error) => Some(error@),
        None => None,
    }
}

/// What is reported of a request that could not go on, and its error.
pub open spec fn breakdown(source: ErrorSource) -> (Seq<EventModel>, Option<ErrorModel>) {
    (
        seq![EventModel::Failed(source@[0])],
        Some(ErrorModel { kind: ErrorKind::RequestFailed, msg: source@[0], causes: source@ }),
    )
}

/// What is reported once it is known whether a request could be put together.
pub open spec fn building(outcome: Result<(), ErrorSource>) -> (
    Seq<EventModel>,
    Option<ErrorModel>,
) {
    match outcome {
        Ok(_) => (seq![EventModel::SendingRequest], None),
        Err(source) => breakdown(source),
    }
}

/// What is reported once it is known whether the head of an answer came.
pub open spec fn answering(outcome: Result<(), ErrorSource>) -> (
    Seq<EventModel>,
    Option<ErrorModel>,
) {
    match outcome {
        Ok(_) => (
            seq![
                EventModel::RequestSent,
                EventModel::WaitingForResponse,
                EventModel::ReceivingHeaders,
            ],
            None,
        ),
        Err(source) => breakdown(source),
    }
}

/// Reports that a request could not go on.
fn broken_down(source: ErrorSource) -> (r: (Vec<RequestEvent>, Option<HttpError>))
    ensures
        (event_models(r.0@), error_model(r.1)) == breakdown(source),
{
    let mut events: Vec<RequestEvent> = Vec::new();
    let ghost said = breakdown(source).0;
    let msg = source.to_string();
    let error = fail(&mut events, msg, Some(Box::new(source)), ErrorKind::RequestFailed);
    proof {
        assert(event_models(events@) =~= said);
    }
    (events, Some(error))
}

/// Reports whether a prepared request could be put together: what is said
/// before it is handed to the network.
pub fn built(outcome: Result<(), ErrorSource>) -> (r: (Vec<RequestEvent>, Option<HttpError>))
    ensures
        (event_models(r.0@), error_model(r.1)) == building(outcome),
{
    match outcome {
        Ok(_) => {
            let mut events: Vec<RequestEvent> = Vec::new();
            report(&mut events, RequestEvent::SendingRequest);
            proof {
                assert(event_models(events@) =~= seq![EventModel::SendingRequest]);
            }
            (events, None)
        },
        Err(source) => broken_down(source),
    }
}

/// Reports whether the head of an answer came.
pub fn answered(outcome: Result<(), ErrorSource>) -> (r: (Vec<RequestEvent>, Option<HttpError>))
    ensures
        (event_models(r.0@), error_model(r.1)) == answering(outcome),
{
    match outcome {
        Ok(_) => {
            let mut events: Vec<RequestEvent> = Vec::new();
            report(&mut events, RequestEvent::RequestSent);
            report(&mut events, RequestEvent::WaitingForResponse);
            report(&mut events, RequestEvent::ReceivingHeaders);
            proof {
                assert(event_models(events@) =~= answering(outcome).0);
            }
            (events, None)
        },
        Err(source) => broken_down(source),
    }
}

// ── The answer ────────────────────────────────────────────────────────────────

/// A header field of an answer, with its value as raw bytes.
pub struct RawHeader {
    pub name: String,
    pub value: Vec<u8>,
}

/// Whether a byte is a visible character of ASCII, a space or a tab.
pub open spec fn is_visible(b: u8) -> bool {
    32 <= b < 127 || b == 9
}

/// Whether the value of a header is text.
pub open spec fn is_visible_text(value: Seq<u8>) -> bool {
    forall|i: int| 0 <= i < value.len() ==> is_visible(#[trigger] value[i])
}

/// The characters of a value that is text.
pub open spec fn visible_text(value: Seq<u8>) -> Seq<char> {
    Seq::new(value.len(), |i: int| value[i] as char)
}

/// The value of a header as text, if it is text.
pub fn header_text(value: &Vec<u8>) -> (r: Option<String>)
    ensures
        r is Some == is_visible_text(value@),
        r matches Some(text) ==> text@ == visible_text(value@),
{
    let mut text = String::new();
    let mut i: usize = 0;
    while i < value.len()
        invariant
            i <= value@.len(),
            forall|j: int| 0 <= j < i ==> is_visible(#[trigger] value@[j]),
            text@ =~= visible_text(value@.take(i as int)),
        decreases value@.len() - i,
    {
        let b = value[i];
        if !((32 <= b && b < 127) || b == 9) {
            assert(!is_visible(value@[i as int]));
            return None;
        }
        text.push(b as char);
        i = i + 1;
    }
    proof {
        assert(value@.take(i as int) =~= value@);
    }
    Some(text)
}

/// The fields of an answer that are text.  Where a name comes more than once,
/// its last value counts.
pub open spec fn readable_fields(raw: Seq<RawHeader>) -> Seq<(Seq<char>, Seq<char>)>
    decreases raw.len(),
{
    if raw.len() == 0 {
        Seq::empty()
    } else if is_visible_text(raw.last().value@) {
        with_field(
            readable_fields(raw.drop_last()),
            raw.last().name@,
            visible_text(raw.last().value@),
        )
    } else {
        readable_fields(raw.drop_last())
    }
}

/// Collects the fields of an answer that are text.
pub fn collect_headers(raw: &Vec<RawHeader>) -> (r: Headers)
    ensures
        r@ == readable_fields(raw@),
{
    let mut headers = Headers::new();
    let mut i: usize = 0;
    while i < raw.len()
        invariant
            i <= raw@.len(),
            headers@ == readable_fields(raw@.take(i as int)),
        decreases raw@.len() - i,
    {
        proof {
            assert(raw@.take(i + 1).drop_last() =~= raw@.take(i as int));
        }
        if let Some(text) = header_text(&raw[i].value) {
            headers.insert(HeaderName::new(raw[i].name.clone()), HeaderValue::new(text));
        }
        i = i + 1;
    }
    proof {
        assert(raw@.take(i as int) =~= raw@);
    }
    headers
}

/// A part of an answer after its head.
pub enum Frame {
    /// Bytes of the body.
    Data(Vec<u8>),
    /// Something else, such as trailers.
    Other,
    /// The part could not be received.
    Problem,
}

/// What is reported of a part of an answer.
pub open spec fn frame_event(frame: Frame) -> Option<EventModel> {
    match frame {
        Frame::Data(bytes) => Some(EventModel::BodyChunk(utf8_lossy(bytes@))),
        Frame::Other => None,
        Frame::Problem => Some(
            EventModel::TemporaryConnectionProblem("Could not receive response chunk"@),
        ),
    }
}

/// The text of a part of an answer.
pub open spec fn frame_text(frame: Frame) -> Seq<char> {
    match frame {
        Frame::Data(bytes) => utf8_lossy(bytes@),
        _ => Seq::empty(),
    }
}

/// An answer that is being received.
pub struct Reception {
    pub status_code: StatusCode,
    pub headers: Headers,
    pub body: String,
}

impl View for Reception {
    type V = ResponseModel;

    open spec fn view(&self) -> ResponseModel {
        ResponseModel { status: self.status_code@, headers: self.headers@, body: self.body@ }
    }
}

impl Reception {
    /// Takes the head of an answer.
    pub fn new(status_code: StatusCode, raw: &Vec<RawHeader>) -> (r: (Reception, RequestEvent))
        ensures
            r.0@ == (ResponseModel {
                status: status_code@,
                headers: readable_fields(raw@),
                body: ""@,
            }),
            r.1@ == EventModel::HeadersReceived(status_code@),
    {
        let event = RequestEvent::HeadersReceived(status_code.as_u16());
        let reception = Reception {
            status_code,
            headers: collect_headers(raw),
            body: "".to_owned(),
        };
        (reception, event)
    }

    /// Takes a part of an answer.
    pub fn on_frame(&mut self, frame: &Frame) -> (r: Option<RequestEvent>)
        ensures
            final(self)@ == (ResponseModel {
                body: old(self)@.body + frame_text(*frame),
                ..old(self)@
            }),
            r is Some == frame_event(*frame) is Some,
            r matches Some(event) ==> frame_event(*frame) == Some(event@),
    {
        match frame {
            Frame::Data(bytes) => {
                let chunk = from_utf8_lossy(bytes.as_slice());
                self.body.append(chunk.as_str());
                Some(RequestEvent::BodyChunk(chunk))
            },
            Frame::Other => {
                proof {
                    assert(self@.body + frame_text(*frame) =~= self@.body);
                }
                None
            },
            Frame::Problem => {
                proof {
                    assert(self@.body + frame_text(*frame) =~= self@.body);
                }
                Some(
                    RequestEvent::TemporaryConnectionProblem(
                        "Could not receive response chunk".to_owned(),
                    ),
                )
            },
        }
    }

    /// Ends the answer.
    pub fn finish(self) -> (r: (HttpResponse, RequestEvent))
        ensures
            r.0@ == self@,
            r.1@ == EventModel::Completed(byte_len(self@.body)),
    {
        let size = length(self.body.as_str());
        let response = HttpResponse {
            status_code: self.status_code,
            headers: self.headers,
            body: self.body,
        };
        (response, RequestEvent::Completed(size))
    }
}

// ── Laws ──────────────────────────────────────────────────────────────────────

/// A refused request fails with the words that were reported last.
pub proof fn lemma_refusal_is_reported(request: RequestModel)
    requires
        preparation(request).1 is Err,
    ensures
        preparation(request).0.len() > 0,
        preparation(request).0.last() == EventModel::Failed(preparation(request).1->Err_0.msg),
{
}

/// Every request is first reported as started.
pub proof fn lemma_started_comes_first(request: RequestModel)
    ensures
        preparation(request).0.len() > 0,
        preparation(request).0[0] == EventModel::Started,
{
}

/// A request that is sent says what the user wrote: its method, its headers
/// and its body, to the normal form of its address.
pub proof fn lemma_prepared_says_what_was_written(request: RequestModel)
    requires
        preparation(request).1 is Ok,
    ensures
        url_parse(request.url) is Ok,
        preparation(request).1->Ok_0.uri == url_parse(request.url)->Ok_0,
        preparation(request).1->Ok_0.method == request.method,
        preparation(request).1->Ok_0.headers == request.headers,
        request.body matches Some(text) ==> preparation(request).1->Ok_0.body == text,
{
}

/// The body that some parts of an answer make up.
pub open spec fn body_of(frames: Seq<Frame>) -> Seq<char>
    decreases frames.len(),
{
    if frames.len() == 0 {
        Seq::empty()
    } else {
        body_of(frames.drop_last()) + frame_text(frames.last())
    }
}

/// The number of bytes reported of some parts of an answer.
pub open spec fn reported_bytes(frames: Seq<Frame>) -> nat
    decreases frames.len(),
{
    if frames.len() == 0 {
        0
    } else {
        reported_bytes(frames.drop_last()) + (match frame_event(frames.last()) {
            Some(EventModel::BodyChunk(chunk)) => byte_len(chunk),
            _ => 0,
        })
    }
}

/// The number of bytes reported at the end is the sum of those reported with
/// the parts.
pub proof fn lemma_completed_is_sum_of_chunks(frames: Seq<Frame>)
    ensures
        byte_len(body_of(frames)) == reported_bytes(frames),
    decreases frames.len(),
{
    if frames.len() > 0 {
        lemma_completed_is_sum_of_chunks(frames.drop_last());
        crate::text::lemma_encode_concat(body_of(frames.drop_last()), frame_text(frames.last()));
        assert(byte_len(Seq::<char>::empty()) == 0);
    } else {
        assert(byte_len(Seq::<char>::empty()) == 0);
    }
}

/// No value is found that is no header value exactly where every one is one,
/// and the one that is found is the first.
proof fn lemma_bad_value(fields: Seq<(Seq<char>, Seq<char>)>, i: int)
    requires
        0 <= i <= fields.len(),
    ensures
        bad_value_from(fields, i) is None <==> forall|k: int|
            i <= k < fields.len() ==> is_header_value((#[trigger] fields[k]).1),
        bad_value_from(fields, i) matches Some(k) ==> i <= k < fields.len() && !is_header_value(
            fields[k].1,
        ) && forall|j: int| i <= j < k ==> is_header_value((#[trigger] fields[j]).1),
    decreases fields.len() - i,
{
    if i < fields.len() {
        lemma_bad_value(fields, i + 1);
        if is_header_value(fields[i].1) {
            assert forall|k: int|
                bad_value_from(fields, i) is None && i <= k < fields.len() implies is_header_value(
                (#[trigger] fields[k]).1,
            ) by {
                if k > i {
                    assert(is_header_value(fields[k].1));
                }
            }
        }
    }
}

/// A request is prepared exactly where its address can be read, every header
/// value is a header value and every header name is a header name, whatever
/// its method and its body.  What is prepared is the request as it was written,
/// without a body the empty text.
pub proof fn lemma_good_requests_are_prepared(request: RequestModel)
    ensures
        preparation(request).1 is Ok <==> {
            &&& url_parse(request.url) is Ok
            &&& uri_parse(url_parse(request.url)->Ok_0) is Ok
            &&& forall|i: int|
                0 <= i < request.headers.len() ==> is_header_value((#[trigger] request.headers[i]).1)
            &&& forall|i: int|
                0 <= i < request.headers.len() ==> is_header_name((#[trigger] request.headers[i]).0)
        },
        preparation(request).1 matches Ok(prepared) ==> {
            &&& prepared.method == request.method
            &&& prepared.uri == url_parse(request.url)->Ok_0
            &&& prepared.headers == request.headers
            &&& request.body matches Some(text) ==> prepared.body == text
            &&& request.body is None ==> prepared.body.len() == 0
        },
{
    reveal_strlit("");
    lemma_bad_value(request.headers, 0);
}

/// Neither the method nor the body has a say in whether a request is prepared,
/// nor in what is told of it on the way.
pub proof fn lemma_method_and_body_pass(a: RequestModel, b: RequestModel)
    requires
        a.url == b.url,
        a.headers == b.headers,
    ensures
        preparation(a).0 == preparation(b).0,
        preparation(a).1 is Ok <==> preparation(b).1 is Ok,
        preparation(a).1 is Err ==> preparation(a).1 == preparation(b).1,
{
}

/// Each way in which a request is refused: an address that cannot be read with
/// the words of what cannot read it, the first header value that is none with
/// the name of its header, and a header name that is none only where every
/// value is good.
pub proof fn lemma_refusals_say_why(request: RequestModel, i: int)
    ensures
        url_parse(request.url) matches Err(words) ==> preparation(request).1 matches Err(e)
            && e.kind is InvalidUrl && e.msg == words,
        url_parse(request.url) is Ok && uri_parse(url_parse(request.url)->Ok_0) is Err ==> (
        preparation(request).1 matches Err(e) && e.kind is InvalidUrl && e.msg == uri_parse(
            url_parse(request.url)->Ok_0,
        )->Err_0),
        url_parse(request.url) is Ok && uri_parse(url_parse(request.url)->Ok_0) is Ok && 0 <= i
            < request.headers.len() && !is_header_value(request.headers[i].1) && (forall|j: int|
            0 <= j < i ==> is_header_value((#[trigger] request.headers[j]).1)) ==> (preparation(
            request,
        ).1 matches Err(e) && e.kind is InvalidHeader && e.msg == request.headers[i].0
            + ": "@ + "failed to parse header value"@),
        url_parse(request.url) is Ok && uri_parse(url_parse(request.url)->Ok_0) is Ok && (forall|
            j: int,
        |
            0 <= j < request.headers.len() ==> is_header_value((#[trigger] request.headers[j]).1))
            && 0 <= i < request.headers.len() && !is_header_name(request.headers[i].0) ==> (
        preparation(request).1 matches Err(e) && e.kind is RequestFailed && e.msg
            == "invalid HTTP header name"@),
{
    lemma_bad_value(request.headers, 0);
}

/// What is told of a request whose address was read: it was started, its host
/// is looked up where it names one, it is found and connected to, and only
/// `https` speaks of a handshake, which is complete before anything else.
pub proof fn lemma_approach_tells_the_steps(scheme: Option<Seq<char>>, host: Option<Seq<char>>)
    ensures
        ({
            let told = approach(scheme, host);
            &&& told[0] is Started
            &&& forall|name: Seq<char>|
                #[trigger] told.contains(EventModel::ResolvingHost(name)) <==> host == Some(name)
            &&& told.contains(EventModel::HostResolved)
            &&& told.contains(EventModel::Connecting)
            &&& told.contains(EventModel::TlsHandshakeStarted) <==> scheme == Some("https"@)
            &&& told.contains(EventModel::TlsHandshakeComplete) <==> scheme == Some("https"@)
            &&& scheme == Some("https"@) ==> told.last() is TlsHandshakeComplete
            &&& scheme != Some("https"@) ==> told.last() is Connecting
            &&& told.len() == 3 + (if host is Some {
                1int
            } else {
                0
            }) + (if scheme == Some("https"@) {
                2int
            } else {
                0
            })
        }),
{
    let told = approach(scheme, host);
    let n: int = if host is Some {
        1
    } else {
        0
    };
    assert(told[1 + n] is HostResolved);
    assert(told[2 + n] is Connecting);
    if host is Some {
        assert(told[1] == EventModel::ResolvingHost(host->0));
    }
    if scheme == Some("https"@) {
        assert(told[3 + n] is TlsHandshakeStarted);
        assert(told[4 + n] is TlsHandshakeComplete);
    }
}

/// What goes wrong while a request is built or answered is both told and
/// returned, in the words that come first of the source, with all of them as
/// causes; where nothing goes wrong there is no error and no failure is told.
pub proof fn lemma_breakdowns_are_told(outcome: Result<(), ErrorSource>)
    ensures
        building(outcome).1 is None <==> outcome is Ok,
        answering(outcome).1 is None <==> outcome is Ok,
        outcome is Ok ==> building(outcome).0 == seq![EventModel::SendingRequest],
        outcome is Ok ==> answering(outcome).0.len() == 3 && answering(outcome).0[0] is RequestSent
            && answering(outcome).0[1] is WaitingForResponse && answering(
            outcome,
        ).0[2] is ReceivingHeaders,
        outcome matches Err(source) ==> {
            &&& building(outcome).0 == seq![EventModel::Failed(source@[0])]
            &&& answering(outcome).0 == seq![EventModel::Failed(source@[0])]
            &&& building(outcome).1 matches Some(e) && e.kind is RequestFailed && e.msg
                == source@[0] && e.causes == source@
            &&& answering(outcome).1 == building(outcome).1
        },
{
}

/// The texts of frames, one behind the other.
pub proof fn lemma_bodies_join(a: Seq<Frame>, b: Seq<Frame>, data: Vec<u8>)
    ensures
        body_of(a + b) == body_of(a) + body_of(b),
        body_of(seq![Frame::Data(data)]) == utf8_lossy(data@),
        body_of(seq![Frame::Other]).len() == 0,
        body_of(seq![Frame::Problem]).len() == 0,
        frame_event(Frame::Data(data)) == Some(EventModel::BodyChunk(utf8_lossy(data@))),
        frame_event(Frame::Other) is None,
        frame_event(Frame::Problem) matches Some(EventModel::TemporaryConnectionProblem(_)),
    decreases b.len(),
{
    let one = seq![Frame::Data(data)];
    assert(one.drop_last() =~= Seq::<Frame>::empty());
    assert(body_of(one.drop_last()) =~= Seq::<char>::empty());
    assert(body_of(one) =~= utf8_lossy(data@));
    assert(seq![Frame::Other].drop_last() =~= Seq::<Frame>::empty());
    assert(seq![Frame::Problem].drop_last() =~= Seq::<Frame>::empty());
    if b.len() == 0 {
        assert(a + b =~= a);
        assert(body_of(a) + body_of(b) =~= body_of(a));
    } else {
        lemma_bodies_join(a, b.drop_last(), data);
        assert((a + b).drop_last() =~= a + b.drop_last());
        assert(body_of(a + b) =~= body_of(a) + body_of(b));
    }
}

/// Of the headers of an answer, each whose value can be read is there with the
/// last readable value that came under its name; one that cannot be read
/// takes no other's place.
pub proof fn lemma_readable_headers_are_kept(raw: Seq<RawHeader>, i: int)
    requires
        0 <= i < raw.len(),
        is_visible_text(raw[i].value@),
        forall|j: int|
            i < j < raw.len() && (#[trigger] raw[j]).name@ == raw[i].name@ ==> !is_visible_text(
                raw[j].value@,
            ),
    ensures
        value_of(readable_fields(raw), raw[i].name@) == Some(visible_text(raw[i].value@)),
    decreases raw.len(),
{
    let before = readable_fields(raw.drop_last());
    if i == raw.len() - 1 {
        lemma_set_is_read_back(before, raw.last().name@, visible_text(raw.last().value@), ""@);
    } else {
        assert(raw.drop_last()[i] == raw[i]);
        assert forall|j: int|
            i < j < raw.drop_last().len() && (#[trigger] raw.drop_last()[j]).name@
                == raw.drop_last()[i].name@ implies !is_visible_text(
            raw.drop_last()[j].value@,
        ) by {
            assert(raw[j].name@ == raw[i].name@);
        }
        lemma_readable_headers_are_kept(raw.drop_last(), i);
        if is_visible_text(raw.last().value@) {
            assert(raw[raw.len() - 1].name@ != raw[i].name@);
            lemma_set_is_read_back(
                before,
                raw.last().name@,
                visible_text(raw.last().value@),
                raw[i].name@,
            );
        }
    }
}

/// Every header that is kept of an answer came with it, under its name and with
/// its value.
pub proof fn lemma_kept_headers_came(raw: Seq<RawHeader>, k: int)
    requires
        0 <= k < readable_fields(raw).len(),
    ensures
        exists|i: int|
            0 <= i < raw.len() && (#[trigger] raw[i]).name@ == readable_fields(raw)[k].0
                && is_visible_text(raw[i].value@) && visible_text(raw[i].value@)
                == readable_fields(raw)[k].1,
    decreases raw.len(),
{
    let before = readable_fields(raw.drop_last());
    let last = raw.len() - 1;
    if is_visible_text(raw.last().value@) {
        lemma_place_of(before, raw.last().name@);
        if readable_fields(raw)[k] == (raw.last().name@, visible_text(raw.last().value@)) {
            assert(raw[last] == raw.last());
        } else {
            assert(k < before.len() && readable_fields(raw)[k] == before[k]);
            lemma_kept_headers_came(raw.drop_last(), k);
            let i = choose|i: int|
                0 <= i < raw.drop_last().len() && (#[trigger] raw.drop_last()[i]).name@
                    == before[k].0 && is_visible_text(raw.drop_last()[i].value@) && visible_text(
                    raw.drop_last()[i].value@,
                ) == before[k].1;
            assert(raw[i] == raw.drop_last()[i]);
        }
    } else {
        lemma_kept_headers_came(raw.drop_last(), k);
        let i = choose|i: int|
            0 <= i < raw.drop_last().len() && (#[trigger] raw.drop_last()[i]).name@ == before[k].0
                && is_visible_text(raw.drop_last()[i].value@) && visible_text(
                raw.drop_last()[i].value@,
            ) == before[k].1;
        assert(raw[i] == raw.drop_last()[i]);
    }
}

/// A header value holds no control character but the tab: no line break, and
/// nothing else that could end it.  Two of them one behind the other are one,
/// and every visible ASCII text is one.
pub proof fn lemma_header_values_hold_no_control(a: Seq<char>, b: Seq<char>)
    ensures
        is_header_value(a) ==> !a.contains('\n') && !a.contains('\r') && !a.contains('\0')
            && !a.contains('\u{7f}'),
        is_header_value(a + b) <==> is_header_value(a) && is_header_value(b),
        (forall|i: int| 0 <= i < a.len() ==> ' ' <= #[trigger] a[i] <= '~') ==> is_header_value(a),
        is_header_value(Seq::empty()),
{
    if is_header_value(a + b) {
        assert forall|i: int| 0 <= i < a.len() implies #[trigger] a[i] == '\t' || (a[i] >= ' '
            && a[i] != '\u{7f}') by {
            assert((a + b)[i] == a[i]);
        }
        assert forall|i: int| 0 <= i < b.len() implies #[trigger] b[i] == '\t' || (b[i] >= ' '
            && b[i] != '\u{7f}') by {
            assert((a + b)[a.len() + i] == b[i]);
        }
    }
    if is_header_value(a) && is_header_value(b) {
        assert forall|i: int| 0 <= i < (a + b).len() implies #[trigger] (a + b)[i] == '\t' || ((a
            + b)[i] >= ' ' && (a + b)[i] != '\u{7f}') by {
            if i < a.len() {
                assert((a + b)[i] == a[i]);
            } else {
                assert((a + b)[i] == b[i - a.len()]);
            }
        }
    }
}

/// A header name is a word of HTTP that is not too long.
pub proof fn lemma_header_names_are_words(name: Seq<char>)
    ensures
        is_header_name(name) ==> name.len() > 0 && !name.contains(' ') && !name.contains(':')
            && !name.contains('\n'),
        is_token(name) && byte_len(name) < 65536 <==> is_header_name(name),
{
}

/// A header value of an answer that can be read is a value that could be sent,
/// byte for byte the same; bytes beyond ASCII and control bytes but the tab
/// cannot be read.
pub proof fn lemma_readable_values_could_be_sent(value: Seq<u8>)
    ensures
        is_visible_text(value) ==> is_header_value(visible_text(value)),
        visible_text(value).len() == value.len(),
        is_visible_text(value) ==> forall|i: int|
            0 <= i < value.len() ==> #[trigger] visible_text(value)[i] as int == value[i] as int,
        forall|i: int|
            0 <= i < value.len() && (#[trigger] value[i] >= 127 || (value[i] < 32 && value[i] != 9))
                ==> !is_visible_text(value),
        (forall|i: int|
            0 <= i < value.len() ==> #[trigger] value[i] == 9 || (31 < value[i] && value[i] < 127))
            ==> is_visible_text(value),
{
    if is_visible_text(value) {
        assert forall|i: int| 0 <= i < value.len() implies #[trigger] visible_text(value)[i] as int
            == value[i] as int by {
            assert(is_visible(value[i]));
        }
        assert forall|i: int| 0 <= i < value.len() implies #[trigger] visible_text(value)[i]
            == '\t' || (visible_text(value)[i] >= ' ' && visible_text(value)[i]
            != '\u{7f}') by {
            assert(is_visible(value[i]));
        }
    }
}

/// What has come of an answer grows by each part, at its end, and the parts that
/// are no data add nothing.
pub proof fn lemma_parts_are_told(frame: Frame)
    ensures
        frame_event(frame) matches Some(EventModel::BodyChunk(chunk)) ==> chunk == frame_text(frame),
        frame is Data <==> (frame_event(frame) matches Some(EventModel::BodyChunk(_))),
        frame is Other <==> frame_event(frame) is None,
        frame !is Data ==> frame_text(frame).len() == 0,
{
}

} // verus!
