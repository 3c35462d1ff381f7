use imhottep::app::{App, PerRequestState};
use imhottep::headers::Headers;
use imhottep::http_client::{
    HttpError, HttpMethod, HttpRequest, HttpResponse, JqFilter, RegexPattern, RequestEvent,
    StatusCode,
};
use imhottep::jq::{show_line, show_run, JqBatch, JqEvent, JqOutcome, JqPhase, JqWork};
use imhottep::streaming::{strip_line, take_answer, JqCommand, JqReply, Polled};
use tokio::sync::{mpsc, oneshot};

fn app() -> App {
    App::new(vec![HttpRequest::new(HttpMethod::GET, "https://a")])
}

fn response(body: &str) -> HttpResponse {
    HttpResponse {
        status_code: StatusCode::from_u16(200).unwrap(),
        headers: Headers::new(),
        body: body.to_string(),
    }
}

fn strings(parts: &[&str]) -> Vec<String> {
    parts.iter().map(|p| p.to_string()).collect()
}

fn fed(app: &App) -> Vec<String> {
    app.jq_queue
        .iter()
        .map(|work| match work {
            JqWork::Feed { idx, line } => format!("{idx}<{line}"),
            JqWork::Note { idx, text } => format!("{idx}!{text}"),
            JqWork::Stop => "stop".to_string(),
        })
        .collect()
}

fn finished(success: bool, stdout: &str, stderr: &str) -> JqOutcome {
    JqOutcome::Finished {
        success,
        stdout: stdout.as_bytes().to_vec(),
        stderr: stderr.as_bytes().to_vec(),
    }
}

#[test]
fn only_the_first_match_is_stripped() {
    let prefix = Some(RegexPattern::from("a"));
    let suffix = Some(RegexPattern::from("c$"));
    assert_eq!(strip_line("xaxac", &prefix, &suffix), Ok("xxa".to_string()));
    assert_eq!(strip_line("zz", &prefix, &suffix), Ok("zz".to_string()));
}

#[test]
fn bad_patterns_are_named() {
    let good = Some(RegexPattern::from("a"));
    let bad = Some(RegexPattern::from("("));
    assert_eq!(
        strip_line("x", &bad, &good),
        Err("Invalid prefix regex: (".to_string())
    );
    assert_eq!(
        strip_line("x", &good, &bad),
        Err("Invalid suffix regex: (".to_string())
    );
    assert_eq!(
        strip_line("x", &None, &good),
        Err("No prefix regex available".to_string())
    );
    assert_eq!(
        strip_line("x", &good, &None),
        Err("No suffix regex available".to_string())
    );
}

#[test]
fn it_does_not_matter_how_a_body_is_cut() {
    let body = "data: {\"a\":1}\r\ndata: x\n\ndata: {\"b\"";
    let mut whole = app();
    whole.process_chunk(0, body);
    for cut in 0..body.len() {
        let mut parts = app();
        parts.process_chunk(0, &body[..cut]);
        parts.process_chunk(0, &body[cut..]);
        assert_eq!(fed(&parts), fed(&whole));
        assert_eq!(parts.per_request[&0].line_buffer, "data: {\"b\"");
        assert_eq!(
            parts.per_request[&0].stripped_lines,
            strings(&["{\"a\":1}", "x"])
        );
        assert!(parts.streamed_jq_available);
    }
}

#[test]
fn streaming_keeps_what_is_cut_out_afterwards() {
    let body = "data: 1\n\nevent: x\ndata: {";
    let mut app = app();
    app.process_chunk(0, body);
    app.flush_line_buffer(0);
    let streamed = app.per_request[&0].stripped_lines.clone();
    assert_eq!(app.per_request[&0].line_buffer, "");
    app.per_request.get_mut(&0).unwrap().streamed_body = body.to_string();
    let batch = app.reprocess_streamed_jq().unwrap();
    assert_eq!(app.per_request[&0].stripped_lines, streamed);
    assert_eq!(batch.lines, streamed);
    assert_eq!(streamed, strings(&["1", "x", "{"]));
    assert!(app.streamed_jq_available);
}

#[test]
fn a_bad_pattern_is_remarked_upon() {
    let mut app = app();
    app.requests[0].stream_prefix_regex = RegexPattern::from("[");
    app.process_chunk(0, "x\n");
    assert_eq!(
        fed(&app),
        strings(&["0!\u{1b}[31m// Invalid prefix regex: [\u{1b}[0m"])
    );
    assert!(matches!(app.step_jq(JqReply::Ready), JqCommand::Continue));
    assert_eq!(
        app.current_streamed_jq_output(),
        "\u{1b}[31m// Invalid prefix regex: [\u{1b}[0m"
    );
}

#[test]
fn a_finished_response_is_taken() {
    let mut app = app();
    let (result_tx, result_rx) = oneshot::channel();
    let (_event_tx, event_rx) = mpsc::unbounded_channel();
    app.send_current_request(result_rx, event_rx);
    assert!(app.current_request_is_pending());
    app.check_pending_response();
    assert!(app.current_request_is_pending());
    assert!(result_tx.send(Ok(response("body"))).is_ok());
    app.check_pending_response();
    assert!(!app.current_request_is_pending());
    assert_eq!(app.current_streamed_body(), "body");
    assert!(matches!(app.current_last_response(), Some(Ok(r)) if r.body == "body"));
}

#[test]
fn a_closed_channel_is_a_failure() {
    let mut app = app();
    let (result_tx, result_rx) = oneshot::channel::<Result<HttpResponse, HttpError>>();
    let (_event_tx, event_rx) = mpsc::unbounded_channel();
    app.send_current_request(result_rx, event_rx);
    drop(result_tx);
    app.check_pending_response();
    assert!(app.pending_response.is_none());
    assert!(app.pending_request_index.is_none());
    match app.current_last_response() {
        Some(Err(e)) => assert_eq!(e.to_string(), "Request failed: Request channel closed"),
        _ => panic!("expected an error"),
    }
}

#[test]
fn events_are_told_in_their_order() {
    let mut app = app();
    let (result_tx, result_rx) = oneshot::channel();
    let (event_tx, event_rx) = mpsc::unbounded_channel();
    app.send_current_request(result_rx, event_rx);
    assert!(!app.check_for_events());
    assert!(event_tx.send(RequestEvent::Started).is_ok());
    assert!(event_tx
        .send(RequestEvent::BodyChunk("data: 1\nda".to_string()))
        .is_ok());
    assert!(app.check_for_events());
    assert_eq!(
        app.current_request_events(),
        strings(&["Request started", "Response chunk received: 10 bytes"])
    );
    assert_eq!(app.current_streamed_body(), "data: 1\nda");
    assert_eq!(fed(&app), strings(&["0<1"]));
    assert!(event_tx
        .send(RequestEvent::BodyChunk("ta: 2".to_string()))
        .is_ok());
    drop(event_tx);
    assert!(result_tx.send(Ok(response("data: 1\ndata: 2"))).is_ok());
    app.check_pending_response();
    assert!(app.check_for_events());
    assert_eq!(fed(&app), strings(&["0<1", "0<2", "stop"]));
    assert!(app.event_receiver.is_none());
    assert!(app.pending_request_index.is_none());
}

#[test]
fn output_of_jq_is_shown() {
    let mut app = app();
    let (tx, rx) = mpsc::unbounded_channel();
    app.streamed_jq_output_rx = Some(rx);
    app.streamed_jq_running = true;
    app.per_request.insert(0, PerRequestState::new());
    app.per_request.get_mut(&0).unwrap().last_fed = "{".to_string();
    assert!(tx.send(JqEvent::Output("1".to_string())).is_ok());
    assert!(tx.send(JqEvent::Error("bad".to_string())).is_ok());
    assert!(app.check_for_events());
    assert_eq!(
        app.current_streamed_jq_output(),
        "1\n{ \u{1b}[31m// jq: bad\u{1b}[0m"
    );
    drop(tx);
    assert!(!app.check_for_events());
    assert!(app.streamed_jq_output_rx.is_none());
    assert!(!app.streamed_jq_running);
}

#[test]
fn a_line_starts_jq_and_is_written() {
    let mut app = app();
    app.requests[0].jq_filter = JqFilter::from(".a");
    app.process_chunk(0, "data: 1\ndata: 2\n");
    match app.step_jq(JqReply::Ready) {
        JqCommand::Spawn(args) => {
            assert_eq!(args, strings(&["--color-output", "--unbuffered", ".a"]))
        }
        _ => panic!("expected a start"),
    }
    let (tx, rx) = mpsc::unbounded_channel();
    match app.step_jq(JqReply::Started { tx, rx }) {
        JqCommand::Write(line) => assert_eq!(line, "1"),
        _ => panic!("expected a line"),
    }
    assert!(app.streamed_jq_running);
    assert!(matches!(app.step_jq(JqReply::Written), JqCommand::Continue));
    assert_eq!(app.per_request[&0].last_fed, "1");
    match app.step_jq(JqReply::Ready) {
        JqCommand::Write(line) => assert_eq!(line, "2"),
        _ => panic!("expected a line"),
    }
    assert!(matches!(app.step_jq(JqReply::Written), JqCommand::Continue));
    assert!(matches!(app.step_jq(JqReply::Ready), JqCommand::Done));
}

#[test]
fn a_line_that_is_not_taken_goes_to_a_fresh_process() {
    let mut app = app();
    let (tx, rx) = mpsc::unbounded_channel();
    app.streamed_jq_output_tx = Some(tx);
    app.streamed_jq_output_rx = Some(rx);
    app.streamed_jq_running = true;
    app.process_chunk(0, "data: 2\n");
    app.per_request.get_mut(&0).unwrap().last_fed = "1".to_string();
    assert!(matches!(app.step_jq(JqReply::Ready), JqCommand::Write(_)));
    let said = vec![JqEvent::Error("died".to_string())];
    assert!(matches!(app.step_jq(JqReply::WriteFailed(said)), JqCommand::Spawn(_)));
    assert!(!app.streamed_jq_running);
    assert_eq!(
        app.current_streamed_jq_output(),
        "1 \u{1b}[31m// jq: died\u{1b}[0m"
    );
    let (tx, rx) = mpsc::unbounded_channel();
    match app.step_jq(JqReply::Started { tx, rx }) {
        JqCommand::WriteAgain(line) => assert_eq!(line, "2"),
        _ => panic!("expected the line again"),
    }
    assert!(matches!(app.step_jq(JqReply::Written), JqCommand::Continue));
    assert_eq!(app.per_request[&0].last_fed, "2");
    assert!(matches!(app.jq_phase, JqPhase::Idle));
}

#[test]
fn jq_that_cannot_start_is_reported() {
    let mut app = app();
    app.process_chunk(0, "data: 1\n");
    assert!(matches!(app.step_jq(JqReply::Ready), JqCommand::Spawn(_)));
    let failed = JqReply::StartFailed("not found".to_string());
    assert!(matches!(app.step_jq(failed), JqCommand::Continue));
    assert_eq!(
        app.current_streamed_jq_output(),
        "\u{1b}[31m// Failed to start jq: not found\u{1b}[0m"
    );
    assert_eq!(app.per_request[&0].last_fed, "");
}

#[test]
fn answers_of_a_channel_are_taken_one_by_one() {
    let mut items = Vec::new();
    assert_eq!(take_answer(&mut items, Polled::Item(1)), None);
    assert_eq!(take_answer(&mut items, Polled::Item(2)), None);
    assert_eq!(take_answer(&mut items, Polled::Empty), Some(false));
    assert_eq!(take_answer(&mut items, Polled::Closed), Some(true));
    assert_eq!(items, vec![1, 2]);
}

#[test]
fn what_jq_said_can_be_drained() {
    let mut app = app();
    assert!(app.drain_jq_output().is_empty());
    let (tx, rx) = mpsc::unbounded_channel();
    app.streamed_jq_output_rx = Some(rx);
    assert!(tx.send(JqEvent::Output("1".to_string())).is_ok());
    assert!(matches!(&app.drain_jq_output()[..], [JqEvent::Output(line)] if line == "1"));
    assert!(app.drain_jq_output().is_empty());
}

#[test]
fn every_line_of_a_batch_is_shown() {
    let mut batch = JqBatch::new(0, "  ", strings(&["1", "{", "2"]));
    assert_eq!(batch.args(), strings(&["--color-output", "."]));
    assert_eq!(batch.next_line(), Some("1"));
    batch.record(&finished(true, "a\nb\n", ""));
    assert_eq!(batch.next_line(), Some("{"));
    batch.record(&finished(false, "", " unfinished \n"));
    assert_eq!(batch.next_line(), Some("2"));
    batch.record(&JqOutcome::NotFinished("lost".to_string()));
    assert_eq!(batch.next_line(), None);
    let mut app = app();
    app.per_request.insert(0, PerRequestState::new());
    app.per_request.get_mut(&0).unwrap().jq_output = strings(&["x"]);
    app.finish_batch(batch);
    assert_eq!(
        app.per_request[&0].jq_output,
        strings(&[
            "x",
            "a",
            "b",
            "{ \u{1b}[31m// jq: unfinished\u{1b}[0m",
            "\u{1b}[31m// jq wait error: lost\u{1b}[0m",
        ])
    );
}

#[test]
fn batches_of_joined_lines_show_the_joined_output() {
    let jq = |line: &str| {
        if line.starts_with('{') {
            finished(false, "", "bad")
        } else {
            finished(true, &format!("{line}!\n"), "")
        }
    };
    let shown = |lines: &[&str], filter: &str| {
        let mut batch = JqBatch::new(0, filter, strings(lines));
        while let Some(line) = batch.next_line() {
            let outcome = jq(line);
            batch.record(&outcome);
        }
        (batch.args(), batch.output)
    };
    let (first, second) = (["1", "{"], ["{", "2", "3"]);
    let all = ["1", "{", "{", "2", "3"];
    let mut joined = shown(&first, ".").1;
    joined.extend(shown(&second, ".").1);
    assert_eq!(shown(&all, ".").1, joined);
    assert_eq!(joined.len(), all.len());
    assert_eq!(shown(&[], ".").1, strings(&[]));
    assert_eq!(shown(&all, " \t"), shown(&all, "."));
}

#[test]
fn a_started_process_is_heard() {
    let mut app = app();
    let (_old_tx, old_rx) = mpsc::unbounded_channel();
    app.streamed_jq_output_rx = Some(old_rx);
    app.process_chunk(0, "data: 1\n");
    assert!(matches!(app.step_jq(JqReply::Ready), JqCommand::Spawn(_)));
    let (tx, rx) = mpsc::unbounded_channel();
    let sender = tx.clone();
    assert!(matches!(app.step_jq(JqReply::Started { tx, rx }), JqCommand::Write(_)));
    assert!(sender.send(JqEvent::Output("new".to_string())).is_ok());
    assert!(matches!(&app.drain_jq_output()[..], [JqEvent::Output(line)] if line == "new"));
}

#[test]
fn a_batch_ends_where_jq_cannot_start() {
    let mut batch = JqBatch::new(0, ".", strings(&["1", "2"]));
    batch.record(&JqOutcome::NotStarted("gone".to_string()));
    assert_eq!(batch.next_line(), None);
    assert_eq!(
        batch.output,
        strings(&["\u{1b}[31m// Failed to start jq: gone\u{1b}[0m"])
    );
}

#[test]
fn runs_on_the_response_are_shown() {
    assert_eq!(show_run(&finished(true, "{}\n", "")), "{}\n");
    assert_eq!(show_run(&finished(false, "x", " bad \n")), "jq error: bad");
    assert_eq!(
        show_run(&JqOutcome::NotStarted("gone".to_string())),
        "Failed to run jq: gone"
    );
    assert_eq!(
        show_run(&JqOutcome::NotFinished("lost".to_string())),
        "jq error: lost"
    );
    assert_eq!(show_line("l", &finished(true, "", "")), strings(&[]));
}

#[test]
fn bytes_that_are_not_text_are_replaced() {
    let outcome = JqOutcome::Finished {
        success: true,
        stdout: vec![b'a', 0xff],
        stderr: Vec::new(),
    };
    assert_eq!(show_run(&outcome), "a\u{fffd}");
}

#[test]
fn jq_runs_on_the_whole_response() {
    let mut app = app();
    assert!(app.jq_input().is_none());
    assert_eq!(app.run_jq(&finished(true, "x", "")), "");
    app.per_request.insert(0, PerRequestState::new());
    app.per_request.get_mut(&0).unwrap().last_response = Some(Ok(response("{}")));
    app.requests[0].jq_filter = JqFilter::from("\t");
    let input = app.jq_input().unwrap();
    assert_eq!(input.args, strings(&["--color-output", "."]));
    assert_eq!(input.body, "{}");
    assert_eq!(app.run_jq(&finished(true, "x", "")), "x");
}
