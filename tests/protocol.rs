use mlr::protocol::{next_step, output_line, output_payload, request_line, timed_result, ProtocolStep, OUTPUT_PREFIX};
use mlr::{PlayerOutput, RunnerError};
use std::time::Duration;

#[test]
fn output_line_round_trips() {
    let payloads = ["", "{\"actions\":[],\"memory\":null}", "__mlr_output:twice", "ünïcödé"];
    for p in payloads.iter() {
        let line = output_line(p);
        assert_eq!(output_payload(&line), Some(*p));
    }
}

#[test]
fn output_line_starts_with_marker() {
    assert_eq!(output_line("{}"), "__mlr_output:{}");
    assert_eq!(OUTPUT_PREFIX, "__mlr_output:");
}

#[test]
fn diagnostic_lines_carry_no_payload() {
    assert_eq!(output_payload("hello"), None);
    assert_eq!(output_payload(" __mlr_output:{}"), None);
    assert_eq!(output_payload("__mlr_output"), None);
    assert_eq!(output_payload(""), None);
}

#[test]
fn request_line_ends_with_newline() {
    assert_eq!(request_line("{\"turn\":1}"), "{\"turn\":1}\n");
    assert_eq!(request_line(""), "\n");
}

#[test]
fn next_step_decides_per_event() {
    match next_step(Some("log line".to_string())) {
        ProtocolStep::Forward(l) => assert_eq!(l, "log line"),
        other => panic!("unexpected {:?}", other),
    }
    match next_step(Some("__mlr_output:{\"a\":1}".to_string())) {
        ProtocolStep::Output(p) => assert_eq!(p, "{\"a\":1}"),
        other => panic!("unexpected {:?}", other),
    }
    match next_step(None) {
        ProtocolStep::Failed(RunnerError::NoData) => {}
        other => panic!("unexpected {:?}", other),
    }
}

#[test]
fn stream_is_read_up_to_the_output_line() {
    let lines = vec!["starting", "thinking...", "__mlr_output:{\"x\":2}", "late"];
    let mut forwarded = Vec::new();
    let mut output = None;
    for l in lines {
        match next_step(Some(l.to_string())) {
            ProtocolStep::Forward(f) => forwarded.push(f),
            ProtocolStep::Output(p) => {
                output = Some(p);
                break;
            }
            ProtocolStep::Failed(_) => unreachable!(),
        }
    }
    assert_eq!(forwarded, vec!["starting", "thinking..."]);
    assert_eq!(output.unwrap(), "{\"x\":2}");
}

#[test]
fn deadline_turns_into_timeout() {
    let limit = Duration::from_millis(10);
    match timed_result(None, limit) {
        Err(RunnerError::Timeout(d)) => assert_eq!(d, limit),
        other => panic!("unexpected {:?}", other),
    }
    match timed_result(Some(Err(RunnerError::IO("broken pipe".to_string()))), limit) {
        Err(RunnerError::IO(m)) => assert_eq!(m, "broken pipe"),
        other => panic!("unexpected {:?}", other),
    }
    let ok = timed_result(
        Some(Ok(PlayerOutput { actions: vec![], memory: serde_json::Value::Null })),
        limit,
    );
    assert!(ok.unwrap().actions.is_empty());
}
