use clever_logs::classify::{BuildSuccessScope, EmphasisStyle};
use clever_logs::decoder::{Decoder, StreamEvent};
use clever_logs::driver::{next_action, retry_notice, EventAction};

const DEPLOYER: &str = "/home/bas/rubydeployer/deployer.rb";

fn block(program: &str, timestamp: &str, message: &str) -> String {
    format!(
        "data: {{\"_source\":{{\"syslog_program\":\"{}\",\"@timestamp\":\"{}\",\"@message\":\"{}\"}}}}\n\n",
        program, timestamp, message
    )
}

#[test]
fn retry_notice_formats_seconds() {
    assert_eq!(retry_notice(42), "Retry: 42s");
    assert_eq!(retry_notice(0), "Retry: 0s");
    assert_eq!(retry_notice(18446744073709551615), "Retry: 18446744073709551615s");
}

#[test]
fn retry_event_becomes_a_diagnostic() {
    let a = next_action(&StreamEvent::Retry { seconds: 5 }, BuildSuccessScope::DeployerOnly);
    assert_eq!(a, EventAction::Diagnostic { text: "Retry: 5s".to_string() });
}

#[test]
fn heartbeat_event_is_skipped_without_diagnostics() {
    let ev = StreamEvent::Message {
        name: None,
        id: None,
        data: b"{\"type\":\"heartbeat\"}".to_vec(),
    };
    let a = next_action(&ev, BuildSuccessScope::DeployerOnly);
    assert_eq!(a, EventAction::Skip);
}

#[test]
fn one_bad_payload_never_stops_the_stream() {
    let mut stream = String::new();
    stream.push_str(&block("app", "T1", "first line"));
    stream.push_str("data: {broken json\n\n");
    stream.push_str(&block("app", "T3", "third line"));

    let mut d = Decoder::new();
    let events = d.push_bytes(stream.as_bytes());
    assert_eq!(events.len(), 3);

    let mut printed = Vec::new();
    let mut diagnostics = Vec::new();
    let mut order = Vec::new();
    for ev in &events {
        match next_action(ev, BuildSuccessScope::DeployerOnly) {
            EventAction::Print { text, .. } => {
                order.push("print");
                printed.push(text);
            }
            EventAction::Diagnostic { text } => {
                order.push("diag");
                diagnostics.push(text);
            }
            EventAction::Skip => order.push("skip"),
        }
    }
    assert_eq!(printed, vec!["T1: first line", "T3: third line"]);
    assert_eq!(diagnostics.len(), 1);
    assert_eq!(order, vec!["print", "diag", "print"]);
}

#[test]
fn classified_line_keeps_its_style_through_the_driver() {
    let text = block(DEPLOYER, "T1", "Successfully deployed in 2s");
    let mut d = Decoder::new();
    let events = d.push_bytes(text.as_bytes());
    assert_eq!(events.len(), 1);
    let a = next_action(&events[0], BuildSuccessScope::DeployerOnly);
    assert_eq!(
        a,
        EventAction::Print {
            text: "T1: Successfully deployed in 2s".to_string(),
            style: EmphasisStyle::Success,
        }
    );
}

#[test]
fn non_text_payload_yields_the_utf8_diagnostic() {
    let ev = StreamEvent::Message { name: None, id: None, data: vec![0xff, 0xfe] };
    let a = next_action(&ev, BuildSuccessScope::DeployerOnly);
    assert_eq!(
        a,
        EventAction::Diagnostic { text: "Invalid UTF-8 sequence in message data".to_string() }
    );
}

#[test]
fn bad_envelope_yields_the_json_diagnostic() {
    let ev = StreamEvent::Message { name: None, id: None, data: b"[]".to_vec() };
    let a = next_action(&ev, BuildSuccessScope::DeployerOnly);
    assert_eq!(
        a,
        EventAction::Diagnostic {
            text: "Could not deserialize JSON from message data".to_string()
        }
    );
}
