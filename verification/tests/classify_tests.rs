use clever_logs::classify::{
    get_term_emphasis, handle_payload, is_clever_message, parse_envelope, BuildSuccessScope,
    EmphasisStyle, LogEnvelope, ParseError, PayloadOutcome,
};

const DEPLOYER: &str = "/home/bas/rubydeployer/deployer.rb";

fn payload(program: &str, timestamp: &str, message: &str) -> String {
    format!(
        "{{\"_source\":{{\"syslog_program\":\"{}\",\"@timestamp\":\"{}\",\"@message\":\"{}\"}}}}",
        program.replace('/', "\\/"),
        timestamp,
        message
    )
}

#[test]
fn heartbeat_payload_is_discarded() {
    let out = handle_payload(
        b"{\"type\":\"heartbeat\"}",
        BuildSuccessScope::DeployerOnly,
    );
    assert_eq!(out, PayloadOutcome::Heartbeat);
}

#[test]
fn heartbeat_marker_anywhere_suppresses() {
    let text = format!("junk {} junk", "\"type\":\"heartbeat\"");
    let out = handle_payload(text.as_bytes(), BuildSuccessScope::DeployerOnly);
    assert_eq!(out, PayloadOutcome::Heartbeat);
}

#[test]
fn successful_deploy_is_classified_and_formatted() {
    let text = payload(DEPLOYER, "T1", "Successfully deployed in 2s");
    let out = handle_payload(text.as_bytes(), BuildSuccessScope::DeployerOnly);
    match out {
        PayloadOutcome::Line { text, style } => {
            assert_eq!(text, "T1: Successfully deployed in 2s");
            assert_eq!(style, EmphasisStyle::Success);
        }
        other => panic!("expected a line, got {:?}", other),
    }
}

#[test]
fn failed_deploy_is_classified_failure() {
    let text = payload(DEPLOYER, "T2", "Deploy failed in 9s");
    let out = handle_payload(text.as_bytes(), BuildSuccessScope::DeployerOnly);
    match out {
        PayloadOutcome::Line { text, style } => {
            assert_eq!(text, "T2: Deploy failed in 9s");
            assert_eq!(style, EmphasisStyle::Failure);
        }
        other => panic!("expected a line, got {:?}", other),
    }
}

#[test]
fn build_success_needs_deployer_under_deployer_only_scope() {
    let text = payload("other-program", "T3", "Build succeeded in 3s");
    let out = handle_payload(text.as_bytes(), BuildSuccessScope::DeployerOnly);
    match out {
        PayloadOutcome::Line { style, .. } => assert_eq!(style, EmphasisStyle::Plain),
        other => panic!("expected a line, got {:?}", other),
    }
}

#[test]
fn build_success_applies_anywhere_under_any_program_scope() {
    let text = payload("other-program", "T3", "Build succeeded in 3s");
    let out = handle_payload(text.as_bytes(), BuildSuccessScope::AnyProgram);
    match out {
        PayloadOutcome::Line { style, .. } => assert_eq!(style, EmphasisStyle::BuildSuccess),
        other => panic!("expected a line, got {:?}", other),
    }
}

#[test]
fn build_success_from_deployer_is_classified_either_way() {
    let text = payload(DEPLOYER, "T4", "Build succeeded in 3s");
    for scope in [BuildSuccessScope::DeployerOnly, BuildSuccessScope::AnyProgram] {
        match handle_payload(text.as_bytes(), scope) {
            PayloadOutcome::Line { style, .. } => assert_eq!(style, EmphasisStyle::BuildSuccess),
            other => panic!("expected a line, got {:?}", other),
        }
    }
}

#[test]
fn ordinary_message_gets_no_emphasis() {
    let text = payload(DEPLOYER, "T5", "listening on port 8080");
    let out = handle_payload(text.as_bytes(), BuildSuccessScope::DeployerOnly);
    match out {
        PayloadOutcome::Line { text, style } => {
            assert_eq!(text, "T5: listening on port 8080");
            assert_eq!(style, EmphasisStyle::Plain);
        }
        other => panic!("expected a line, got {:?}", other),
    }
}

#[test]
fn invalid_json_is_a_recoverable_parse_error() {
    let out = handle_payload(b"not json at all", BuildSuccessScope::DeployerOnly);
    assert_eq!(out, PayloadOutcome::Invalid { error: ParseError::BadEnvelope });
}

#[test]
fn missing_required_field_is_a_parse_error() {
    let text = "{\"_source\":{\"syslog_program\":\"p\",\"@timestamp\":\"T\"}}";
    let out = handle_payload(text.as_bytes(), BuildSuccessScope::DeployerOnly);
    assert_eq!(out, PayloadOutcome::Invalid { error: ParseError::BadEnvelope });
}

#[test]
fn empty_payload_is_a_parse_error() {
    let out = handle_payload(b"", BuildSuccessScope::DeployerOnly);
    assert_eq!(out, PayloadOutcome::Invalid { error: ParseError::BadEnvelope });
}

#[test]
fn non_text_payload_is_a_parse_error() {
    let out = handle_payload(&[0xff, 0xfe, 0x41], BuildSuccessScope::DeployerOnly);
    assert_eq!(out, PayloadOutcome::Invalid { error: ParseError::NotText });
}

#[test]
fn parse_envelope_reads_the_wire_keys() {
    let text = payload("prog", "2020-05-27T12:00:00Z", "hello");
    let env = parse_envelope(&text).expect("envelope expected");
    assert_eq!(env.source_program, "prog");
    assert_eq!(env.timestamp, "2020-05-27T12:00:00Z");
    assert_eq!(env.message, "hello");
}

#[test]
fn parse_envelope_rejects_non_object_source() {
    assert!(parse_envelope("{\"_source\":3}").is_none());
    assert!(parse_envelope("[1,2,3]").is_none());
}

#[test]
fn is_clever_message_matches_the_deployer_program() {
    let yes = LogEnvelope {
        source_program: DEPLOYER.to_string(),
        timestamp: "T".to_string(),
        message: "m".to_string(),
    };
    let no = LogEnvelope {
        source_program: "syslog".to_string(),
        timestamp: "T".to_string(),
        message: "m".to_string(),
    };
    assert!(is_clever_message(&yes));
    assert!(!is_clever_message(&no));
}

#[test]
fn get_term_emphasis_gates_every_rule_on_the_deployer() {
    let env = |program: &str, message: &str| LogEnvelope {
        source_program: program.to_string(),
        timestamp: "T".to_string(),
        message: message.to_string(),
    };
    assert_eq!(
        get_term_emphasis(&env(DEPLOYER, "Successfully deployed in 2s")),
        EmphasisStyle::Success
    );
    assert_eq!(
        get_term_emphasis(&env(DEPLOYER, "Deploy failed in 2s")),
        EmphasisStyle::Failure
    );
    assert_eq!(
        get_term_emphasis(&env(DEPLOYER, "Build succeeded in 2s")),
        EmphasisStyle::BuildSuccess
    );
    assert_eq!(
        get_term_emphasis(&env("other", "Build succeeded in 2s")),
        EmphasisStyle::Plain
    );
}

#[test]
fn classification_lowercases_the_message() {
    let text = payload(DEPLOYER, "T6", "SUCCESSFULLY DEPLOYED IN 1s");
    let out = handle_payload(text.as_bytes(), BuildSuccessScope::DeployerOnly);
    match out {
        PayloadOutcome::Line { text, style } => {
            assert_eq!(text, "T6: SUCCESSFULLY DEPLOYED IN 1s");
            assert_eq!(style, EmphasisStyle::Success);
        }
        other => panic!("expected a line, got {:?}", other),
    }
}
