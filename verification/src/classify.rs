//! Interpretation of one message payload: heartbeat suppression, envelope
//! parsing, display classification and line formatting.
//!
//! A payload that contains the heartbeat marker is silently discarded.  Any
//! other payload must be text holding a JSON envelope with a source program,
//! a timestamp and a message; the envelope decides the display emphasis and
//! the formatted output line `<timestamp>: <message>`.

use vstd::prelude::*;
use vstd::utf8::*;
use vstd::string::StringSliceAdditionalSpecFns;
use vstd::string::StrSliceExecFns;
use vstd::string::StringExecFns;

verus! {

/// A parsed log envelope: the program that produced the record, the
/// record's timestamp (opaque, passed through) and its message.
#[derive(Debug)]
pub struct LogEnvelope {
    pub source_program: String,
    pub timestamp: String,
    pub message: String,
}

/// Mathematical model of a log envelope.
pub struct EnvelopeModel {
    pub program: Seq<char>,
    pub timestamp: Seq<char>,
    pub message: Seq<char>,
}

impl View for LogEnvelope {
    type V = EnvelopeModel;

    open spec fn view(&self) -> EnvelopeModel {
        EnvelopeModel {
            program: self.source_program@,
            timestamp: self.timestamp@,
            message: self.message@,
        }
    }
}

/// The display emphasis of a log line.
#[derive(Debug, PartialEq, Eq, Structural, Clone, Copy)]
pub enum EmphasisStyle {
    Plain,
    Success,
    Failure,
    BuildSuccess,
}

/// Whether the build-success rule requires the deployer program, like the
/// two deploy rules, or applies to every program.  Recorded variants of the
/// classification disagree, so the choice is an explicit, testable input.
#[derive(Debug, PartialEq, Eq, Structural, Clone, Copy)]
pub enum BuildSuccessScope {
    DeployerOnly,
    AnyProgram,
}

/// Whether `h` contains `n` as a contiguous subsequence.
pub open spec fn contains_sub(h: Seq<u8>, n: Seq<u8>) -> bool {
    exists|i: int| 0 <= i <= h.len() - n.len() && #[trigger] h.subrange(i, i + n.len()) == n
}

/// The heartbeat marker: the bytes of `"type":"heartbeat"`.
pub open spec fn spec_heartbeat_marker() -> Seq<u8> {
    seq![
        34u8,
        116u8,
        121u8,
        112u8,
        101u8,
        34u8,
        58u8,
        34u8,
        104u8,
        101u8,
        97u8,
        114u8,
        116u8,
        98u8,
        101u8,
        97u8,
        116u8,
        34u8,
    ]
}

/// The heartbeat marker as a byte vector.
pub fn heartbeat_marker() -> (v: Vec<u8>)
    ensures
        v@ == spec_heartbeat_marker(),
{
    let v: Vec<u8> = vec![
        34u8, 116u8, 121u8, 112u8, 101u8, 34u8, 58u8, 34u8, 104u8, 101u8, 97u8, 114u8, 116u8,
        98u8, 101u8, 97u8, 116u8, 34u8,
    ];
    proof {
        assert(v@ =~= spec_heartbeat_marker());
    }
    v
}

/// Whether `h` contains `n` as a contiguous subsequence.
pub fn bytes_contain(h: &[u8], n: &[u8]) -> (r: bool)
    ensures
        r == contains_sub(h@, n@),
{
    if n.len() > h.len() {
        proof {
            assert(!contains_sub(h@, n@));
        }
        return false;
    }
    if n.len() == 0 {
        proof {
            assert(h@.subrange(0, 0 + n@.len() as int) =~= n@);
        }
        return true;
    }
    let mut i: usize = 0;
    while i <= h.len() - n.len()
        invariant
            0 < n.len() <= h.len(),
            i <= h.len() - n.len() + 1,
            forall|k: int| 0 <= k < i ==> #[trigger] h@.subrange(k, k + n@.len()) != n@,
        decreases h.len() - i,
    {
        let mut j: usize = 0;
        let mut matched = true;
        while j < n.len()
            invariant
                n.len() <= h.len(),
                i <= h.len() - n.len(),
                j <= n.len(),
                matched ==> forall|k: int| 0 <= k < j ==> h@[i + k] == n@[k],
                !matched ==> h@.subrange(i as int, i + n@.len()) != n@,
            decreases n.len() - j,
        {
            if h[i + j] != n[j] {
                proof {
                    assert(h@.subrange(i as int, i + n@.len())[j as int] != n@[j as int]);
                }
                matched = false;
                j = n.len();
            } else {
                j = j + 1;
            }
        }
        if matched {
            proof {
                assert(h@.subrange(i as int, i + n@.len()) =~= n@);
            }
            return true;
        }
        i = i + 1;
    }
    proof {
        assert forall|k: int| 0 <= k <= h@.len() - n@.len() implies #[trigger] h@.subrange(
            k,
            k + n@.len(),
        ) != n@ by {
            assert(h@.subrange(k, k + n@.len()) != n@);
        }
    }
    false
}

/// Names the characters of `str::to_lowercase`, which depend on the
/// characters of the input alone.
pub uninterp spec fn lower_of(s: Seq<char>) -> Seq<char>;

/// Relies on `str::to_lowercase`: the result is a function of the input
/// characters alone.
#[verifier::external_body]
fn lowercase(s: &str) -> (r: String)
    ensures
        r@ == lower_of(s@),
{
    s.to_lowercase()
}

/// Relies on `std::str::from_utf8`: it accepts exactly the valid UTF-8
/// byte sequences and returns the string slice viewing those bytes.
#[verifier::external_body]
fn bytes_as_str(v: &[u8]) -> (r: Option<&str>)
    ensures
        r is Some <==> valid_utf8(v@),
        r matches Some(s) ==> s.spec_bytes() == v@,
{
    std::str::from_utf8(v).ok()
}

pub open spec fn opt_string_view(o: Option<String>) -> Option<Seq<char>> {
    match o {
        Option::None => Option::None,
        Option::Some(s) => Option::Some(s@),
    }
}

/// Names the string found by parsing `text` as JSON and reading the string
/// member at `key` inside the object member at `outer`; `None` when `text`
/// is not JSON or the path does not lead to a string.  A function of the
/// arguments alone.
pub uninterp spec fn json_string_at(text: Seq<char>, outer: Seq<char>, key: Seq<char>) -> Option<
    Seq<char>,
>;

/// Relies on `serde_json::from_str`, `serde_json::Value::get` and
/// `serde_json::Value::as_str`: parses `text` and returns the string at
/// `outer`.`key`, when there is one.
#[verifier::external_body]
fn json_get_nested_str(text: &str, outer: &str, key: &str) -> (r: Option<String>)
    ensures
        opt_string_view(r) == json_string_at(text@, outer@, key@),
{
    let v: serde_json::Value = serde_json::from_str(text).ok()?;
    let s = v.get(outer)?.get(key)?.as_str()?;
    Some(s.to_string())
}

/// The envelope a payload text holds: the strings at the wire keys
/// `_source`.`syslog_program`, `_source`.`@timestamp` and
/// `_source`.`@message`, when all three are present.
pub open spec fn spec_parse_envelope(text: Seq<char>) -> Option<EnvelopeModel> {
    let program = json_string_at(text, "_source"@, "syslog_program"@);
    let timestamp = json_string_at(text, "_source"@, "@timestamp"@);
    let message = json_string_at(text, "_source"@, "@message"@);
    if program is Some && timestamp is Some && message is Some {
        Option::Some(
            EnvelopeModel {
                program: program->0,
                timestamp: timestamp->0,
                message: message->0,
            },
        )
    } else {
        Option::None
    }
}

/// Parses a payload text into a log envelope, reading the wire keys with
/// an explicit lookup, as [`spec_parse_envelope`] describes.
pub fn parse_envelope(text: &str) -> (r: Option<LogEnvelope>)
    ensures
        match r {
            Option::Some(env) => spec_parse_envelope(text@) == Option::Some(env@),
            Option::None => spec_parse_envelope(text@) is None,
        },
{
    let program = json_get_nested_str(text, "_source", "syslog_program");
    let timestamp = json_get_nested_str(text, "_source", "@timestamp");
    let message = json_get_nested_str(text, "_source", "@message");
    match (program, timestamp, message) {
        (Some(source_program), Some(timestamp), Some(message)) => Some(
            LogEnvelope { source_program, timestamp, message },
        ),
        _ => None,
    }
}

/// Whether `s` starts with `p`.
pub open spec fn starts_with_chars(s: Seq<char>, p: Seq<char>) -> bool {
    p.len() <= s.len() && s.take(p.len() as int) == p
}

/// Whether `s` starts with `p`.
pub fn str_starts_with(s: &str, p: &str) -> (r: bool)
    ensures
        r == starts_with_chars(s@, p@),
{
    let s_len = s.unicode_len();
    let p_len = p.unicode_len();
    if p_len > s_len {
        return false;
    }
    let mut i: usize = 0;
    while i < p_len
        invariant
            p@.len() <= s@.len(),
            i <= p@.len(),
            p_len == p@.len(),
            forall|k: int| 0 <= k < i ==> s@[k] == p@[k],
        decreases p_len - i,
    {
        if s.get_char(i) != p.get_char(i) {
            proof {
                assert(s@.take(p@.len() as int)[i as int] != p@[i as int]);
            }
            return false;
        }
        i = i + 1;
    }
    proof {
        assert(s@.take(p@.len() as int) =~= p@);
    }
    true
}

/// Whether `s` and `p` are the same characters.
pub fn str_eq_chars(s: &str, p: &str) -> (r: bool)
    ensures
        r == (s@ == p@),
{
    if s.unicode_len() != p.unicode_len() {
        return false;
    }
    let r = str_starts_with(s, p);
    proof {
        assert(s@.take(s@.len() as int) =~= s@);
    }
    r
}

/// The identifier of the deployer process whose records get deploy
/// emphasis.
pub open spec fn spec_deployer_program() -> Seq<char> {
    "/home/bas/rubydeployer/deployer.rb"@
}

/// Whether the record comes from the deployer process.
pub fn is_clever_message(source: &LogEnvelope) -> (r: bool)
    ensures
        r == (source.source_program@ == spec_deployer_program()),
{
    str_eq_chars(source.source_program.as_str(), "/home/bas/rubydeployer/deployer.rb")
}

/// The display emphasis of a record: a pure function of the source program
/// and the lower-cased message.  The two deploy rules require the deployer
/// program; whether the build rule does too is decided by `scope`.
pub open spec fn spec_emphasis(
    program: Seq<char>,
    lower_message: Seq<char>,
    scope: BuildSuccessScope,
) -> EmphasisStyle {
    let deployer = program == spec_deployer_program();
    if deployer && starts_with_chars(lower_message, "successfully deployed in"@) {
        EmphasisStyle::Success
    } else if deployer && starts_with_chars(lower_message, "deploy failed in"@) {
        EmphasisStyle::Failure
    } else if (deployer || scope == BuildSuccessScope::AnyProgram) && starts_with_chars(
        lower_message,
        "build succeeded in"@,
    ) {
        EmphasisStyle::BuildSuccess
    } else {
        EmphasisStyle::Plain
    }
}

/// The display emphasis, from the program name and the already
/// lower-cased message.
pub fn emphasis_of(program: &String, lower_message: &String, scope: BuildSuccessScope) -> (style:
    EmphasisStyle)
    ensures
        style == spec_emphasis(program@, lower_message@, scope),
{
    let deployer = str_eq_chars(program.as_str(), "/home/bas/rubydeployer/deployer.rb");
    if deployer && str_starts_with(lower_message.as_str(), "successfully deployed in") {
        EmphasisStyle::Success
    } else if deployer && str_starts_with(lower_message.as_str(), "deploy failed in") {
        EmphasisStyle::Failure
    } else if (deployer || scope == BuildSuccessScope::AnyProgram) && str_starts_with(
        lower_message.as_str(),
        "build succeeded in",
    ) {
        EmphasisStyle::BuildSuccess
    } else {
        EmphasisStyle::Plain
    }
}

/// The display emphasis of an envelope, lower-casing its message, with the
/// build rule gated on the deployer program as the deploy rules are.
pub fn get_term_emphasis(source: &LogEnvelope) -> (style: EmphasisStyle)
    ensures
        style == spec_emphasis(
            source.source_program@,
            lower_of(source.message@),
            BuildSuccessScope::DeployerOnly,
        ),
{
    let lowered = lowercase(source.message.as_str());
    emphasis_of(&source.source_program, &lowered, BuildSuccessScope::DeployerOnly)
}

/// Why a payload could not be classified.
#[derive(Debug, PartialEq, Eq, Structural, Clone, Copy)]
pub enum ParseError {
    NotText,
    BadEnvelope,
}

/// The fate of one message payload: silently discarded as a heartbeat,
/// rejected with a recoverable error, or formatted for output with a
/// display emphasis.
#[derive(Debug, PartialEq, Eq)]
pub enum PayloadOutcome {
    Heartbeat,
    Invalid { error: ParseError },
    Line { text: String, style: EmphasisStyle },
}

/// Mathematical model of a payload's fate.
pub enum PayloadOutcomeModel {
    Heartbeat,
    Invalid { error: ParseError },
    Line { text: Seq<char>, style: EmphasisStyle },
}

impl View for PayloadOutcome {
    type V = PayloadOutcomeModel;

    open spec fn view(&self) -> PayloadOutcomeModel {
        match self {
            PayloadOutcome::Heartbeat => PayloadOutcomeModel::Heartbeat,
            PayloadOutcome::Invalid { error } => PayloadOutcomeModel::Invalid { error: *error },
            PayloadOutcome::Line { text, style } => PayloadOutcomeModel::Line {
                text: text@,
                style: *style,
            },
        }
    }
}

/// The fate of a payload: a payload containing the heartbeat marker is
/// discarded; otherwise it must be UTF-8 text holding a full envelope,
/// which is formatted as `<timestamp>: <message>` and classified.
pub open spec fn spec_payload_outcome(data: Seq<u8>, scope: BuildSuccessScope) -> PayloadOutcomeModel {
    if contains_sub(data, spec_heartbeat_marker()) {
        PayloadOutcomeModel::Heartbeat
    } else if !valid_utf8(data) {
        PayloadOutcomeModel::Invalid { error: ParseError::NotText }
    } else {
        let text = decode_utf8(data);
        match spec_parse_envelope(text) {
            Option::None => PayloadOutcomeModel::Invalid { error: ParseError::BadEnvelope },
            Option::Some(env) => PayloadOutcomeModel::Line {
                text: env.timestamp + ": "@ + env.message,
                style: spec_emphasis(env.program, lower_of(env.message), scope),
            },
        }
    }
}

/// Classifies one message payload, as [`spec_payload_outcome`] describes.
pub fn handle_payload(data: &[u8], scope: BuildSuccessScope) -> (r: PayloadOutcome)
    ensures
        r@ == spec_payload_outcome(data@, scope),
{
    let marker = heartbeat_marker();
    if bytes_contain(data, marker.as_slice()) {
        return PayloadOutcome::Heartbeat;
    }
    let text = match bytes_as_str(data) {
        None => {
            return PayloadOutcome::Invalid { error: ParseError::NotText };
        },
        Some(text) => text,
    };
    proof {
        encode_utf8_decode_utf8(text@);
        assert(decode_utf8(data@) == text@);
    }
    let env = match parse_envelope(text) {
        None => {
            return PayloadOutcome::Invalid { error: ParseError::BadEnvelope };
        },
        Some(env) => env,
    };
    let lowered = lowercase(env.message.as_str());
    let style = emphasis_of(&env.source_program, &lowered, scope);
    let mut line = env.timestamp;
    line.append(": ");
    line.append(env.message.as_str());
    PayloadOutcome::Line { text: line, style }
}

/// Heartbeat suppression: a payload that contains the heartbeat marker is
/// discarded outright — no output line and no error, whatever the rest of
/// the payload holds.
pub proof fn lemma_heartbeat_suppression(data: Seq<u8>, scope: BuildSuccessScope)
    requires
        contains_sub(data, spec_heartbeat_marker()),
    ensures
        spec_payload_outcome(data, scope) == PayloadOutcomeModel::Heartbeat,
{
}

} // verus!
