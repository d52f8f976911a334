//! Per-event decisions of the consume loop.
//!
//! Every decoded event maps to exactly one action: print a classified
//! line, skip silently, or report a diagnostic.  No event aborts the loop;
//! only the death of the underlying connection — which never reaches this
//! module — ends the stream.

use vstd::prelude::*;

use crate::classify::{
    spec_payload_outcome, handle_payload, BuildSuccessScope, EmphasisStyle, ParseError,
    PayloadOutcome, PayloadOutcomeModel,
};
use crate::decoder::{EventModel, StreamEvent};
use vstd::string::StringExecFns;

verus! {

/// Relies on `String::push`: appends the character to the string.
#[verifier::external_body]
fn push_char(s: &mut String, c: char)
    ensures
        final(s)@ == old(s)@ + seq![c],
{
    s.push(c);
}

/// The character of a decimal digit.
pub open spec fn digit_char(d: nat) -> char {
    if d == 0 {
        '0'
    } else if d == 1 {
        '1'
    } else if d == 2 {
        '2'
    } else if d == 3 {
        '3'
    } else if d == 4 {
        '4'
    } else if d == 5 {
        '5'
    } else if d == 6 {
        '6'
    } else if d == 7 {
        '7'
    } else if d == 8 {
        '8'
    } else {
        '9'
    }
}

/// The decimal digits of a number, most significant first.
pub open spec fn dec_chars(n: nat) -> Seq<char>
    decreases n,
{
    if n < 10 {
        seq![digit_char(n)]
    } else {
        dec_chars(n / 10).push(digit_char(n % 10))
    }
}

/// The character of a decimal digit.
fn digit_char_of(d: u64) -> (c: char)
    requires
        d < 10,
    ensures
        c == digit_char(d as nat),
{
    if d == 0 {
        '0'
    } else if d == 1 {
        '1'
    } else if d == 2 {
        '2'
    } else if d == 3 {
        '3'
    } else if d == 4 {
        '4'
    } else if d == 5 {
        '5'
    } else if d == 6 {
        '6'
    } else if d == 7 {
        '7'
    } else if d == 8 {
        '8'
    } else {
        '9'
    }
}

/// Appends the decimal digits of `n` to `s`.
fn push_dec_chars(s: &mut String, n: u64)
    ensures
        final(s)@ == old(s)@ + dec_chars(n as nat),
    decreases n,
{
    if n >= 10 {
        push_dec_chars(s, n / 10);
    }
    let c = digit_char_of(n % 10);
    push_char(s, c);
    proof {
        if n >= 10 {
            assert(old(s)@ + dec_chars((n / 10) as nat) + seq![digit_char(n as nat % 10)]
                =~= old(s)@ + dec_chars(n as nat));
        } else {
            assert(old(s)@ + seq![digit_char(n as nat)] =~= old(s)@ + dec_chars(n as nat));
        }
    }
}

/// The diagnostic text of a retry event.
pub open spec fn spec_retry_notice(seconds: u64) -> Seq<char> {
    "Retry: "@ + dec_chars(seconds as nat) + "s"@
}

/// The diagnostic text of a retry event.
pub fn retry_notice(seconds: u64) -> (s: String)
    ensures
        s@ == spec_retry_notice(seconds),
{
    let mut s = String::from_str("Retry: ");
    push_dec_chars(&mut s, seconds);
    push_char(&mut s, 's');
    proof {
        reveal_strlit("s");
        assert("s"@ =~= seq!['s']);
    }
    s
}

/// The diagnostic text of a payload that could not be classified.
pub open spec fn spec_parse_error_text(error: ParseError) -> Seq<char> {
    match error {
        ParseError::NotText => "Invalid UTF-8 sequence in message data"@,
        ParseError::BadEnvelope => "Could not deserialize JSON from message data"@,
    }
}

/// The diagnostic text of a payload that could not be classified.
pub fn parse_error_text(error: ParseError) -> (s: String)
    ensures
        s@ == spec_parse_error_text(error),
{
    match error {
        ParseError::NotText => String::from_str("Invalid UTF-8 sequence in message data"),
        ParseError::BadEnvelope => String::from_str(
            "Could not deserialize JSON from message data",
        ),
    }
}

/// The one action an event maps to: print a classified line, skip
/// silently, or report a diagnostic and go on.
#[derive(Debug, PartialEq, Eq)]
pub enum EventAction {
    Print { text: String, style: EmphasisStyle },
    Skip,
    Diagnostic { text: String },
}

/// Mathematical model of an event's action.
pub enum EventActionModel {
    Print { text: Seq<char>, style: EmphasisStyle },
    Skip,
    Diagnostic { text: Seq<char> },
}

impl View for EventAction {
    type V = EventActionModel;

    open spec fn view(&self) -> EventActionModel {
        match self {
            EventAction::Print { text, style } => EventActionModel::Print {
                text: text@,
                style: *style,
            },
            EventAction::Skip => EventActionModel::Skip,
            EventAction::Diagnostic { text } => EventActionModel::Diagnostic { text: text@ },
        }
    }
}

/// The action of one decoded event.  A retry event is informational; a
/// message is classified, and classification failure yields a diagnostic,
/// never a halt.
pub open spec fn spec_next_action(ev: EventModel, scope: BuildSuccessScope) -> EventActionModel {
    match ev {
        EventModel::Retry { seconds } => EventActionModel::Diagnostic {
            text: spec_retry_notice(seconds),
        },
        EventModel::Message { name: _, id: _, data } => match spec_payload_outcome(data, scope) {
            PayloadOutcomeModel::Heartbeat => EventActionModel::Skip,
            PayloadOutcomeModel::Invalid { error } => EventActionModel::Diagnostic {
                text: spec_parse_error_text(error),
            },
            PayloadOutcomeModel::Line { text, style } => EventActionModel::Print { text, style },
        },
    }
}

/// Decides the action of one decoded event, as [`spec_next_action`]
/// describes.  Total: every event gets an action, so no single event can
/// end the loop.
pub fn next_action(event: &StreamEvent, scope: BuildSuccessScope) -> (a: EventAction)
    ensures
        a@ == spec_next_action(event@, scope),
{
    match event {
        StreamEvent::Retry { seconds } => EventAction::Diagnostic { text: retry_notice(*seconds) },
        StreamEvent::Message { name: _, id: _, data } => {
            match handle_payload(data.as_slice(), scope) {
                PayloadOutcome::Heartbeat => EventAction::Skip,
                PayloadOutcome::Invalid { error } => EventAction::Diagnostic {
                    text: parse_error_text(error),
                },
                PayloadOutcome::Line { text, style } => EventAction::Print { text, style },
            }
        },
    }
}

/// Whether an HTTP status at connect time opens the stream.  Only a
/// success status does; any other status is a fatal connection error, and
/// there is no automatic reconnect.
pub fn status_opens_stream(status: u16) -> (r: bool)
    ensures
        r == (200 <= status <= 299),
{
    200 <= status && status <= 299
}

} // verus!
