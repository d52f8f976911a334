//! Incremental decoder for the line-feed-delimited event-stream wire format.
//!
//! The decoder consumes arbitrary byte chunks and produces discrete stream
//! events.  Lines are terminated by a line feed (an immediately preceding
//! carriage return is stripped); a blank line dispatches the event
//! accumulated since the previous dispatch; `field:value` lines with the
//! recognized fields `event`, `data`, `id` and `retry` fill the accumulator;
//! comment lines (leading `:`) and unrecognized fields are ignored.  The
//! unterminated tail of the input is retained between calls, so decoding is
//! insensitive to where chunk boundaries fall.

use vstd::prelude::*;

use crate::bytes_util::{append_bytes, vec_from_slice};

verus! {

/// Line feed, the line terminator of the wire format.
pub const LF: u8 = 10;

/// Carriage return, stripped when it immediately precedes a line feed.
pub const CR: u8 = 13;

/// Colon, the separator between a field name and its value.
pub const COLON: u8 = 58;

/// Space, stripped once at the start of a field value.
pub const SPACE: u8 = 32;

/// A decoded stream event.
///
/// `Message` carries the event name and id (when given on the wire) and the
/// payload bytes, with consecutive `data:` lines joined by a single line
/// feed.  `Retry` carries the reconnection interval, in seconds, of a block
/// that set `retry` and accumulated no data.
#[derive(Debug, PartialEq, Eq)]
pub enum StreamEvent {
    Message { name: Option<Vec<u8>>, id: Option<Vec<u8>>, data: Vec<u8> },
    Retry { seconds: u64 },
}

/// Mathematical model of a stream event.
pub enum EventModel {
    Message { name: Option<Seq<u8>>, id: Option<Seq<u8>>, data: Seq<u8> },
    Retry { seconds: u64 },
}

pub open spec fn opt_bytes_view(o: Option<Vec<u8>>) -> Option<Seq<u8>> {
    match o {
        Option::None => Option::None,
        Option::Some(v) => Option::Some(v@),
    }
}

impl View for StreamEvent {
    type V = EventModel;

    open spec fn view(&self) -> EventModel {
        match *self {
            StreamEvent::Message { name, id, data } => EventModel::Message {
                name: opt_bytes_view(name),
                id: opt_bytes_view(id),
                data: data@,
            },
            StreamEvent::Retry { seconds } => EventModel::Retry { seconds },
        }
    }
}

/// Mathematical model of the decoder state: the unterminated tail of the
/// input plus the accumulator filled by the lines seen since the last
/// dispatch.  The `id` field is the last event id seen on the wire; it
/// persists across dispatches.
pub struct DecodeState {
    pub pending: Seq<u8>,
    pub name: Option<Seq<u8>>,
    pub id: Option<Seq<u8>>,
    pub data: Seq<u8>,
    pub retry: Option<u64>,
}

/// The state of a decoder that has consumed nothing.
pub open spec fn init_state() -> DecodeState {
    DecodeState {
        pending: Seq::<u8>::empty(),
        name: Option::None,
        id: Option::None,
        data: Seq::<u8>::empty(),
        retry: Option::None,
    }
}

/// A carriage return immediately before the line terminator is not part of
/// the line.
pub open spec fn strip_cr(raw: Seq<u8>) -> Seq<u8> {
    if raw.len() > 0 && raw.last() == CR {
        raw.drop_last()
    } else {
        raw
    }
}

/// One leading space is stripped from a field value.
pub open spec fn strip_space(v: Seq<u8>) -> Seq<u8> {
    if v.len() > 0 && v[0] == SPACE {
        v.drop_first()
    } else {
        v
    }
}

/// The index of the first colon in `l`, or `l.len()` if there is none.
pub open spec fn first_colon(l: Seq<u8>) -> int
    decreases l.len(),
{
    if l.len() == 0 {
        0
    } else if l[0] == COLON {
        0
    } else {
        1 + first_colon(l.drop_first())
    }
}

pub proof fn lemma_first_colon(l: Seq<u8>)
    ensures
        0 <= first_colon(l) <= l.len(),
        forall|k: int| 0 <= k < first_colon(l) ==> l[k] != COLON,
        first_colon(l) < l.len() ==> l[first_colon(l)] == COLON,
    decreases l.len(),
{
    if l.len() == 0 {
    } else if l[0] == COLON {
    } else {
        lemma_first_colon(l.drop_first());
        assert forall|k: int| 0 <= k < first_colon(l) implies l[k] != COLON by {
            if k > 0 {
                assert(l.drop_first()[k - 1] != COLON);
            }
        }
    }
}

/// The byte spelling of the field name `event`.
pub open spec fn spec_field_event() -> Seq<u8> {
    seq![101u8, 118u8, 101u8, 110u8, 116u8]
}

/// The byte spelling of the field name `data`.
pub open spec fn spec_field_data() -> Seq<u8> {
    seq![100u8, 97u8, 116u8, 97u8]
}

/// The byte spelling of the field name `id`.
pub open spec fn spec_field_id() -> Seq<u8> {
    seq![105u8, 100u8]
}

/// The byte spelling of the field name `retry`.
pub open spec fn spec_field_retry() -> Seq<u8> {
    seq![114u8, 101u8, 116u8, 114u8, 121u8]
}

pub open spec fn is_digits(v: Seq<u8>) -> bool {
    forall|i: int| 0 <= i < v.len() ==> 48 <= #[trigger] v[i] <= 57
}

/// The value of a sequence of decimal digit bytes.
pub open spec fn dec_val(v: Seq<u8>) -> nat
    decreases v.len(),
{
    if v.len() == 0 {
        0
    } else {
        (dec_val(v.drop_last()) * 10 + (v.last() - 48)) as nat
    }
}

/// A `retry` value is accepted when it is a non-empty string of decimal
/// digits whose value fits in a `u64`; anything else is ignored.
pub open spec fn parse_retry(v: Seq<u8>) -> Option<u64> {
    if v.len() > 0 && is_digits(v) && dec_val(v) <= u64::MAX {
        Option::Some(dec_val(v) as u64)
    } else {
        Option::None
    }
}

/// Dispatch at a blank line: a block that accumulated data emits a
/// `Message` (with the one trailing joiner line feed removed); a block that
/// set `retry` and accumulated no data emits a `Retry`; an empty block
/// emits nothing.  The per-event accumulator is reset; the last event id
/// persists.
pub open spec fn spec_dispatch(st: DecodeState) -> (DecodeState, Option<EventModel>) {
    let cleared = DecodeState {
        pending: Seq::<u8>::empty(),
        name: Option::None,
        id: st.id,
        data: Seq::<u8>::empty(),
        retry: Option::None,
    };
    if st.data.len() > 0 {
        let payload = if st.data.last() == LF {
            st.data.drop_last()
        } else {
            st.data
        };
        (cleared, Option::Some(EventModel::Message { name: st.name, id: st.id, data: payload }))
    } else if st.retry is Some {
        (cleared, Option::Some(EventModel::Retry { seconds: st.retry->0 }))
    } else {
        (cleared, Option::None)
    }
}

/// Effect of one complete line (terminator already removed) on the decoder
/// state.  The resulting state has an empty pending buffer.
pub open spec fn apply_line(st: DecodeState, raw: Seq<u8>) -> (DecodeState, Option<EventModel>) {
    let base = DecodeState {
        pending: Seq::<u8>::empty(),
        name: st.name,
        id: st.id,
        data: st.data,
        retry: st.retry,
    };
    let line = strip_cr(raw);
    if line.len() == 0 {
        spec_dispatch(base)
    } else if line[0] == COLON {
        (base, Option::None)
    } else {
        let j = first_colon(line);
        let field = line.take(j);
        let has_value = j < line.len();
        let value = line.skip(j + 1);
        if field == spec_field_event() {
            if has_value {
                (DecodeState { name: Option::Some(strip_space(value)), ..base }, Option::None)
            } else {
                (base, Option::None)
            }
        } else if field == spec_field_data() {
            let appended = if has_value {
                strip_space(value)
            } else {
                Seq::<u8>::empty()
            };
            (DecodeState { data: st.data + appended + seq![LF], ..base }, Option::None)
        } else if field == spec_field_id() {
            if has_value && !value.contains(0u8) {
                (DecodeState { id: Option::Some(strip_space(value)), ..base }, Option::None)
            } else {
                (base, Option::None)
            }
        } else if field == spec_field_retry() {
            if has_value && parse_retry(value) is Some {
                (DecodeState { retry: parse_retry(value), ..base }, Option::None)
            } else {
                (base, Option::None)
            }
        } else {
            (base, Option::None)
        }
    }
}

/// Effect of one input byte: a line feed completes the pending line, any
/// other byte extends it.
pub open spec fn feed_byte(st: DecodeState, b: u8) -> (DecodeState, Option<EventModel>) {
    if b == LF {
        apply_line(st, st.pending)
    } else {
        (DecodeState { pending: st.pending.push(b), ..st }, Option::None)
    }
}

pub open spec fn opt_to_seq(ev: Option<EventModel>) -> Seq<EventModel> {
    match ev {
        Option::None => Seq::<EventModel>::empty(),
        Option::Some(e) => seq![e],
    }
}

/// Effect of a whole byte chunk: the resulting state and the events
/// dispatched, in order.
pub open spec fn feed_bytes(st: DecodeState, bytes: Seq<u8>) -> (DecodeState, Seq<EventModel>)
    decreases bytes.len(),
{
    if bytes.len() == 0 {
        (st, Seq::<EventModel>::empty())
    } else {
        let (st1, ev) = feed_byte(st, bytes[0]);
        let (st2, evs) = feed_bytes(st1, bytes.drop_first());
        (st2, opt_to_seq(ev) + evs)
    }
}

/// Whether a byte slice spells the field name `event`.
fn is_event_field(f: &[u8]) -> (r: bool)
    ensures
        r == (f@ == spec_field_event()),
{
    let r = f.len() == 5 && f[0] == 101 && f[1] == 118 && f[2] == 101 && f[3] == 110 && f[4]
        == 116;
    proof {
        if r {
            assert(f@ =~= spec_field_event());
        }
    }
    r
}

/// Whether a byte slice spells the field name `data`.
fn is_data_field(f: &[u8]) -> (r: bool)
    ensures
        r == (f@ == spec_field_data()),
{
    let r = f.len() == 4 && f[0] == 100 && f[1] == 97 && f[2] == 116 && f[3] == 97;
    proof {
        if r {
            assert(f@ =~= spec_field_data());
        }
    }
    r
}

/// Whether a byte slice spells the field name `id`.
fn is_id_field(f: &[u8]) -> (r: bool)
    ensures
        r == (f@ == spec_field_id()),
{
    let r = f.len() == 2 && f[0] == 105 && f[1] == 100;
    proof {
        if r {
            assert(f@ =~= spec_field_id());
        }
    }
    r
}

/// Whether a byte slice spells the field name `retry`.
fn is_retry_field(f: &[u8]) -> (r: bool)
    ensures
        r == (f@ == spec_field_retry()),
{
    let r = f.len() == 5 && f[0] == 114 && f[1] == 101 && f[2] == 116 && f[3] == 114 && f[4]
        == 121;
    proof {
        if r {
            assert(f@ =~= spec_field_retry());
        }
    }
    r
}

/// Whether a byte slice contains a given byte.
fn contains_byte(s: &[u8], b: u8) -> (r: bool)
    ensures
        r == s@.contains(b),
{
    let mut i: usize = 0;
    while i < s.len()
        invariant
            i <= s.len(),
            forall|k: int| 0 <= k < i ==> s@[k] != b,
        decreases s.len() - i,
    {
        if s[i] == b {
            return true;
        }
        i = i + 1;
    }
    false
}

/// Parses a decimal `u64` from a byte slice, exactly as `parse_retry`
/// accepts one.
fn parse_retry_bytes(v: &[u8]) -> (r: Option<u64>)
    ensures
        r == parse_retry(v@),
{
    if v.len() == 0 {
        return None;
    }
    let mut acc: u64 = 0;
    let mut overflow: bool = false;
    let mut i: usize = 0;
    while i < v.len()
        invariant
            i <= v.len(),
            v@.len() > 0,
            forall|k: int| 0 <= k < i ==> 48 <= #[trigger] v@[k] <= 57,
            !overflow ==> acc == dec_val(v@.take(i as int)) && dec_val(v@.take(i as int))
                <= u64::MAX,
            overflow ==> dec_val(v@.take(i as int)) > u64::MAX,
        decreases v.len() - i,
    {
        let b = v[i];
        if b < 48 || b > 57 {
            return None;
        }
        let d: u64 = (b - 48) as u64;
        proof {
            assert(v@.take(i + 1).drop_last() =~= v@.take(i as int));
            assert(v@.take(i + 1).last() == v@[i as int]);
        }
        if overflow {
            proof {
                assert(dec_val(v@.take(i + 1)) == dec_val(v@.take(i as int)) * 10 + d);
                assert(dec_val(v@.take(i as int)) * 10 >= dec_val(v@.take(i as int)))
                    by (nonlinear_arith);
            }
        } else if acc > (u64::MAX - d) / 10 {
            proof {
                assert(dec_val(v@.take(i + 1)) == acc * 10 + d);
                assert(acc * 10 + d > u64::MAX) by (nonlinear_arith)
                    requires
                        acc > (u64::MAX - d) / 10,
                        d <= 9,
                ;
            }
            overflow = true;
        } else {
            proof {
                assert(acc * 10 + d <= u64::MAX) by (nonlinear_arith)
                    requires
                        acc <= (u64::MAX - d) / 10,
                        d <= 9,
                ;
                assert(dec_val(v@.take(i + 1)) == acc * 10 + d);
            }
            acc = acc * 10 + d;
        }
        i = i + 1;
    }
    proof {
        assert(v@.take(v@.len() as int) =~= v@);
    }
    if overflow {
        None
    } else {
        Some(acc)
    }
}

/// Finds the first colon in a byte slice, or its length if there is none.
fn find_colon(s: &[u8]) -> (j: usize)
    ensures
        j == first_colon(s@),
{
    proof {
        lemma_first_colon(s@);
    }
    let mut i: usize = 0;
    while i < s.len()
        invariant
            i <= s.len(),
            forall|k: int| 0 <= k < i ==> s@[k] != COLON,
            0 <= first_colon(s@) <= s@.len(),
            forall|k: int| 0 <= k < first_colon(s@) ==> s@[k] != COLON,
            first_colon(s@) < s@.len() ==> s@[first_colon(s@)] == COLON,
        decreases s.len() - i,
    {
        if s[i] == COLON {
            proof {
                if first_colon(s@) < i {
                    assert(s@[first_colon(s@)] != COLON);
                }
                if first_colon(s@) > i {
                    assert(s@[i as int] != COLON);
                }
            }
            return i;
        }
        i = i + 1;
    }
    proof {
        if first_colon(s@) < s@.len() {
            assert(s@[first_colon(s@)] != COLON);
        }
    }
    i
}

/// The incremental decoder: the pending unterminated line plus the
/// per-event accumulator, as described by [`DecodeState`].
pub struct Decoder {
    pending: Vec<u8>,
    name: Option<Vec<u8>>,
    id: Option<Vec<u8>>,
    data: Vec<u8>,
    retry: Option<u64>,
}

impl View for Decoder {
    type V = DecodeState;

    closed spec fn view(&self) -> DecodeState {
        DecodeState {
            pending: self.pending@,
            name: opt_bytes_view(self.name),
            id: opt_bytes_view(self.id),
            data: self.data@,
            retry: self.retry,
        }
    }
}

pub open spec fn opt_event_view(ev: Option<StreamEvent>) -> Option<EventModel> {
    match ev {
        Option::None => Option::None,
        Option::Some(e) => Option::Some(e@),
    }
}

impl Decoder {
    /// A decoder that has consumed nothing.
    pub fn new() -> (d: Decoder)
        ensures
            d@ == init_state(),
    {
        let d = Decoder {
            pending: Vec::new(),
            name: None,
            id: None,
            data: Vec::new(),
            retry: None,
        };
        proof {
            assert(d@ =~= init_state());
        }
        d
    }

    /// Dispatches the accumulated block, as [`spec_dispatch`] describes.
    fn dispatch(&mut self) -> (ev: Option<StreamEvent>)
        requires
            old(self)@.pending == Seq::<u8>::empty(),
        ensures
            final(self)@ == spec_dispatch(old(self)@).0,
            opt_event_view(ev) == spec_dispatch(old(self)@).1,
    {
        let mut name: Option<Vec<u8>> = None;
        core::mem::swap(&mut name, &mut self.name);
        let mut retry: Option<u64> = None;
        core::mem::swap(&mut retry, &mut self.retry);
        let mut data: Vec<u8> = Vec::new();
        core::mem::swap(&mut data, &mut self.data);
        if data.len() > 0 {
            if data[data.len() - 1] == LF {
                data.pop();
            }
            let id = match &self.id {
                None => None,
                Some(v) => Some(vec_from_slice(v.as_slice())),
            };
            Some(StreamEvent::Message { name, id, data })
        } else if let Some(seconds) = retry {
            Some(StreamEvent::Retry { seconds })
        } else {
            None
        }
    }

    /// Consumes the pending line, as [`apply_line`] describes.
    fn process_line(&mut self) -> (ev: Option<StreamEvent>)
        ensures
            final(self)@ == apply_line(old(self)@, old(self)@.pending).0,
            opt_event_view(ev) == apply_line(old(self)@, old(self)@.pending).1,
    {
        let ghost st = old(self)@;
        let mut line: Vec<u8> = Vec::new();
        core::mem::swap(&mut line, &mut self.pending);
        if line.len() > 0 && line[line.len() - 1] == CR {
            line.pop();
        }
        proof {
            assert(line@ == strip_cr(st.pending));
        }
        if line.len() == 0 {
            return self.dispatch();
        }
        if line[0] == COLON {
            return None;
        }
        let j = find_colon(line.as_slice());
        proof {
            lemma_first_colon(line@);
        }
        let has_value = j < line.len();
        let ghost spec_value = line@.skip(j + 1);
        let field = &line.as_slice()[0..j];
        proof {
            assert(field@ == line@.take(j as int));
            if has_value {
                assert(line@.subrange(j + 1, line@.len() as int) =~= spec_value);
            }
        }
        if is_event_field(field) {
            if has_value {
                let value = strip_space_slice(&line.as_slice()[j + 1..line.len()]);
                self.name = Some(vec_from_slice(value));
                proof {
                    assert(self@.name == Option::Some(strip_space(spec_value)));
                }
            }
            None
        } else if is_data_field(field) {
            if has_value {
                let value = strip_space_slice(&line.as_slice()[j + 1..line.len()]);
                append_bytes(&mut self.data, value);
                self.data.push(LF);
                proof {
                    assert(self@.data =~= st.data + strip_space(spec_value) + seq![LF]);
                }
            } else {
                self.data.push(LF);
                proof {
                    assert(self@.data =~= st.data + Seq::<u8>::empty() + seq![LF]);
                }
            }
            None
        } else if is_id_field(field) {
            if has_value {
                let value = &line.as_slice()[j + 1..line.len()];
                if !contains_byte(value, 0) {
                    self.id = Some(vec_from_slice(strip_space_slice(value)));
                    proof {
                        assert(self@.id == Option::Some(strip_space(spec_value)));
                    }
                }
            }
            None
        } else if is_retry_field(field) {
            if has_value {
                let value = &line.as_slice()[j + 1..line.len()];
                if let Some(seconds) = parse_retry_bytes(value) {
                    self.retry = Some(seconds);
                }
            }
            None
        } else {
            None
        }
    }

    /// Feeds one chunk of input and returns the events it completes, in
    /// order.  Decoding is a pure function of the bytes consumed so far:
    /// where the chunk boundaries fall makes no difference (see
    /// [`lemma_chunk_boundary_invariance`]).
    pub fn push_bytes(&mut self, chunk: &[u8]) -> (events: Vec<StreamEvent>)
        ensures
            final(self)@ == feed_bytes(old(self)@, chunk@).0,
            events@.map_values(|e: StreamEvent| e@) == feed_bytes(old(self)@, chunk@).1,
    {
        let ghost st0 = old(self)@;
        let mut events: Vec<StreamEvent> = Vec::new();
        let mut i: usize = 0;
        while i < chunk.len()
            invariant
                i <= chunk.len(),
                self@ == feed_bytes(st0, chunk@.take(i as int)).0,
                events@.map_values(|e: StreamEvent| e@) == feed_bytes(st0, chunk@.take(i as int)).1,
            decreases chunk.len() - i,
        {
            let ghost pre = self@;
            let ghost evs_pre = events@.map_values(|e: StreamEvent| e@);
            let b = chunk[i];
            let ev: Option<StreamEvent> = if b == LF {
                self.process_line()
            } else {
                self.pending.push(b);
                None
            };
            proof {
                assert(self@ == feed_byte(pre, b).0);
                assert(opt_event_view(ev) == feed_byte(pre, b).1);
            }
            if let Some(e) = ev {
                events.push(e);
            }
            proof {
                lemma_feed_bytes_snoc(st0, chunk@.take(i as int), b);
                assert(chunk@.take(i + 1) =~= chunk@.take(i as int).push(b));
                assert(events@.map_values(|e: StreamEvent| e@) =~= evs_pre + opt_to_seq(
                    feed_byte(pre, b).1,
                ));
            }
            i = i + 1;
        }
        proof {
            assert(chunk@.take(chunk@.len() as int) =~= chunk@);
        }
        events
    }
}

/// One leading space is stripped from a field value.
fn strip_space_slice(v: &[u8]) -> (r: &[u8])
    ensures
        r@ == strip_space(v@),
{
    if v.len() > 0 && v[0] == SPACE {
        &v[1..v.len()]
    } else {
        v
    }
}

/// Chunk-boundary invariance: feeding `a` and then `b` leaves the same
/// state, and dispatches the same events in the same order, as feeding the
/// single chunk `a + b`.  Applied repeatedly, decoding a byte sequence split
/// into arbitrarily many chunks at arbitrary offsets equals decoding it in
/// one piece.
pub proof fn lemma_chunk_boundary_invariance(st: DecodeState, a: Seq<u8>, b: Seq<u8>)
    ensures
        feed_bytes(feed_bytes(st, a).0, b).0 == feed_bytes(st, a + b).0,
        feed_bytes(st, a).1 + feed_bytes(feed_bytes(st, a).0, b).1 == feed_bytes(st, a + b).1,
    decreases a.len(),
{
    if a.len() == 0 {
        assert(a + b =~= b);
        assert(Seq::<EventModel>::empty() + feed_bytes(st, b).1 =~= feed_bytes(st, b).1);
    } else {
        let st1 = feed_byte(st, a[0]).0;
        let ev = feed_byte(st, a[0]).1;
        lemma_chunk_boundary_invariance(st1, a.drop_first(), b);
        assert((a + b)[0] == a[0]);
        assert((a + b).drop_first() =~= a.drop_first() + b);
        assert(feed_bytes(st, a + b).0 == feed_bytes(st1, a.drop_first() + b).0);
        assert(feed_bytes(st, a + b).1 == opt_to_seq(ev) + feed_bytes(st1, a.drop_first() + b).1);
        assert(feed_bytes(st, a).0 == feed_bytes(st1, a.drop_first()).0);
        assert(feed_bytes(st, a).1 == opt_to_seq(ev) + feed_bytes(st1, a.drop_first()).1);
        assert((opt_to_seq(ev) + feed_bytes(st1, a.drop_first()).1) + feed_bytes(
            feed_bytes(st, a).0,
            b,
        ).1 =~= opt_to_seq(ev) + (feed_bytes(st1, a.drop_first()).1 + feed_bytes(
            feed_bytes(st, a).0,
            b,
        ).1));
    }
}

/// Feeding a single byte.
proof fn lemma_feed_single(st: DecodeState, b: u8)
    ensures
        feed_bytes(st, seq![b]).0 == feed_byte(st, b).0,
        feed_bytes(st, seq![b]).1 == opt_to_seq(feed_byte(st, b).1),
{
    assert(seq![b].len() == 1);
    assert(seq![b][0] == b);
    let s1 = feed_byte(st, b).0;
    assert(seq![b].drop_first() =~= Seq::<u8>::empty());
    assert(feed_bytes(s1, seq![b].drop_first()).0 == s1);
    assert(feed_bytes(s1, seq![b].drop_first()).1 == Seq::<EventModel>::empty());
    assert(feed_bytes(st, seq![b]).0 == feed_bytes(s1, seq![b].drop_first()).0);
    assert(feed_bytes(st, seq![b]).1 == opt_to_seq(feed_byte(st, b).1) + feed_bytes(
        s1,
        seq![b].drop_first(),
    ).1);
    assert(opt_to_seq(feed_byte(st, b).1) + Seq::<EventModel>::empty() =~= opt_to_seq(
        feed_byte(st, b).1,
    ));
}

/// The first colon of a line is the colon that no colon precedes.
pub proof fn lemma_first_colon_is(l: Seq<u8>, j: int)
    requires
        0 <= j < l.len(),
        l[j] == COLON,
        forall|k: int| 0 <= k < j ==> l[k] != COLON,
    ensures
        first_colon(l) == j,
{
    lemma_first_colon(l);
    if first_colon(l) < j {
        assert(l[first_colon(l)] != COLON);
    }
    if first_colon(l) > j {
        assert(l[j] != COLON);
    }
}

/// Bytes that contain no line feed only extend the pending line.
proof fn lemma_feed_no_lf(st: DecodeState, bytes: Seq<u8>)
    requires
        forall|i: int| 0 <= i < bytes.len() ==> #[trigger] bytes[i] != LF,
    ensures
        feed_bytes(st, bytes).0 == (DecodeState { pending: st.pending + bytes, ..st }),
        feed_bytes(st, bytes).1 == Seq::<EventModel>::empty(),
    decreases bytes.len(),
{
    if bytes.len() == 0 {
        assert(st.pending + bytes =~= st.pending);
    } else {
        let st1 = feed_byte(st, bytes[0]).0;
        lemma_feed_no_lf(st1, bytes.drop_first());
        assert(st.pending.push(bytes[0]) + bytes.drop_first() =~= st.pending + bytes);
    }
}

/// The wire spelling of a `data` line carrying the value `v`: the field
/// name, a colon, one space, the value, and the line terminator.
pub open spec fn spec_data_line(v: Seq<u8>) -> Seq<u8> {
    spec_field_data() + seq![COLON, SPACE] + v + seq![LF]
}

/// A `data` line appends its value and one line feed to the data buffer
/// and dispatches nothing.
proof fn lemma_feed_data_line(st: DecodeState, v: Seq<u8>)
    requires
        st.pending == Seq::<u8>::empty(),
        forall|i: int| 0 <= i < v.len() ==> #[trigger] v[i] != LF,
        v.len() == 0 || v.last() != CR,
    ensures
        feed_bytes(st, spec_data_line(v)).0 == (DecodeState {
            data: st.data + v + seq![LF],
            ..st
        }),
        feed_bytes(st, spec_data_line(v)).1 == Seq::<EventModel>::empty(),
{
    let head = spec_field_data() + seq![COLON, SPACE] + v;
    assert(spec_data_line(v) =~= head + seq![LF]);
    lemma_chunk_boundary_invariance(st, head, seq![LF]);
    assert(forall|i: int| 0 <= i < head.len() ==> #[trigger] head[i] != LF) by {
        assert(forall|i: int|
            0 <= i < head.len() && i >= 6 ==> #[trigger] head[i] == v[i - 6] && head[i] != LF);
    }
    lemma_feed_no_lf(st, head);
    let st1 = feed_bytes(st, head).0;
    assert(st1.pending =~= head);
    lemma_feed_single(st1, LF);
    assert(feed_byte(st1, LF) == apply_line(st1, st1.pending));
    assert(st1.pending == head);
    let line = strip_cr(head);
    assert(head.len() > 0);
    assert(head.last() != CR) by {
        if v.len() == 0 {
            assert(head.last() == SPACE);
        } else {
            assert(head.last() == v.last());
        }
    }
    assert(line == head);
    assert(line[0] == 100);
    assert(first_colon(line) == 4) by {
        assert(line[4] == COLON);
        assert(line[0] != COLON && line[1] != COLON && line[2] != COLON && line[3] != COLON);
        lemma_first_colon_is(line, 4);
    }
    assert(line.take(4) =~= spec_field_data());
    assert(line.skip(5) =~= seq![SPACE] + v);
    assert(strip_space(line.skip(5)) =~= v) by {
        assert(line.skip(5)[0] == SPACE);
        assert(line.skip(5).drop_first() =~= v);
    }
    assert(apply_line(st1, head).0 == DecodeState { data: st.data + strip_space(line.skip(5)) + seq![LF], ..st });
    assert(st.data + strip_space(line.skip(5)) + seq![LF] =~= st.data + v + seq![LF]);
    assert(Seq::<EventModel>::empty() + opt_to_seq(apply_line(st1, head).1) =~= Seq::<
        EventModel,
    >::empty());
}

/// Multi-line data concatenation: from a block boundary, two consecutive
/// `data:` lines carrying `a` and `b`, followed by the blank dispatch line,
/// dispatch exactly one `Message` whose payload is `a`, a line feed, `b`.
pub proof fn lemma_multi_line_data_concatenation(st: DecodeState, a: Seq<u8>, b: Seq<u8>)
    requires
        st.pending == Seq::<u8>::empty(),
        st.data == Seq::<u8>::empty(),
        forall|i: int| 0 <= i < a.len() ==> #[trigger] a[i] != LF,
        forall|i: int| 0 <= i < b.len() ==> #[trigger] b[i] != LF,
        a.len() == 0 || a.last() != CR,
        b.len() == 0 || b.last() != CR,
    ensures
        feed_bytes(st, spec_data_line(a) + spec_data_line(b) + seq![LF]).1 == seq![
            EventModel::Message { name: st.name, id: st.id, data: a + seq![LF] + b },
        ],
{
    let whole = spec_data_line(a) + spec_data_line(b) + seq![LF];
    lemma_chunk_boundary_invariance(st, spec_data_line(a), spec_data_line(b) + seq![LF]);
    assert(whole =~= spec_data_line(a) + (spec_data_line(b) + seq![LF]));
    lemma_feed_data_line(st, a);
    let st1 = feed_bytes(st, spec_data_line(a)).0;
    lemma_chunk_boundary_invariance(st1, spec_data_line(b), seq![LF]);
    lemma_feed_data_line(st1, b);
    let st2 = feed_bytes(st1, spec_data_line(b)).0;
    assert(st2.data =~= (a + seq![LF]) + b + seq![LF]);
    lemma_feed_single(st2, LF);
    assert(feed_bytes(st2, seq![LF]).1 == opt_to_seq(apply_line(st2, st2.pending).1));
    assert(strip_cr(st2.pending) == st2.pending);
    assert(st2.data.len() > 0 && st2.data.last() == LF);
    assert(st2.data.drop_last() =~= a + seq![LF] + b);
    assert(apply_line(st2, st2.pending).1 == Option::Some(
        EventModel::Message { name: st.name, id: st.id, data: a + seq![LF] + b },
    ));
    assert(feed_bytes(st, whole).1 =~= Seq::<EventModel>::empty() + (Seq::<EventModel>::empty()
        + opt_to_seq(apply_line(st2, st2.pending).1)));
}

/// Feeding one more byte after a sequence is the same as feeding the
/// extended sequence.
proof fn lemma_feed_bytes_snoc(st: DecodeState, bytes: Seq<u8>, b: u8)
    ensures
        feed_bytes(st, bytes.push(b)).0 == feed_byte(feed_bytes(st, bytes).0, b).0,
        feed_bytes(st, bytes.push(b)).1 == feed_bytes(st, bytes).1 + opt_to_seq(
            feed_byte(feed_bytes(st, bytes).0, b).1,
        ),
{
    lemma_chunk_boundary_invariance(st, bytes, seq![b]);
    assert(bytes.push(b) =~= bytes + seq![b]);
    let stn = feed_bytes(st, bytes).0;
    assert(seq![b][0] == b);
    assert(seq![b].drop_first() =~= Seq::<u8>::empty());
    assert(feed_bytes(stn, seq![b]).0 == feed_bytes(feed_byte(stn, b).0, Seq::<u8>::empty()).0);
    assert(feed_bytes(stn, seq![b]).1 =~= opt_to_seq(feed_byte(stn, b).1));
}

/// The state and events of feeding a list of chunks, one after the other.
pub open spec fn feed_chunks(st: DecodeState, chunks: Seq<Seq<u8>>) -> (DecodeState, Seq<
    EventModel,
>)
    decreases chunks.len(),
{
    if chunks.len() == 0 {
        (st, Seq::<EventModel>::empty())
    } else {
        let (st1, evs) = feed_bytes(st, chunks[0]);
        let (st2, rest) = feed_chunks(st1, chunks.drop_first());
        (st2, evs + rest)
    }
}

/// Chunk-boundary invariance for arbitrarily many chunks: decoding a list
/// of chunks, wherever the boundaries fall, leaves the same state and
/// dispatches the same events as decoding their concatenation in one
/// piece.
pub proof fn lemma_chunked_decoding(st: DecodeState, chunks: Seq<Seq<u8>>)
    ensures
        feed_chunks(st, chunks).0 == feed_bytes(st, chunks.flatten()).0,
        feed_chunks(st, chunks).1 == feed_bytes(st, chunks.flatten()).1,
    decreases chunks.len(),
{
    if chunks.len() == 0 {
        assert(chunks.flatten() == Seq::<u8>::empty());
    } else {
        let st1 = feed_bytes(st, chunks[0]).0;
        lemma_chunked_decoding(st1, chunks.drop_first());
        lemma_chunk_boundary_invariance(st, chunks[0], chunks.drop_first().flatten());
        assert(chunks.flatten() == chunks[0] + chunks.drop_first().flatten());
    }
}

} // verus!
