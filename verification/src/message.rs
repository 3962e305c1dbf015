//! Low-level messages as they come in or go out over the websocket.
//!
//! A message starts with a magic byte: `0xF3` for ordinary messages, which then carry a message
//! type byte (the high bit marks encryption), or `0xF0` for a ping result.
use vstd::prelude::*;

use crate::codec::{
    after, cons, distinct_keys, lemma_prepend_cons, lemma_prepend_done, lemma_prepend_empty,
    lemma_then_assoc, lemma_then_empty, lemma_value_roundtrip, parse_value, prepend, read_value,
    rest, then, value_result, write_value, wrote,
};
use crate::error::{ReadError, WriteError};
use crate::ordered_map::{lemma_keys_differ, index_of, insert_all, insert_entry, keys_unique, lemma_index_of_unique, lemma_insert_all_unique, OrderedMap};
use crate::value::PhotonDataType;
use crate::value::PhotonValue;
use crate::wire::{i16_at, i16_be, i32_at, i32_be, lemma_i16_roundtrip, lemma_i32_roundtrip, read_i16, read_i32, write_bytes, write_i16, write_i32};

verus! {

/// The parameters of a message, keyed by parameter code.
pub type ParameterMap = OrderedMap<u8, PhotonDataType>;

/// The parameters of a message, as a model.
pub type Params = Seq<(u8, PhotonValue)>;

pub open spec fn params_view(s: Seq<(u8, PhotonDataType)>) -> Params {
    s.map_values(|e: (u8, PhotonDataType)| (e.0, e.1@))
}

/// The outcome of reading: a value, an error, or an input on which reading cannot complete
/// because it asks for a parameter map with a negative capacity.
pub enum Outcome<T> {
    Parsed(T),
    Failed(ReadError),
    Panics,
}

/// The model of a [PhotonMessage].
pub enum MessageModel {
    Init,
    InitResponse,
    OperationRequest(u8, Params),
    OperationResponse(u8, i16, Option<Seq<char>>, Params),
    EventData(u8, Params),
    DisconnectMessage(i16, Option<Seq<char>>, Params),
    InternalOperationRequest(u8, Params),
    InternalOperationResponse(u8, i16, Option<Seq<char>>, Params),
    Message(PhotonValue),
    RawMessage(Seq<u8>),
    PingResult(i32, i32),
}

/// Describes a low-level message that comes in or goes out over the wire.
#[derive(Debug)]
pub enum PhotonMessage {
    /// Message type 0x00
    Init,
    /// Message type 0x01, indicates that connection has been established.
    InitResponse,
    /// Message type 0x02
    OperationRequest(OperationRequest),
    /// Message type 0x03
    OperationResponse(OperationResponse),
    /// Message type 0x04
    EventData(EventData),
    /// Message type 0x05
    DisconnectMessage(DisconnectMessage),
    /// Message type 0x06
    InternalOperationRequest(OperationRequest),
    /// Message type 0x07
    InternalOperationResponse(OperationResponse),
    /// Message type 0x08
    Message(PhotonDataType),
    /// Message type 0x09, payload data does not seem to be used.
    RawMessage(Vec<u8>),
    /// S->C message with magic number 0xF0, the client will calculate roundtrip time and server
    /// time offset.
    PingResult(PingResult),
}

#[derive(Debug)]
pub struct PingResult {
    server_sent_time: i32,
    client_sent_time: i32,
}

#[derive(Debug)]
pub struct OperationRequest {
    pub operation_code: u8,
    pub parameters: ParameterMap,
}

#[derive(Debug)]
pub struct OperationResponse {
    pub operation_code: u8,
    pub return_code: i16,
    pub debug_message: Option<String>,
    pub parameters: ParameterMap,
}

#[derive(Debug)]
pub struct EventData {
    pub code: u8,
    pub parameters: ParameterMap,
}

#[derive(Debug)]
pub struct DisconnectMessage {
    pub code: i16,
    pub debug_message: Option<String>,
    pub parameters: ParameterMap,
}

pub open spec fn opt_string_view(s: Option<String>) -> Option<Seq<char>> {
    match s {
        Some(x) => Some(x@),
        None => None,
    }
}

impl View for PingResult {
    type V = (i32, i32);

    closed spec fn view(&self) -> (i32, i32) {
        (self.server_sent_time, self.client_sent_time)
    }
}

impl View for PhotonMessage {
    type V = MessageModel;

    open spec fn view(&self) -> MessageModel {
        match self {
            PhotonMessage::Init => MessageModel::Init,
            PhotonMessage::InitResponse => MessageModel::InitResponse,
            PhotonMessage::OperationRequest(r) => MessageModel::OperationRequest(r.operation_code, params_view(r.parameters.entries())),
            PhotonMessage::OperationResponse(r) => MessageModel::OperationResponse(r.operation_code, r.return_code, opt_string_view(r.debug_message), params_view(r.parameters.entries())),
            PhotonMessage::EventData(e) => MessageModel::EventData(e.code, params_view(e.parameters.entries())),
            PhotonMessage::DisconnectMessage(d) => MessageModel::DisconnectMessage(d.code, opt_string_view(d.debug_message), params_view(d.parameters.entries())),
            PhotonMessage::InternalOperationRequest(r) => MessageModel::InternalOperationRequest(r.operation_code, params_view(r.parameters.entries())),
            PhotonMessage::InternalOperationResponse(r) => MessageModel::InternalOperationResponse(r.operation_code, r.return_code, opt_string_view(r.debug_message), params_view(r.parameters.entries())),
            PhotonMessage::Message(v) => MessageModel::Message(v@),
            PhotonMessage::RawMessage(x) => MessageModel::RawMessage(x@),
            PhotonMessage::PingResult(p) => MessageModel::PingResult(p@.0, p@.1),
        }
    }
}

/* Writing */

/// The debug message as a value: a string, or null when there is none.
pub open spec fn debug_value(dm: Option<Seq<char>>) -> PhotonValue {
    match dm {
        Some(s) => PhotonValue::String(s),
        None => PhotonValue::Null,
    }
}

pub open spec fn entries_result(ps: Params) -> Result<Seq<u8>, WriteError>
    decreases ps.len(),
{
    if ps.len() == 0 {
        Ok(Seq::empty())
    } else {
        then(entries_result(ps.drop_last()), after(seq![ps.last().0], value_result(ps.last().1)))
    }
}

/// A parameter dictionary: a 16-bit count, then each parameter code and value.
pub open spec fn dict_result(ps: Params) -> Result<Seq<u8>, WriteError> {
    if ps.len() > 32767 {
        Err(WriteError::ValueTooLarge("Custom Data"))
    } else {
        after(i16_be(ps.len() as i16), entries_result(ps))
    }
}

/// The bytes of a message without its magic and type bytes.
pub open spec fn body_result(m: MessageModel) -> Result<Seq<u8>, WriteError> {
    match m {
        MessageModel::Init => Err(WriteError::Unimplemented("Init message serialization")),
        MessageModel::InitResponse => Ok(seq![0u8]),
        MessageModel::OperationRequest(c, ps) => after(seq![c], dict_result(ps)),
        MessageModel::OperationResponse(c, rc, dm, ps) => after(seq![c] + i16_be(rc), then(value_result(debug_value(dm)), dict_result(ps))),
        MessageModel::EventData(c, ps) => after(seq![c], dict_result(ps)),
        MessageModel::DisconnectMessage(c, dm, ps) => after(i16_be(c), then(value_result(debug_value(dm)), dict_result(ps))),
        MessageModel::InternalOperationRequest(c, ps) => after(seq![c], dict_result(ps)),
        MessageModel::InternalOperationResponse(c, rc, dm, ps) => after(seq![c] + i16_be(rc), then(value_result(debug_value(dm)), dict_result(ps))),
        MessageModel::Message(v) => value_result(v),
        MessageModel::RawMessage(x) => Ok(x),
        MessageModel::PingResult(s, c) => Ok(i32_be(s) + i32_be(c)),
    }
}

/// The message type byte of a message; a ping result has none.
pub open spec fn type_byte(m: MessageModel) -> Option<u8> {
    match m {
        MessageModel::Init => Some(0u8),
        MessageModel::InitResponse => Some(1u8),
        MessageModel::OperationRequest(..) => Some(2u8),
        MessageModel::OperationResponse(..) => Some(3u8),
        MessageModel::EventData(..) => Some(4u8),
        MessageModel::DisconnectMessage(..) => Some(5u8),
        MessageModel::InternalOperationRequest(..) => Some(6u8),
        MessageModel::InternalOperationResponse(..) => Some(7u8),
        MessageModel::Message(..) => Some(8u8),
        MessageModel::RawMessage(..) => Some(9u8),
        MessageModel::PingResult(..) => None,
    }
}

/// The bytes of a message as sent over the websocket.
pub open spec fn websocket_result(m: MessageModel) -> Result<Seq<u8>, WriteError> {
    match type_byte(m) {
        Some(t) => after(seq![0xF3u8, t], body_result(m)),
        None => after(seq![0xF0u8], body_result(m)),
    }
}

/* Reading */

/// Reads `n` parameters: each a parameter code and a value.
pub open spec fn parse_entries(s: Seq<u8>, n: int) -> Result<(Params, int), ReadError>
    decreases s.len(), n,
{
    if n <= 0 {
        Ok((Seq::empty(), 0))
    } else if s.len() < 1 {
        Err(ReadError::NotEnoughBytesLeft)
    } else {
        match parse_value(s.subrange(1, s.len() as int)) {
            Err(e) => Err(e),
            Ok((v, k)) => if 0 <= k <= s.len() - 1 {
                cons((s[0], v), 1 + k, parse_entries(s.subrange(1 + k, s.len() as int), n - 1))
            } else {
                Err(ReadError::NotEnoughBytesLeft)
            },
        }
    }
}

/// Reads a parameter dictionary; a repeated code keeps its first place and takes the later value.
pub open spec fn parse_dict(s: Seq<u8>) -> Outcome<Params> {
    if s.len() < 2 {
        Outcome::Failed(ReadError::NotEnoughBytesLeft)
    } else if i16_at(s) < 0 {
        Outcome::Panics
    } else {
        match parse_entries(s.subrange(2, s.len() as int), i16_at(s) as int) {
            Ok((es, _)) => Outcome::Parsed(insert_all(es)),
            Err(e) => Outcome::Failed(e),
        }
    }
}

/// Reads the debug message of a response or disconnect message.
pub open spec fn parse_debug(s: Seq<u8>) -> Result<(Option<Seq<char>>, int), ReadError> {
    match parse_value(s) {
        Err(e) => Err(e),
        Ok((PhotonValue::String(x), k)) => Ok((Some(x), k)),
        Ok((PhotonValue::Null, k)) => Ok((None, k)),
        Ok(_) => Err(ReadError::UnexpectedData("expected string or null in operation response debug message")),
    }
}

pub open spec fn parse_request(s: Seq<u8>) -> Outcome<(u8, Params)> {
    if s.len() < 1 {
        Outcome::Failed(ReadError::NotEnoughBytesLeft)
    } else {
        match parse_dict(s.subrange(1, s.len() as int)) {
            Outcome::Parsed(ps) => Outcome::Parsed((s[0], ps)),
            Outcome::Failed(e) => Outcome::Failed(e),
            Outcome::Panics => Outcome::Panics,
        }
    }
}

pub open spec fn parse_response(s: Seq<u8>) -> Outcome<(u8, i16, Option<Seq<char>>, Params)> {
    if s.len() < 3 {
        Outcome::Failed(ReadError::NotEnoughBytesLeft)
    } else {
        match parse_debug(s.subrange(3, s.len() as int)) {
            Err(e) => Outcome::Failed(e),
            Ok((dm, k)) => if 0 <= k <= s.len() - 3 {
                match parse_dict(s.subrange(3 + k, s.len() as int)) {
                    Outcome::Parsed(ps) => Outcome::Parsed((s[0], i16_at(s.subrange(1, s.len() as int)), dm, ps)),
                    Outcome::Failed(e) => Outcome::Failed(e),
                    Outcome::Panics => Outcome::Panics,
                }
            } else {
                Outcome::Failed(ReadError::NotEnoughBytesLeft)
            },
        }
    }
}

pub open spec fn parse_disconnect(s: Seq<u8>) -> Outcome<(i16, Option<Seq<char>>, Params)> {
    if s.len() < 2 {
        Outcome::Failed(ReadError::NotEnoughBytesLeft)
    } else {
        match parse_debug(s.subrange(2, s.len() as int)) {
            Err(e) => Outcome::Failed(e),
            Ok((dm, k)) => if 0 <= k <= s.len() - 2 {
                match parse_dict(s.subrange(2 + k, s.len() as int)) {
                    Outcome::Parsed(ps) => Outcome::Parsed((i16_at(s), dm, ps)),
                    Outcome::Failed(e) => Outcome::Failed(e),
                    Outcome::Panics => Outcome::Panics,
                }
            } else {
                Outcome::Failed(ReadError::NotEnoughBytesLeft)
            },
        }
    }
}

pub open spec fn parse_ping(s: Seq<u8>) -> Outcome<(i32, i32)> {
    if s.len() < 8 {
        Outcome::Failed(ReadError::NotEnoughBytesLeft)
    } else {
        Outcome::Parsed((i32_at(s), i32_at(s.subrange(4, s.len() as int))))
    }
}

/// Reads the body of a message of type `t`.
pub open spec fn parse_body(t: u8, body: Seq<u8>) -> Outcome<MessageModel> {
    if t == 1 {
        Outcome::Parsed(MessageModel::InitResponse)
    } else if t == 2 || t == 6 {
        match parse_request(body) {
            Outcome::Parsed((c, ps)) => Outcome::Parsed(if t == 2 { MessageModel::OperationRequest(c, ps) } else { MessageModel::InternalOperationRequest(c, ps) }),
            Outcome::Failed(e) => Outcome::Failed(e),
            Outcome::Panics => Outcome::Panics,
        }
    } else if t == 3 || t == 7 {
        match parse_response(body) {
            Outcome::Parsed((c, rc, dm, ps)) => Outcome::Parsed(if t == 3 { MessageModel::OperationResponse(c, rc, dm, ps) } else { MessageModel::InternalOperationResponse(c, rc, dm, ps) }),
            Outcome::Failed(e) => Outcome::Failed(e),
            Outcome::Panics => Outcome::Panics,
        }
    } else if t == 4 {
        match parse_request(body) {
            Outcome::Parsed((c, ps)) => Outcome::Parsed(MessageModel::EventData(c, ps)),
            Outcome::Failed(e) => Outcome::Failed(e),
            Outcome::Panics => Outcome::Panics,
        }
    } else if t == 5 {
        match parse_disconnect(body) {
            Outcome::Parsed((c, dm, ps)) => Outcome::Parsed(MessageModel::DisconnectMessage(c, dm, ps)),
            Outcome::Failed(e) => Outcome::Failed(e),
            Outcome::Panics => Outcome::Panics,
        }
    } else if t == 8 {
        match parse_value(body) {
            Ok((v, _)) => Outcome::Parsed(MessageModel::Message(v)),
            Err(e) => Outcome::Failed(e),
        }
    } else if t == 9 {
        Outcome::Parsed(MessageModel::RawMessage(body))
    } else {
        Outcome::Failed(ReadError::UnknownMessageType(t))
    }
}

/// Reads a message with magic number 0xF3, from its type byte on.
pub open spec fn parse_f3(s: Seq<u8>) -> Outcome<MessageModel> {
    if s.len() < 2 {
        Outcome::Failed(ReadError::NotEnoughBytesLeft)
    } else if s[0] & 0x80u8 > 0 {
        Outcome::Failed(ReadError::Unimplemented("encryption"))
    } else {
        parse_body(s[0] & 0x7Fu8, s.subrange(1, s.len() as int))
    }
}

/// Reads a message as received over the websocket. Bytes after the message are ignored.
pub open spec fn parse_message(s: Seq<u8>) -> Outcome<MessageModel> {
    if s.len() < 1 {
        Outcome::Failed(ReadError::NotEnoughBytesLeft)
    } else if s[0] == 0xF3u8 {
        parse_f3(s.subrange(1, s.len() as int))
    } else if s[0] == 0xF0u8 {
        match parse_ping(s.subrange(1, s.len() as int)) {
            Outcome::Parsed((a, b)) => Outcome::Parsed(MessageModel::PingResult(a, b)),
            Outcome::Failed(e) => Outcome::Failed(e),
            Outcome::Panics => Outcome::Panics,
        }
    } else {
        Outcome::Failed(ReadError::InvalidMagicNumber(s[0]))
    }
}

/* How many bytes a successful read takes */

/// The bytes a parameter dictionary at the start of `s` takes, where it reads.
pub open spec fn dict_len(s: Seq<u8>) -> int {
    match parse_entries(s.subrange(2, s.len() as int), i16_at(s) as int) {
        Ok((_, k)) => 2 + k,
        Err(_) => 0,
    }
}

/// The bytes a request or event body at the start of `s` takes, where it reads.
pub open spec fn request_len(s: Seq<u8>) -> int {
    1 + dict_len(s.subrange(1, s.len() as int))
}

/// The bytes a response body at the start of `s` takes, where it reads.
pub open spec fn response_len(s: Seq<u8>) -> int {
    match parse_debug(s.subrange(3, s.len() as int)) {
        Ok((_, k)) => 3 + k + dict_len(s.subrange(3 + k, s.len() as int)),
        Err(_) => 0,
    }
}

/// The bytes a disconnect body at the start of `s` takes, where it reads.
pub open spec fn disconnect_len(s: Seq<u8>) -> int {
    match parse_debug(s.subrange(2, s.len() as int)) {
        Ok((_, k)) => 2 + k + dict_len(s.subrange(2 + k, s.len() as int)),
        Err(_) => 0,
    }
}

/// The bytes the body of a message of type `t` takes, where it reads: an init response takes one
/// byte, and a raw message all that is left.
pub open spec fn body_len(t: u8, body: Seq<u8>) -> int {
    if t == 1 {
        1
    } else if t == 2 || t == 4 || t == 6 {
        request_len(body)
    } else if t == 3 || t == 7 {
        response_len(body)
    } else if t == 5 {
        disconnect_len(body)
    } else if t == 8 {
        match parse_value(body) {
            Ok((_, k)) => k,
            Err(_) => 0,
        }
    } else {
        body.len() as int
    }
}

/// The bytes a message at the start of `s` takes, where it reads: the magic byte, then a type
/// byte and the body, or the eight bytes of a ping result.
pub open spec fn message_len(s: Seq<u8>) -> int {
    if s[0] == 0xF3u8 {
        2 + body_len(s[1] & 0x7Fu8, s.subrange(2, s.len() as int))
    } else {
        9
    }
}

/* Executable writing and reading */

pub open spec fn params_wf(m: &ParameterMap) -> bool {
    keys_unique(m.entries())
}

impl PhotonMessage {
    /// Every parameter map of the message has distinct keys.
    pub open spec fn wf(&self) -> bool {
        match self {
            PhotonMessage::OperationRequest(r) => params_wf(&r.parameters),
            PhotonMessage::OperationResponse(r) => params_wf(&r.parameters),
            PhotonMessage::EventData(e) => params_wf(&e.parameters),
            PhotonMessage::DisconnectMessage(d) => params_wf(&d.parameters),
            PhotonMessage::InternalOperationRequest(r) => params_wf(&r.parameters),
            PhotonMessage::InternalOperationResponse(r) => params_wf(&r.parameters),
            _ => true,
        }
    }
}

/// `r` is what reading should give according to `s`.
pub open spec fn message_read(r: Outcome<PhotonMessage>, s: Outcome<MessageModel>) -> bool {
    match s {
        Outcome::Parsed(m) => r matches Outcome::Parsed(x) && x@ == m && x.wf(),
        Outcome::Failed(e) => r == Outcome::<PhotonMessage>::Failed(e),
        Outcome::Panics => r is Panics,
    }
}

pub proof fn lemma_entries_result_prefix(s: Params, i: int)
    requires
        0 <= i <= s.len(),
        entries_result(s.subrange(0, i)) is Err,
    ensures
        entries_result(s) == entries_result(s.subrange(0, i)),
    decreases s.len() - i,
{
    if i < s.len() {
        assert(s.subrange(0, i + 1).drop_last() =~= s.subrange(0, i));
        lemma_entries_result_prefix(s, i + 1);
    } else {
        assert(s.subrange(0, i) =~= s);
    }
}

/// Writes a parameter dictionary. A dictionary with too many parameters is refused before
/// anything is written.
pub fn write_dict(map: &ParameterMap, out: &mut Vec<u8>) -> (r: Result<(), WriteError>)
    ensures
        wrote(r, dict_result(params_view(map.entries())), old(out)@, final(out)@),
        map.entries().len() > 32767 ==> final(out)@ == old(out)@,
{
    let ghost m = params_view(map.entries());
    let n = map.len();
    if n > 32767 {
        return Err(WriteError::ValueTooLarge("Custom Data"));
    }
    write_i16(out, n as i16);
    let ghost start = out@;
    let mut i: usize = 0;
    assert(m.subrange(0, 0) =~= Seq::<(u8, PhotonValue)>::empty());
    while i < n
        invariant
            i <= n,
            n <= 32767,
            n == map.entries().len(),
            m == params_view(map.entries()),
            entries_result(m.subrange(0, i as int)) matches Ok(b) && out@ == start + b,
        decreases n - i,
    {
        let (k, v) = map.entry_at(i);
        assert(m.subrange(0, i + 1).drop_last() =~= m.subrange(0, i as int));
        assert(m[i as int] == (*k, v@));
        out.push(*k);
        let r = write_value(v, out);
        match r {
            Err(e) => {
                proof {
                    assert(entries_result(m.subrange(0, i + 1)) == Err::<Seq<u8>, WriteError>(e));
                    lemma_entries_result_prefix(m, i + 1);
                    assert(dict_result(m) == Err::<Seq<u8>, WriteError>(e));
                }
                return Err(e);
            },
            Ok(()) => {
                assert(out@ =~= start + entries_result(m.subrange(0, i + 1))->Ok_0);
            },
        }
        i = i + 1;
    }
    assert(m.subrange(0, i as int) =~= m);
    assert(final(out)@ =~= old(out)@ + (i16_be(n as i16) + entries_result(m)->Ok_0));
    Ok(())
}

/// Writes the debug message as a string value, or a null value when there is none.
fn write_debug(dm: &Option<String>, out: &mut Vec<u8>) -> (r: Result<(), WriteError>)
    ensures
        wrote(r, value_result(debug_value(opt_string_view(*dm))), old(out)@, final(out)@),
{
    match dm {
        Some(msg) => write_value(&PhotonDataType::String(msg.clone()), out),
        None => write_value(&PhotonDataType::Null, out),
    }
}

/// Where a parameter dictionary that reads at `pos` ends.
fn dict_end(buf: &[u8], pos: usize) -> (r: usize)
    requires
        pos <= buf.len(),
        parse_dict(rest(buf@, pos as int)) is Parsed,
    ensures
        r == pos + dict_len(rest(buf@, pos as int)),
        r <= buf.len(),
{
    let ghost s = rest(buf@, pos as int);
    let count = read_i16(buf, pos);
    assert(s.subrange(2, s.len() as int) =~= rest(buf@, pos + 2));
    match read_entries(buf, pos + 2, count as usize) {
        Ok((_, p)) => p,
        Err(_) => pos,
    }
}

/// Where a response body (`skip` is 3) or a disconnect body (`skip` is 2) that reads at `pos` ends.
fn debug_dict_end(buf: &[u8], pos: usize, skip: usize) -> (r: usize)
    requires
        pos + skip <= buf.len(),
        parse_debug(rest(buf@, pos + skip)) matches Ok((_, k)) && 0 <= k <= buf.len() - pos - skip
            && parse_dict(rest(buf@, pos + skip + k)) is Parsed,
    ensures
        r == pos + skip + parse_debug(rest(buf@, pos + skip))->Ok_0.1 + dict_len(rest(buf@, pos + skip + parse_debug(rest(buf@, pos + skip))->Ok_0.1)),
        r <= buf.len(),
{
    match read_debug(buf, pos + skip) {
        Ok((_, p)) => dict_end(buf, p),
        Err(_) => pos,
    }
}

impl PingResult {
    pub fn to_bytes(&self, buf: &mut Vec<u8>) -> (r: Result<(), WriteError>)
        ensures
            wrote(r, body_result(MessageModel::PingResult(self@.0, self@.1)), old(buf)@, final(buf)@),
    {
        write_i32(buf, self.server_sent_time);
        write_i32(buf, self.client_sent_time);
        assert(final(buf)@ =~= old(buf)@ + (i32_be(self.server_sent_time) + i32_be(self.client_sent_time)));
        Ok(())
    }
}

impl OperationRequest {
    pub fn to_bytes(&self, buf: &mut Vec<u8>) -> (r: Result<(), WriteError>)
        ensures
            wrote(r, after(seq![self.operation_code], dict_result(params_view(self.parameters.entries()))), old(buf)@, final(buf)@),
    {
        buf.push(self.operation_code);
        let r = write_dict(&self.parameters, buf);
        proof {
            if let Ok(b) = dict_result(params_view(self.parameters.entries())) {
                assert(final(buf)@ =~= old(buf)@ + (seq![self.operation_code] + b));
            }
        }
        r
    }
}

impl EventData {
    pub fn to_bytes(&self, buf: &mut Vec<u8>) -> (r: Result<(), WriteError>)
        ensures
            wrote(r, after(seq![self.code], dict_result(params_view(self.parameters.entries()))), old(buf)@, final(buf)@),
    {
        buf.push(self.code);
        let r = write_dict(&self.parameters, buf);
        proof {
            if let Ok(b) = dict_result(params_view(self.parameters.entries())) {
                assert(final(buf)@ =~= old(buf)@ + (seq![self.code] + b));
            }
        }
        r
    }
}

impl OperationResponse {
    pub fn to_bytes(&self, buf: &mut Vec<u8>) -> (r: Result<(), WriteError>)
        ensures
            wrote(r, after(seq![self.operation_code] + i16_be(self.return_code), then(value_result(debug_value(opt_string_view(self.debug_message))), dict_result(params_view(self.parameters.entries())))), old(buf)@, final(buf)@),
    {
        buf.push(self.operation_code);
        write_i16(buf, self.return_code);
        let ghost mid = buf@;
        let r1 = write_debug(&self.debug_message, buf);
        if let Err(e) = r1 {
            return Err(e);
        }
        let ghost mid2 = buf@;
        let r = write_dict(&self.parameters, buf);
        proof {
            let a = value_result(debug_value(opt_string_view(self.debug_message)));
            let b = dict_result(params_view(self.parameters.entries()));
            if let (Ok(x), Ok(y)) = (a, b) {
                assert(final(buf)@ =~= old(buf)@ + (seq![self.operation_code] + i16_be(self.return_code) + (x + y)));
            }
        }
        r
    }
}

impl DisconnectMessage {
    pub fn to_bytes(&self, buf: &mut Vec<u8>) -> (r: Result<(), WriteError>)
        ensures
            wrote(r, after(i16_be(self.code), then(value_result(debug_value(opt_string_view(self.debug_message))), dict_result(params_view(self.parameters.entries())))), old(buf)@, final(buf)@),
    {
        write_i16(buf, self.code);
        let r1 = write_debug(&self.debug_message, buf);
        if let Err(e) = r1 {
            return Err(e);
        }
        let r = write_dict(&self.parameters, buf);
        proof {
            let a = value_result(debug_value(opt_string_view(self.debug_message)));
            let b = dict_result(params_view(self.parameters.entries()));
            if let (Ok(x), Ok(y)) = (a, b) {
                assert(final(buf)@ =~= old(buf)@ + (i16_be(self.code) + (x + y)));
            }
        }
        r
    }
}

impl PhotonMessage {
    /// The message type byte; a ping result has none.
    pub fn get_type_byte(&self) -> (r: Option<u8>)
        ensures
            r == type_byte(self@),
    {
        match self {
            PhotonMessage::Init => Some(0),
            PhotonMessage::InitResponse => Some(1),
            PhotonMessage::OperationRequest(_) => Some(2),
            PhotonMessage::OperationResponse(_) => Some(3),
            PhotonMessage::EventData(_) => Some(4),
            PhotonMessage::DisconnectMessage(_) => Some(5),
            PhotonMessage::InternalOperationRequest(_) => Some(6),
            PhotonMessage::InternalOperationResponse(_) => Some(7),
            PhotonMessage::Message(_) => Some(8),
            PhotonMessage::RawMessage(_) => Some(9),
            PhotonMessage::PingResult(_) => None,
        }
    }

    /// Writes the message without its magic and type bytes.
    pub fn to_bytes_without_type_byte(&self, buf: &mut Vec<u8>) -> (r: Result<(), WriteError>)
        ensures
            wrote(r, body_result(self@), old(buf)@, final(buf)@),
    {
        match self {
            PhotonMessage::Init => Err(WriteError::Unimplemented("Init message serialization")),
            PhotonMessage::InitResponse => {
                buf.push(0);
                assert(final(buf)@ =~= old(buf)@ + seq![0u8]);
                Ok(())
            },
            PhotonMessage::OperationRequest(x) => x.to_bytes(buf),
            PhotonMessage::OperationResponse(x) => x.to_bytes(buf),
            PhotonMessage::EventData(x) => x.to_bytes(buf),
            PhotonMessage::DisconnectMessage(x) => x.to_bytes(buf),
            PhotonMessage::InternalOperationRequest(x) => x.to_bytes(buf),
            PhotonMessage::InternalOperationResponse(x) => x.to_bytes(buf),
            PhotonMessage::Message(x) => write_value(x, buf),
            PhotonMessage::RawMessage(x) => {
                write_bytes(buf, x.as_slice());
                Ok(())
            },
            PhotonMessage::PingResult(x) => x.to_bytes(buf),
        }
    }

    /// Writes the message as it is sent over the websocket.
    #[verifier::rlimit(30)]
    pub fn to_websocket_bytes(&self, buf: &mut Vec<u8>) -> (r: Result<(), WriteError>)
        ensures
            wrote(r, websocket_result(self@), old(buf)@, final(buf)@),
    {
        if let Some(type_byte) = self.get_type_byte() {
            assert(websocket_result(self@) == after(seq![0xF3u8, type_byte], body_result(self@)));
            buf.push(0xF3);
            buf.push(type_byte);
            let r = self.to_bytes_without_type_byte(buf);
            proof {
                if let Ok(b) = body_result(self@) {
                    assert(final(buf)@ =~= old(buf)@ + (seq![0xF3u8, type_byte] + b));
                }
            }
            r
        } else {
            assert(websocket_result(self@) == after(seq![0xF0u8], body_result(self@)));
            buf.push(0xF0);
            let r = self.to_bytes_without_type_byte(buf);
            proof {
                if let Ok(b) = body_result(self@) {
                    assert(final(buf)@ =~= old(buf)@ + (seq![0xF0u8] + b));
                }
            }
            r
        }
    }
}

/// Inserting a parameter, then taking the model, is inserting into the model.
pub proof fn lemma_insert_params(es: Seq<(u8, PhotonDataType)>, k: u8, v: PhotonDataType)
    requires
        keys_unique(es),
    ensures
        params_view(insert_entry(es, k, v)) == insert_entry(params_view(es), k, v@),
        keys_unique(params_view(es)),
{
    let pv = params_view(es);
    assert(pv.len() == es.len());
    assert forall|a: int, b: int| 0 <= a < pv.len() && 0 <= b < pv.len() && a != b implies #[trigger] pv[a].0@ != #[trigger] pv[b].0@ by {
        lemma_keys_differ(es, a, b);
    }
    let r = insert_entry(es, k, v);
    match index_of(es, k@) {
        Some(i) => {
            lemma_index_of_unique(pv, i);
            assert(pv[i].0@ == k@);
            assert(params_view(r) =~= insert_entry(pv, k, v@));
        },
        None => {
            assert(index_of(pv, k@) is None) by {
                if exists|i: int| 0 <= i < pv.len() && #[trigger] pv[i].0@ == k@ {
                    let i = choose|i: int| 0 <= i < pv.len() && #[trigger] pv[i].0@ == k@;
                    assert(es[i].0@ == k@);
                }
            }
            assert(params_view(r) =~= insert_entry(pv, k, v@));
        },
    }
}

/// One step of reading parameters: the code, then the value.
pub proof fn lemma_entries_step(s: Seq<u8>, n: int)
    requires
        n > 0,
    ensures
        s.len() < 1 ==> parse_entries(s, n) == Err::<(Params, int), ReadError>(ReadError::NotEnoughBytesLeft),
        s.len() >= 1 ==> match parse_value(s.subrange(1, s.len() as int)) {
            Err(e) => parse_entries(s, n) == Err::<(Params, int), ReadError>(e),
            Ok((v, k)) => 0 <= k <= s.len() - 1 ==> parse_entries(s, n) == cons((s[0], v), 1 + k, parse_entries(s.subrange(1 + k, s.len() as int), n - 1)),
        },
{
}

/// Reads `n` parameters at `pos`.
#[verifier::rlimit(50)]
fn read_entries(buf: &[u8], pos: usize, n: usize) -> (r: Result<(ParameterMap, usize), ReadError>)
    requires
        pos <= buf.len(),
    ensures
        match parse_entries(rest(buf@, pos as int), n as int) {
            Ok((m, k)) => r matches Ok((x, p)) && params_view(x.entries()) == insert_all(m) && params_wf(&x) && p == pos + k,
            Err(e) => r == Err::<(ParameterMap, usize), ReadError>(e),
        },
        r matches Ok((_, p)) ==> pos <= p <= buf.len(),
{
    let mut map: ParameterMap = OrderedMap::new();
    let ghost mut raw: Params = Seq::empty();
    let mut p = pos;
    let mut i: usize = 0;
    proof {
        lemma_prepend_empty(parse_entries(rest(buf@, pos as int), n as int));
        assert(params_view(map.entries()) =~= insert_all(raw));
    }
    while i < n
        invariant
            pos <= p <= buf.len(),
            i <= n,
            map.wf(),
            params_view(map.entries()) == insert_all(raw),
            parse_entries(rest(buf@, pos as int), n as int) == prepend(raw, p - pos, parse_entries(rest(buf@, p as int), n - i)),
        decreases n - i,
    {
        let ghost sp = rest(buf@, p as int);
        proof {
            lemma_entries_step(sp, n - i);
        }
        if p >= buf.len() {
            return Err(ReadError::NotEnoughBytesLeft);
        }
        let key = buf[p];
        assert(sp.subrange(1, sp.len() as int) =~= rest(buf@, p + 1));
        let (val, p2) = match read_value(buf, p + 1) {
            Err(e) => {
                return Err(e);
            },
            Ok(x) => x,
        };
        assert(sp.subrange(1 + (p2 - p - 1), sp.len() as int) =~= rest(buf@, p2 as int));
        proof {
            lemma_prepend_cons(raw, p - pos, (key, val@), p2 - p, parse_entries(rest(buf@, p2 as int), n - i - 1));
            lemma_insert_params(map.entries(), key, val);
            assert(raw.push((key, val@)).drop_last() =~= raw);
        }
        map.insert(key, val);
        proof {
            raw = raw.push((key, val@));
        }
        p = p2;
        i = i + 1;
    }
    proof {
        lemma_prepend_done(raw, p - pos);
    }
    Ok((map, p))
}

/// Reads a parameter dictionary at `pos`.
pub fn read_dict(buf: &[u8], pos: usize) -> (r: Outcome<ParameterMap>)
    requires
        pos <= buf.len(),
    ensures
        match parse_dict(rest(buf@, pos as int)) {
            Outcome::Parsed(m) => r matches Outcome::Parsed(x) && params_view(x.entries()) == m && params_wf(&x),
            Outcome::Failed(e) => r == Outcome::<ParameterMap>::Failed(e),
            Outcome::Panics => r is Panics,
        },
{
    let ghost s = rest(buf@, pos as int);
    if buf.len() - pos < 2 {
        return Outcome::Failed(ReadError::NotEnoughBytesLeft);
    }
    let count = read_i16(buf, pos);
    if count < 0 {
        return Outcome::Panics;
    }
    assert(s.subrange(2, s.len() as int) =~= rest(buf@, pos + 2));
    match read_entries(buf, pos + 2, count as usize) {
        Ok((map, _)) => Outcome::Parsed(map),
        Err(e) => Outcome::Failed(e),
    }
}

/// Reads the debug message at `pos`.
fn read_debug(buf: &[u8], pos: usize) -> (r: Result<(Option<String>, usize), ReadError>)
    requires
        pos <= buf.len(),
    ensures
        match parse_debug(rest(buf@, pos as int)) {
            Ok((m, k)) => r matches Ok((x, p)) && opt_string_view(x) == m && p == pos + k,
            Err(e) => r == Err::<(Option<String>, usize), ReadError>(e),
        },
        r matches Ok((_, p)) ==> pos <= p <= buf.len(),
{
    match read_value(buf, pos) {
        Err(e) => Err(e),
        Ok((PhotonDataType::String(x), p)) => Ok((Some(x), p)),
        Ok((PhotonDataType::Null, p)) => Ok((None, p)),
        Ok(_) => Err(ReadError::UnexpectedData("expected string or null in operation response debug message")),
    }
}

impl PingResult {
    fn decode(buf: &[u8], pos: usize) -> (r: Outcome<PingResult>)
        requires
            pos <= buf.len(),
        ensures
            match parse_ping(rest(buf@, pos as int)) {
                Outcome::Parsed(m) => r matches Outcome::Parsed(x) && x@ == m,
                Outcome::Failed(e) => r == Outcome::<PingResult>::Failed(e),
                Outcome::Panics => false,
            },
    {
        if buf.len() - pos < 8 {
            return Outcome::Failed(ReadError::NotEnoughBytesLeft);
        }
        let server_sent_time = read_i32(buf, pos);
        let client_sent_time = read_i32(buf, pos + 4);
        assert(rest(buf@, pos as int).subrange(4, rest(buf@, pos as int).len() as int) =~= rest(buf@, pos + 4));
        Outcome::Parsed(PingResult { server_sent_time, client_sent_time })
    }

    /// Reads a ping result.
    pub fn from_bytes(data: &[u8]) -> (r: Result<Self, ReadError>)
        ensures
            match parse_ping(data@) {
                Outcome::Parsed(m) => r matches Ok(x) && x@ == m,
                Outcome::Failed(e) => r == Err::<PingResult, ReadError>(e),
                Outcome::Panics => false,
            },
    {
        assert(rest(data@, 0) =~= data@);
        match Self::decode(data, 0) {
            Outcome::Parsed(x) => Ok(x),
            Outcome::Failed(e) => Err(e),
            Outcome::Panics => Err(ReadError::NotEnoughBytesLeft),
        }
    }
}

impl OperationRequest {
    fn decode(buf: &[u8], pos: usize) -> (r: Outcome<OperationRequest>)
        requires
            pos <= buf.len(),
        ensures
            match parse_request(rest(buf@, pos as int)) {
                Outcome::Parsed(m) => r matches Outcome::Parsed(x) && x.operation_code == m.0 && params_view(x.parameters.entries()) == m.1 && params_wf(&x.parameters),
                Outcome::Failed(e) => r == Outcome::<OperationRequest>::Failed(e),
                Outcome::Panics => r is Panics,
            },
    {
        if pos >= buf.len() {
            return Outcome::Failed(ReadError::NotEnoughBytesLeft);
        }
        let operation_code = buf[pos];
        assert(rest(buf@, pos as int).subrange(1, rest(buf@, pos as int).len() as int) =~= rest(buf@, pos + 1));
        match read_dict(buf, pos + 1) {
            Outcome::Parsed(parameters) => Outcome::Parsed(OperationRequest { operation_code, parameters }),
            Outcome::Failed(e) => Outcome::Failed(e),
            Outcome::Panics => Outcome::Panics,
        }
    }

    /// Reads an operation request: its code, then its parameters.
    pub fn from_bytes(data: &[u8]) -> (r: Result<Self, ReadError>)
        requires
            !(parse_request(data@) is Panics),
        ensures
            match parse_request(data@) {
                Outcome::Parsed(m) => r matches Ok(x) && x.operation_code == m.0 && params_view(x.parameters.entries()) == m.1 && params_wf(&x.parameters),
                Outcome::Failed(e) => r == Err::<OperationRequest, ReadError>(e),
                Outcome::Panics => false,
            },
    {
        assert(rest(data@, 0) =~= data@);
        match Self::decode(data, 0) {
            Outcome::Parsed(x) => Ok(x),
            Outcome::Failed(e) => Err(e),
            Outcome::Panics => Err(ReadError::NotEnoughBytesLeft),
        }
    }
}

impl EventData {
    /// Reads an event: its code, then its parameters.
    pub fn from_bytes(data: &[u8]) -> (r: Result<Self, ReadError>)
        requires
            !(parse_request(data@) is Panics),
        ensures
            match parse_request(data@) {
                Outcome::Parsed(m) => r matches Ok(x) && x.code == m.0 && params_view(x.parameters.entries()) == m.1 && params_wf(&x.parameters),
                Outcome::Failed(e) => r == Err::<EventData, ReadError>(e),
                Outcome::Panics => false,
            },
    {
        match OperationRequest::from_bytes(data) {
            Ok(x) => Ok(EventData { code: x.operation_code, parameters: x.parameters }),
            Err(e) => Err(e),
        }
    }
}

impl OperationResponse {
    #[verifier::rlimit(40)]
    fn decode(buf: &[u8], pos: usize) -> (r: Outcome<OperationResponse>)
        requires
            pos <= buf.len(),
        ensures
            match parse_response(rest(buf@, pos as int)) {
                Outcome::Parsed(m) => r matches Outcome::Parsed(x) && x.operation_code == m.0 && x.return_code == m.1 && opt_string_view(x.debug_message) == m.2 && params_view(x.parameters.entries()) == m.3 && params_wf(&x.parameters),
                Outcome::Failed(e) => r == Outcome::<OperationResponse>::Failed(e),
                Outcome::Panics => r is Panics,
            },
    {
        let ghost s = rest(buf@, pos as int);
        if buf.len() - pos < 3 {
            return Outcome::Failed(ReadError::NotEnoughBytesLeft);
        }
        let operation_code = buf[pos];
        assert(s.subrange(1, s.len() as int) =~= rest(buf@, pos + 1));
        let return_code = read_i16(buf, pos + 1);
        assert(s.subrange(3, s.len() as int) =~= rest(buf@, pos + 3));
        let (debug_message, p) = match read_debug(buf, pos + 3) {
            Err(e) => {
                return Outcome::Failed(e);
            },
            Ok(x) => x,
        };
        assert(s.subrange(3 + (p - pos - 3), s.len() as int) =~= rest(buf@, p as int));
        match read_dict(buf, p) {
            Outcome::Parsed(parameters) => Outcome::Parsed(OperationResponse { operation_code, return_code, debug_message, parameters }),
            Outcome::Failed(e) => Outcome::Failed(e),
            Outcome::Panics => Outcome::Panics,
        }
    }

    /// Reads an operation response: its code, return code, debug message and parameters.
    pub fn from_bytes(data: &[u8]) -> (r: Result<Self, ReadError>)
        requires
            !(parse_response(data@) is Panics),
        ensures
            match parse_response(data@) {
                Outcome::Parsed(m) => r matches Ok(x) && x.operation_code == m.0 && x.return_code == m.1 && opt_string_view(x.debug_message) == m.2 && params_view(x.parameters.entries()) == m.3 && params_wf(&x.parameters),
                Outcome::Failed(e) => r == Err::<OperationResponse, ReadError>(e),
                Outcome::Panics => false,
            },
    {
        assert(rest(data@, 0) =~= data@);
        match Self::decode(data, 0) {
            Outcome::Parsed(x) => Ok(x),
            Outcome::Failed(e) => Err(e),
            Outcome::Panics => Err(ReadError::NotEnoughBytesLeft),
        }
    }
}

impl DisconnectMessage {
    #[verifier::rlimit(40)]
    fn decode(buf: &[u8], pos: usize) -> (r: Outcome<DisconnectMessage>)
        requires
            pos <= buf.len(),
        ensures
            match parse_disconnect(rest(buf@, pos as int)) {
                Outcome::Parsed(m) => r matches Outcome::Parsed(x) && x.code == m.0 && opt_string_view(x.debug_message) == m.1 && params_view(x.parameters.entries()) == m.2 && params_wf(&x.parameters),
                Outcome::Failed(e) => r == Outcome::<DisconnectMessage>::Failed(e),
                Outcome::Panics => r is Panics,
            },
    {
        let ghost s = rest(buf@, pos as int);
        if buf.len() - pos < 2 {
            return Outcome::Failed(ReadError::NotEnoughBytesLeft);
        }
        let code = read_i16(buf, pos);
        assert(s.subrange(2, s.len() as int) =~= rest(buf@, pos + 2));
        let (debug_message, p) = match read_debug(buf, pos + 2) {
            Err(e) => {
                return Outcome::Failed(e);
            },
            Ok(x) => x,
        };
        assert(s.subrange(2 + (p - pos - 2), s.len() as int) =~= rest(buf@, p as int));
        match read_dict(buf, p) {
            Outcome::Parsed(parameters) => Outcome::Parsed(DisconnectMessage { code, debug_message, parameters }),
            Outcome::Failed(e) => Outcome::Failed(e),
            Outcome::Panics => Outcome::Panics,
        }
    }

    /// Reads a disconnect message: its code, debug message and parameters.
    pub fn from_bytes(data: &[u8]) -> (r: Result<Self, ReadError>)
        requires
            !(parse_disconnect(data@) is Panics),
        ensures
            match parse_disconnect(data@) {
                Outcome::Parsed(m) => r matches Ok(x) && x.code == m.0 && opt_string_view(x.debug_message) == m.1 && params_view(x.parameters.entries()) == m.2 && params_wf(&x.parameters),
                Outcome::Failed(e) => r == Err::<DisconnectMessage, ReadError>(e),
                Outcome::Panics => false,
            },
    {
        assert(rest(data@, 0) =~= data@);
        match Self::decode(data, 0) {
            Outcome::Parsed(x) => Ok(x),
            Outcome::Failed(e) => Err(e),
            Outcome::Panics => Err(ReadError::NotEnoughBytesLeft),
        }
    }
}

impl PhotonMessage {
    /// Reads a message with magic number 0xF3 whose type byte is at `pos`.
    fn decode_f3(buf: &[u8], pos: usize) -> (r: Outcome<PhotonMessage>)
        requires
            pos <= buf.len(),
        ensures
            message_read(r, parse_f3(rest(buf@, pos as int))),
    {
        let ghost s = rest(buf@, pos as int);
        if buf.len() - pos < 2 {
            return Outcome::Failed(ReadError::NotEnoughBytesLeft);
        }
        let msg_byte = buf[pos];
        if (msg_byte & 0x80) > 0 {
            return Outcome::Failed(ReadError::Unimplemented("encryption"));
        }
        assert(s.subrange(1, s.len() as int) =~= rest(buf@, pos + 1));
        Self::decode_body(msg_byte & 0x7F, buf, pos + 1)
    }

    /// Reads the body of a message of type `t` at `pos`.
    #[verifier::rlimit(40)]
    fn decode_body(t: u8, buf: &[u8], pos: usize) -> (r: Outcome<PhotonMessage>)
        requires
            pos <= buf.len(),
        ensures
            message_read(r, parse_body(t, rest(buf@, pos as int))),
    {
        if t == 1 {
            Outcome::Parsed(PhotonMessage::InitResponse)
        } else if t == 2 || t == 6 {
            match OperationRequest::decode(buf, pos) {
                Outcome::Parsed(x) => Outcome::Parsed(if t == 2 { PhotonMessage::OperationRequest(x) } else { PhotonMessage::InternalOperationRequest(x) }),
                Outcome::Failed(e) => Outcome::Failed(e),
                Outcome::Panics => Outcome::Panics,
            }
        } else if t == 3 || t == 7 {
            match OperationResponse::decode(buf, pos) {
                Outcome::Parsed(x) => Outcome::Parsed(if t == 3 { PhotonMessage::OperationResponse(x) } else { PhotonMessage::InternalOperationResponse(x) }),
                Outcome::Failed(e) => Outcome::Failed(e),
                Outcome::Panics => Outcome::Panics,
            }
        } else if t == 4 {
            match OperationRequest::decode(buf, pos) {
                Outcome::Parsed(x) => Outcome::Parsed(PhotonMessage::EventData(EventData { code: x.operation_code, parameters: x.parameters })),
                Outcome::Failed(e) => Outcome::Failed(e),
                Outcome::Panics => Outcome::Panics,
            }
        } else if t == 5 {
            match DisconnectMessage::decode(buf, pos) {
                Outcome::Parsed(x) => Outcome::Parsed(PhotonMessage::DisconnectMessage(x)),
                Outcome::Failed(e) => Outcome::Failed(e),
                Outcome::Panics => Outcome::Panics,
            }
        } else if t == 8 {
            match read_value(buf, pos) {
                Ok((v, _)) => Outcome::Parsed(PhotonMessage::Message(v)),
                Err(e) => Outcome::Failed(e),
            }
        } else if t == 9 {
            let raw = crate::codec::copy_range(buf, pos, buf.len());
            Outcome::Parsed(PhotonMessage::RawMessage(raw))
        } else {
            Outcome::Failed(ReadError::UnknownMessageType(t))
        }
    }

    /// Reads a message as received over the websocket, telling apart the inputs on which reading
    /// cannot complete.
    pub fn decode(data: &[u8]) -> (r: Outcome<PhotonMessage>)
        ensures
            message_read(r, parse_message(data@)),
    {
        let ghost s = data@;
        if data.len() < 1 {
            return Outcome::Failed(ReadError::NotEnoughBytesLeft);
        }
        let magic_number = data[0];
        assert(s.subrange(1, s.len() as int) =~= rest(data@, 1));
        if magic_number == 0xF3 {
            Self::decode_f3(data, 1)
        } else if magic_number == 0xF0 {
            match PingResult::decode(data, 1) {
                Outcome::Parsed(x) => Outcome::Parsed(PhotonMessage::PingResult(x)),
                Outcome::Failed(e) => Outcome::Failed(e),
                Outcome::Panics => Outcome::Panics,
            }
        } else {
            Outcome::Failed(ReadError::InvalidMagicNumber(magic_number))
        }
    }

    /// Where a message that reads ends, as an offset into `data`.
    #[verifier::rlimit(40)]
    fn message_end(data: &[u8]) -> (r: usize)
        requires
            parse_message(data@) is Parsed,
        ensures
            r == message_len(data@),
            r <= data.len(),
    {
        let ghost s = data@;
        if data[0] != 0xF3 {
            return 9;
        }
        let t = data[1] & 0x7F;
        let ghost b = s.subrange(2, s.len() as int);
        assert(s.subrange(1, s.len() as int).subrange(1, s.len() - 1) =~= b);
        assert(b =~= rest(data@, 2));
        if t == 1 {
            3
        } else if t == 2 || t == 4 || t == 6 {
            assert(b.subrange(1, b.len() as int) =~= rest(data@, 3));
            dict_end(data, 3)
        } else if t == 3 || t == 7 {
            assert(b.subrange(3, b.len() as int) =~= rest(data@, 5));
            proof {
                if let Ok((_, k)) = parse_debug(rest(data@, 5)) {
                    assert(b.subrange(3 + k, b.len() as int) =~= rest(data@, 5 + k));
                }
            }
            debug_dict_end(data, 2, 3)
        } else if t == 5 {
            assert(b.subrange(2, b.len() as int) =~= rest(data@, 4));
            proof {
                if let Ok((_, k)) = parse_debug(rest(data@, 4)) {
                    assert(b.subrange(2 + k, b.len() as int) =~= rest(data@, 4 + k));
                }
            }
            debug_dict_end(data, 2, 2)
        } else if t == 8 {
            match read_value(data, 2) {
                Ok((_, p)) => p,
                Err(_) => 2,
            }
        } else {
            data.len()
        }
    }

    /// Reads a message as received over the websocket from the front of `data`. Where a message
    /// is read, `data` moves past it; where `data` is empty it stays; where its first byte is no
    /// magic number, `data` moves past that byte.
    pub fn from_websocket_bytes(data: &mut &[u8]) -> (r: Result<PhotonMessage, ReadError>)
        requires
            !(parse_message(old(data)@) is Panics),
        ensures
            match parse_message(old(data)@) {
                Outcome::Parsed(m) => r matches Ok(x) && x@ == m && x.wf()
                    && final(data)@ == old(data)@.subrange(message_len(old(data)@), old(data)@.len() as int),
                Outcome::Failed(e) => r == Err::<PhotonMessage, ReadError>(e),
                Outcome::Panics => false,
            },
            old(data)@.len() == 0 ==> final(data)@ == old(data)@,
            r matches Err(ReadError::InvalidMagicNumber(_)) ==> final(data)@ == old(data)@.subrange(1, old(data)@.len() as int),
    {
        let buf: &[u8] = *data;
        match Self::decode(buf) {
            Outcome::Parsed(x) => {
                let end = Self::message_end(buf);
                *data = vstd::slice::slice_subrange(buf, end, buf.len());
                Ok(x)
            },
            Outcome::Failed(e) => {
                if buf.len() > 0 {
                    *data = vstd::slice::slice_subrange(buf, 1, buf.len());
                }
                Err(e)
            },
            Outcome::Panics => Err(ReadError::NotEnoughBytesLeft),
        }
    }

    /// Whether reading `data` cannot complete: it announces a parameter map with a negative
    /// number of entries.
    pub fn parse_would_panic(data: &[u8]) -> (r: bool)
        ensures
            r == (parse_message(data@) is Panics),
    {
        match Self::decode(data) {
            Outcome::Panics => true,
            _ => false,
        }
    }
}

} // verus!
