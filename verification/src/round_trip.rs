//! What is written can be read back: the bytes written for a message read back as that message.
use vstd::prelude::*;

use crate::codec::{
    after, cons, distinct_keys, lemma_then_assoc, lemma_then_empty, lemma_value_roundtrip,
    parse_value, then, value_result,
};
use crate::error::{ReadError, WriteError};
use crate::message::{
    body_result, debug_value, dict_result, entries_result, parse_body, parse_debug, parse_dict,
    lemma_entries_step, parse_disconnect, parse_entries, parse_f3, parse_message, parse_ping, parse_request,
    parse_response, type_byte, websocket_result, MessageModel, Outcome, Params,
};
use crate::ordered_map::{keys_unique, lemma_insert_all_unique};
use crate::value::PhotonValue;
use crate::wire::{i16_at, i16_be, i32_at, i32_be, lemma_i16_roundtrip, lemma_i32_roundtrip};

verus! {

/// The parameters have distinct codes, and every hashtable inside their values distinct keys.
pub open spec fn params_distinct(ps: Params) -> bool {
    &&& keys_unique(ps)
    &&& forall|i: int| 0 <= i < ps.len() ==> distinct_keys(#[trigger] ps[i].1)
}

/// Every map inside the message has distinct keys.
pub open spec fn message_distinct(m: MessageModel) -> bool {
    match m {
        MessageModel::OperationRequest(_, ps) => params_distinct(ps),
        MessageModel::OperationResponse(_, _, _, ps) => params_distinct(ps),
        MessageModel::EventData(_, ps) => params_distinct(ps),
        MessageModel::DisconnectMessage(_, _, ps) => params_distinct(ps),
        MessageModel::InternalOperationRequest(_, ps) => params_distinct(ps),
        MessageModel::InternalOperationResponse(_, _, _, ps) => params_distinct(ps),
        MessageModel::Message(v) => distinct_keys(v),
        _ => true,
    }
}

pub proof fn lemma_entries_front(ps: Params)
    requires
        ps.len() > 0,
    ensures
        entries_result(ps) == then(after(seq![ps[0].0], value_result(ps[0].1)), entries_result(ps.drop_first())),
    decreases ps.len(),
{
    let head = after(seq![ps[0].0], value_result(ps[0].1));
    if ps.len() == 1 {
        assert(ps.drop_last() =~= Seq::<(u8, PhotonValue)>::empty());
        assert(ps.drop_first() =~= Seq::<(u8, PhotonValue)>::empty());
        lemma_then_empty(head);
    } else {
        lemma_entries_front(ps.drop_last());
        assert(ps.drop_last().drop_first() =~= ps.drop_first().drop_last());
        lemma_then_assoc(head, entries_result(ps.drop_first().drop_last()), after(seq![ps.last().0], value_result(ps.last().1)));
    }
}

#[verifier::rlimit(50)]
pub proof fn lemma_entries_roundtrip(ps: Params, rest: Seq<u8>)
    requires
        entries_result(ps) is Ok,
        forall|i: int| 0 <= i < ps.len() ==> distinct_keys(#[trigger] ps[i].1),
    ensures
        parse_entries(entries_result(ps)->Ok_0 + rest, ps.len() as int) == Ok::<(Params, int), ReadError>((ps, entries_result(ps)->Ok_0.len() as int)),
    decreases ps.len(),
{
    if ps.len() > 0 {
        lemma_entries_front(ps);
        let vb = value_result(ps[0].1)->Ok_0;
        let b1 = entries_result(ps.drop_first())->Ok_0;
        let s = entries_result(ps)->Ok_0 + rest;
        assert(entries_result(ps)->Ok_0 == (seq![ps[0].0] + vb) + b1);
        assert(s =~= seq![ps[0].0] + (vb + (b1 + rest)));
        assert(s.subrange(1, s.len() as int) =~= vb + (b1 + rest));
        lemma_value_roundtrip(ps[0].1, b1 + rest);
        lemma_entries_step(s, ps.len() as int);
        assert(s.subrange(1 + vb.len() as int, s.len() as int) =~= b1 + rest);
        assert forall|i: int| 0 <= i < ps.drop_first().len() implies distinct_keys(#[trigger] ps.drop_first()[i].1) by {
            assert(ps.drop_first()[i] == ps[i + 1]);
        }
        lemma_entries_roundtrip(ps.drop_first(), rest);
        assert(seq![(ps[0].0, ps[0].1)] + ps.drop_first() =~= ps);
        let tail = parse_entries(s.subrange(1 + vb.len() as int, s.len() as int), ps.len() - 1);
        assert(ps.drop_first().len() == ps.len() - 1);
        assert(tail == Ok::<(Params, int), ReadError>((ps.drop_first(), b1.len() as int)));
        assert(parse_value(s.subrange(1, s.len() as int)) == Ok::<(PhotonValue, int), ReadError>((ps[0].1, vb.len() as int)));
        assert(parse_entries(s, ps.len() as int) == cons((s[0], ps[0].1), 1 + vb.len() as int, tail));
        assert(cons((s[0], ps[0].1), 1 + vb.len() as int, tail) == Ok::<(Params, int), ReadError>((ps, ((seq![ps[0].0] + vb) + b1).len() as int)));
    } else {
        assert(ps =~= Seq::<(u8, PhotonValue)>::empty());
    }
}

pub proof fn lemma_dict_roundtrip(ps: Params, rest: Seq<u8>)
    requires
        dict_result(ps) is Ok,
        params_distinct(ps),
    ensures
        parse_dict(dict_result(ps)->Ok_0 + rest) == Outcome::Parsed(ps),
        dict_result(ps)->Ok_0.len() >= 2,
{
    let n = ps.len();
    let eb = entries_result(ps)->Ok_0;
    let s = dict_result(ps)->Ok_0 + rest;
    assert(s =~= i16_be(n as i16) + (eb + rest));
    lemma_i16_roundtrip(n as i16, eb + rest);
    assert((n as i16) as int == n);
    assert(s.subrange(2, s.len() as int) =~= eb + rest);
    lemma_entries_roundtrip(ps, rest);
    lemma_insert_all_unique(ps);
}

pub proof fn lemma_debug_roundtrip(dm: Option<Seq<char>>, rest: Seq<u8>)
    requires
        value_result(debug_value(dm)) is Ok,
    ensures
        parse_debug(value_result(debug_value(dm))->Ok_0 + rest) == Ok::<(Option<Seq<char>>, int), ReadError>((dm, value_result(debug_value(dm))->Ok_0.len() as int)),
{
    lemma_value_roundtrip(debug_value(dm), rest);
}

/// Reading back the body of a message with a dictionary after a debug message.
proof fn lemma_response_roundtrip(c: u8, rc: i16, dm: Option<Seq<char>>, ps: Params)
    requires
        after(seq![c] + i16_be(rc), then(value_result(debug_value(dm)), dict_result(ps))) is Ok,
        params_distinct(ps),
    ensures
        parse_response(after(seq![c] + i16_be(rc), then(value_result(debug_value(dm)), dict_result(ps)))->Ok_0) == Outcome::Parsed((c, rc, dm, ps)),
        after(seq![c] + i16_be(rc), then(value_result(debug_value(dm)), dict_result(ps)))->Ok_0.len() >= 2,
{
    let db = value_result(debug_value(dm))->Ok_0;
    let pb = dict_result(ps)->Ok_0;
    let s = after(seq![c] + i16_be(rc), then(value_result(debug_value(dm)), dict_result(ps)))->Ok_0;
    assert(s =~= seq![c] + (i16_be(rc) + (db + pb)));
    assert(s.subrange(1, s.len() as int) =~= i16_be(rc) + (db + pb));
    lemma_i16_roundtrip(rc, db + pb);
    assert(s.subrange(3, s.len() as int) =~= db + pb);
    lemma_debug_roundtrip(dm, pb);
    assert(s.subrange(3 + db.len() as int, s.len() as int) =~= pb + Seq::<u8>::empty());
    lemma_dict_roundtrip(ps, Seq::empty());
}

proof fn lemma_disconnect_roundtrip(c: i16, dm: Option<Seq<char>>, ps: Params)
    requires
        after(i16_be(c), then(value_result(debug_value(dm)), dict_result(ps))) is Ok,
        params_distinct(ps),
    ensures
        parse_disconnect(after(i16_be(c), then(value_result(debug_value(dm)), dict_result(ps)))->Ok_0) == Outcome::Parsed((c, dm, ps)),
        after(i16_be(c), then(value_result(debug_value(dm)), dict_result(ps)))->Ok_0.len() >= 2,
{
    let db = value_result(debug_value(dm))->Ok_0;
    let pb = dict_result(ps)->Ok_0;
    let s = after(i16_be(c), then(value_result(debug_value(dm)), dict_result(ps)))->Ok_0;
    assert(s =~= i16_be(c) + (db + pb));
    lemma_i16_roundtrip(c, db + pb);
    assert(s.subrange(2, s.len() as int) =~= db + pb);
    lemma_debug_roundtrip(dm, pb);
    assert(s.subrange(2 + db.len() as int, s.len() as int) =~= pb + Seq::<u8>::empty());
    lemma_dict_roundtrip(ps, Seq::empty());
}

proof fn lemma_request_roundtrip(c: u8, ps: Params)
    requires
        after(seq![c], dict_result(ps)) is Ok,
        params_distinct(ps),
    ensures
        parse_request(after(seq![c], dict_result(ps))->Ok_0) == Outcome::Parsed((c, ps)),
        after(seq![c], dict_result(ps))->Ok_0.len() >= 3,
{
    let pb = dict_result(ps)->Ok_0;
    let s = seq![c] + pb;
    assert(s.subrange(1, s.len() as int) =~= pb + Seq::<u8>::empty());
    lemma_dict_roundtrip(ps, Seq::empty());
}

/// Reading back the body of a message of type `t` gives the message.
#[verifier::rlimit(50)]
proof fn lemma_body_roundtrip(m: MessageModel, t: u8)
    requires
        body_result(m) is Ok,
        message_distinct(m),
        type_byte(m) == Some(t),
        !(m matches MessageModel::RawMessage(x) && x.len() == 0),
    ensures
        parse_body(t, body_result(m)->Ok_0) == Outcome::Parsed(m),
        body_result(m)->Ok_0.len() >= 1,
{
    let b = body_result(m)->Ok_0;
    match m {
        MessageModel::OperationRequest(c, ps) => lemma_request_roundtrip(c, ps),
        MessageModel::InternalOperationRequest(c, ps) => lemma_request_roundtrip(c, ps),
        MessageModel::EventData(c, ps) => lemma_request_roundtrip(c, ps),
        MessageModel::OperationResponse(c, rc, dm, ps) => lemma_response_roundtrip(c, rc, dm, ps),
        MessageModel::InternalOperationResponse(c, rc, dm, ps) => lemma_response_roundtrip(c, rc, dm, ps),
        MessageModel::DisconnectMessage(c, dm, ps) => lemma_disconnect_roundtrip(c, dm, ps),
        MessageModel::Message(v) => {
            assert(b =~= b + Seq::<u8>::empty());
            lemma_value_roundtrip(v, Seq::empty());
        },
        _ => {},
    }
}

proof fn lemma_f3_roundtrip(m: MessageModel, t: u8)
    requires
        body_result(m) is Ok,
        message_distinct(m),
        type_byte(m) == Some(t),
        !(m matches MessageModel::RawMessage(x) && x.len() == 0),
    ensures
        parse_f3(seq![t] + body_result(m)->Ok_0) == Outcome::Parsed(m),
{
    let b = body_result(m)->Ok_0;
    let s = seq![t] + b;
    assert(t < 10);
    assert(t < 10 ==> t & 0x80u8 == 0 && t & 0x7Fu8 == t) by (bit_vector);
    lemma_body_roundtrip(m, t);
    assert(s.subrange(1, s.len() as int) =~= b);
    assert(s[0] == t);
}

proof fn lemma_ping_roundtrip(a: i32, c: i32)
    ensures
        parse_ping(i32_be(a) + i32_be(c)) == Outcome::Parsed((a, c)),
{
    let b = i32_be(a) + i32_be(c);
    lemma_i32_roundtrip(a, i32_be(c));
    lemma_i32_roundtrip(c, Seq::empty());
    assert(b.subrange(4, b.len() as int) =~= i32_be(c) + Seq::<u8>::empty());
}

/// Reading back the bytes written for a message gives the message. This holds of every message
/// that can be written and whose maps have distinct keys, except a raw message without payload,
/// which is too short to be read.
pub proof fn lemma_message_roundtrip(m: MessageModel)
    requires
        websocket_result(m) is Ok,
        message_distinct(m),
        !(m matches MessageModel::RawMessage(x) && x.len() == 0),
    ensures
        parse_message(websocket_result(m)->Ok_0) == Outcome::Parsed(m),
{
    let b = body_result(m)->Ok_0;
    let s = websocket_result(m)->Ok_0;
    match type_byte(m) {
        Some(t) => {
            assert(s =~= seq![0xF3u8] + (seq![t] + b));
            assert(s.subrange(1, s.len() as int) =~= seq![t] + b);
            lemma_f3_roundtrip(m, t);
        },
        None => {
            let (sv, cv) = match m {
                MessageModel::PingResult(a, c) => (a, c),
                _ => (0i32, 0i32),
            };
            assert(s.subrange(1, s.len() as int) =~= b);
            lemma_ping_roundtrip(sv, cv);
        },
    }
}

} // verus!
