//! Decoding a JSON document into a flashblock. Optional fields may be absent
//! or null; a field of the wrong shape rejects the message. Unknown members
//! are ignored.

use vstd::prelude::*;
use crate::flashblock::{Flashblock, FlashblockBase, FlashblockDiff, FlashblockMetadata};
use crate::json::{member, take_member, JsonNumber, JsonValue};

verus! {

/// The message does not have the shape of a flashblock.
#[derive(Clone, Copy, Debug, PartialEq, Eq, Structural)]
pub struct DecodeError;

pub open spec fn absent(v: Option<JsonValue>) -> bool {
    v.is_none() || v == Some(JsonValue::Null)
}

pub open spec fn is_text(v: Option<JsonValue>) -> bool {
    v matches Some(JsonValue::Str(_))
}

pub open spec fn opt_text_as(v: Option<JsonValue>, r: Option<String>) -> bool {
    match r {
        Some(t) => v == Some(JsonValue::Str(t)),
        None => absent(v),
    }
}

pub open spec fn is_uint(v: Option<JsonValue>) -> bool {
    v matches Some(JsonValue::Number(JsonNumber::UInt(_)))
}

pub open spec fn opt_uint_as(v: Option<JsonValue>, r: Option<u64>) -> bool {
    match r {
        Some(n) => v == Some(JsonValue::Number(JsonNumber::UInt(n))),
        None => absent(v),
    }
}

pub open spec fn all_text(items: Seq<JsonValue>) -> bool {
    forall|i: int| 0 <= i < items.len() ==> (#[trigger] items[i]) matches JsonValue::Str(_)
}

pub open spec fn texts_as(items: Seq<JsonValue>, t: Seq<String>) -> bool {
    &&& items.len() == t.len()
    &&& forall|i: int| 0 <= i < items.len() ==> #[trigger] items[i] == JsonValue::Str(t[i])
}

pub open spec fn opt_texts_valid(v: Option<JsonValue>) -> bool {
    absent(v) || (v matches Some(JsonValue::Array(items)) && all_text(items@))
}

pub open spec fn opt_texts_as(v: Option<JsonValue>, r: Option<Vec<String>>) -> bool {
    match r {
        Some(t) => v matches Some(JsonValue::Array(items)) && texts_as(items@, t@),
        None => absent(v),
    }
}

pub open spec fn opt_array_as(v: Option<JsonValue>, r: Option<Vec<JsonValue>>) -> bool {
    match r {
        Some(a) => v == Some(JsonValue::Array(a)),
        None => absent(v),
    }
}

pub open spec fn opt_any_as(v: Option<JsonValue>, r: Option<JsonValue>) -> bool {
    match r {
        Some(x) => v == Some(x) && x != JsonValue::Null,
        None => absent(v),
    }
}

pub open spec fn base_valid(e: Seq<(String, JsonValue)>) -> bool {
    &&& is_text(member(e, "parent_hash"@))
    &&& is_text(member(e, "fee_recipient"@))
    &&& is_text(member(e, "block_number"@))
    &&& is_text(member(e, "gas_limit"@))
    &&& is_text(member(e, "timestamp"@))
    &&& is_text(member(e, "base_fee_per_gas"@))
}

pub open spec fn base_as(e: Seq<(String, JsonValue)>, b: FlashblockBase) -> bool {
    &&& member(e, "parent_hash"@) == Some(JsonValue::Str(b.parent_hash))
    &&& member(e, "fee_recipient"@) == Some(JsonValue::Str(b.fee_recipient))
    &&& member(e, "block_number"@) == Some(JsonValue::Str(b.block_number))
    &&& member(e, "gas_limit"@) == Some(JsonValue::Str(b.gas_limit))
    &&& member(e, "timestamp"@) == Some(JsonValue::Str(b.timestamp))
    &&& member(e, "base_fee_per_gas"@) == Some(JsonValue::Str(b.base_fee_per_gas))
}

pub open spec fn opt_base_valid(v: Option<JsonValue>) -> bool {
    absent(v) || (v matches Some(JsonValue::Object(e)) && base_valid(e@))
}

pub open spec fn opt_base_as(v: Option<JsonValue>, r: Option<FlashblockBase>) -> bool {
    match r {
        Some(b) => v matches Some(JsonValue::Object(e)) && base_as(e@, b),
        None => absent(v),
    }
}

pub open spec fn diff_valid(e: Seq<(String, JsonValue)>) -> bool {
    &&& opt_text_valid(member(e, "state_root"@))
    &&& opt_text_valid(member(e, "block_hash"@))
    &&& opt_text_valid(member(e, "gas_used"@))
    &&& opt_texts_valid(member(e, "transactions"@))
    &&& opt_array_valid(member(e, "withdrawals"@))
}

pub open spec fn opt_text_valid(v: Option<JsonValue>) -> bool {
    absent(v) || is_text(v)
}

pub open spec fn opt_array_valid(v: Option<JsonValue>) -> bool {
    absent(v) || v matches Some(JsonValue::Array(_))
}

pub open spec fn diff_as(e: Seq<(String, JsonValue)>, d: FlashblockDiff) -> bool {
    &&& opt_text_as(member(e, "state_root"@), d.state_root)
    &&& opt_text_as(member(e, "block_hash"@), d.block_hash)
    &&& opt_text_as(member(e, "gas_used"@), d.gas_used)
    &&& opt_texts_as(member(e, "transactions"@), d.transactions)
    &&& opt_array_as(member(e, "withdrawals"@), d.withdrawals)
}

pub open spec fn metadata_valid(e: Seq<(String, JsonValue)>) -> bool {
    absent(member(e, "block_number"@)) || is_uint(member(e, "block_number"@))
}

pub open spec fn metadata_as(e: Seq<(String, JsonValue)>, m: FlashblockMetadata) -> bool {
    &&& opt_uint_as(member(e, "block_number"@), m.block_number)
    &&& opt_any_as(member(e, "new_account_balances"@), m.new_account_balances)
    &&& opt_any_as(member(e, "receipts"@), m.receipts)
}

/// The members of a flashblock: a text payload id, an unsigned index, an
/// optional base, and a diff and metadata object.
pub open spec fn flashblock_valid(e: Seq<(String, JsonValue)>) -> bool {
    &&& is_text(member(e, "payload_id"@))
    &&& is_uint(member(e, "index"@))
    &&& opt_base_valid(member(e, "base"@))
    &&& member(e, "diff"@) matches Some(JsonValue::Object(d)) && diff_valid(d@)
    &&& member(e, "metadata"@) matches Some(JsonValue::Object(m)) && metadata_valid(m@)
}

pub open spec fn flashblock_as(e: Seq<(String, JsonValue)>, fb: Flashblock) -> bool {
    &&& member(e, "payload_id"@) == Some(JsonValue::Str(fb.payload_id))
    &&& member(e, "index"@) == Some(JsonValue::Number(JsonNumber::UInt(fb.index)))
    &&& opt_base_as(member(e, "base"@), fb.base)
    &&& member(e, "diff"@) matches Some(JsonValue::Object(d)) && diff_as(d@, fb.diff)
    &&& member(e, "metadata"@) matches Some(JsonValue::Object(m)) && metadata_as(m@, fb.metadata)
}

fn text(v: Option<JsonValue>) -> (r: Result<String, DecodeError>)
    ensures
        r is Ok <==> is_text(v),
        r matches Ok(t) ==> v == Some(JsonValue::Str(t)),
{
    match v {
        Some(JsonValue::Str(t)) => Ok(t),
        _ => Err(DecodeError),
    }
}

fn opt_text(v: Option<JsonValue>) -> (r: Result<Option<String>, DecodeError>)
    ensures
        r is Ok <==> opt_text_valid(v),
        r matches Ok(t) ==> opt_text_as(v, t),
{
    match v {
        None => Ok(None),
        Some(JsonValue::Null) => Ok(None),
        Some(JsonValue::Str(t)) => Ok(Some(t)),
        _ => Err(DecodeError),
    }
}

fn opt_uint(v: Option<JsonValue>) -> (r: Result<Option<u64>, DecodeError>)
    ensures
        r is Ok <==> (absent(v) || is_uint(v)),
        r matches Ok(n) ==> opt_uint_as(v, n),
{
    match v {
        None => Ok(None),
        Some(JsonValue::Null) => Ok(None),
        Some(JsonValue::Number(JsonNumber::UInt(n))) => Ok(Some(n)),
        _ => Err(DecodeError),
    }
}

fn opt_any(v: Option<JsonValue>) -> (r: Option<JsonValue>)
    ensures
        opt_any_as(v, r),
{
    match v {
        None => None,
        Some(JsonValue::Null) => None,
        Some(x) => Some(x),
    }
}

fn opt_array(v: Option<JsonValue>) -> (r: Result<Option<Vec<JsonValue>>, DecodeError>)
    ensures
        r is Ok <==> opt_array_valid(v),
        r matches Ok(a) ==> opt_array_as(v, a),
{
    match v {
        None => Ok(None),
        Some(JsonValue::Null) => Ok(None),
        Some(JsonValue::Array(a)) => Ok(Some(a)),
        _ => Err(DecodeError),
    }
}

fn texts(items: Vec<JsonValue>) -> (r: Result<Vec<String>, DecodeError>)
    ensures
        r is Ok <==> all_text(items@),
        r matches Ok(t) ==> texts_as(items@, t@),
{
    let ghost orig = items@;
    let mut rest = items;
    let mut out: Vec<String> = Vec::new();
    while rest.len() > 0
        invariant
            orig == items@,
            out@.len() + rest@.len() == orig.len(),
            rest@ == orig.skip(out@.len() as int),
            forall|i: int| 0 <= i < out@.len() ==> #[trigger] orig[i] == JsonValue::Str(out@[i]),
        decreases rest@.len(),
    {
        let ghost k = out@.len() as int;
        assert(rest@[0] == orig[k]);
        let item = rest.remove(0);
        match item {
            JsonValue::Str(t) => {
                out.push(t);
                assert(rest@ =~= orig.skip(out@.len() as int));
            },
            _ => {
                assert(!(orig[k] matches JsonValue::Str(_)));
                return Err(DecodeError);
            },
        }
    }
    Ok(out)
}

fn opt_texts(v: Option<JsonValue>) -> (r: Result<Option<Vec<String>>, DecodeError>)
    ensures
        r is Ok <==> opt_texts_valid(v),
        r matches Ok(t) ==> opt_texts_as(v, t),
{
    match v {
        None => Ok(None),
        Some(JsonValue::Null) => Ok(None),
        Some(JsonValue::Array(items)) => {
            match texts(items) {
                Ok(t) => Ok(Some(t)),
                Err(e) => Err(e),
            }
        },
        _ => Err(DecodeError),
    }
}

fn decode_base(e: Vec<(String, JsonValue)>) -> (r: Result<FlashblockBase, DecodeError>)
    ensures
        r is Ok <==> base_valid(e@),
        r matches Ok(b) ==> base_as(e@, b),
{
    proof {
        reveal_strlit("parent_hash");
        reveal_strlit("fee_recipient");
        reveal_strlit("block_number");
        reveal_strlit("gas_limit");
        reveal_strlit("timestamp");
        reveal_strlit("base_fee_per_gas");
        assert("parent_hash"@.len() == 11);
        assert("fee_recipient"@.len() == 13);
        assert("block_number"@.len() == 12);
        assert("gas_limit"@.len() == 9);
        assert("timestamp"@.len() == 9);
        assert("base_fee_per_gas"@.len() == 16);
        assert("gas_limit"@[0] == 'g');
        assert("timestamp"@[0] == 't');
    }
    let mut m = e;
    let parent_hash = match text(take_member(&mut m, "parent_hash")) {
        Ok(t) => t,
        Err(x) => return Err(x),
    };
    let fee_recipient = match text(take_member(&mut m, "fee_recipient")) {
        Ok(t) => t,
        Err(x) => return Err(x),
    };
    let block_number = match text(take_member(&mut m, "block_number")) {
        Ok(t) => t,
        Err(x) => return Err(x),
    };
    let gas_limit = match text(take_member(&mut m, "gas_limit")) {
        Ok(t) => t,
        Err(x) => return Err(x),
    };
    let timestamp = match text(take_member(&mut m, "timestamp")) {
        Ok(t) => t,
        Err(x) => return Err(x),
    };
    let base_fee_per_gas = match text(take_member(&mut m, "base_fee_per_gas")) {
        Ok(t) => t,
        Err(x) => return Err(x),
    };
    Ok(FlashblockBase { parent_hash, fee_recipient, block_number, gas_limit, timestamp, base_fee_per_gas })
}

fn opt_base(v: Option<JsonValue>) -> (r: Result<Option<FlashblockBase>, DecodeError>)
    ensures
        r is Ok <==> opt_base_valid(v),
        r matches Ok(b) ==> opt_base_as(v, b),
{
    match v {
        None => Ok(None),
        Some(JsonValue::Null) => Ok(None),
        Some(JsonValue::Object(e)) => match decode_base(e) {
            Ok(b) => Ok(Some(b)),
            Err(x) => Err(x),
        },
        _ => Err(DecodeError),
    }
}

fn decode_diff(e: Vec<(String, JsonValue)>) -> (r: Result<FlashblockDiff, DecodeError>)
    ensures
        r is Ok <==> diff_valid(e@),
        r matches Ok(d) ==> diff_as(e@, d),
{
    proof {
        reveal_strlit("state_root");
        reveal_strlit("block_hash");
        reveal_strlit("gas_used");
        reveal_strlit("transactions");
        reveal_strlit("withdrawals");
        assert("state_root"@.len() == 10);
        assert("block_hash"@.len() == 10);
        assert("gas_used"@.len() == 8);
        assert("transactions"@.len() == 12);
        assert("withdrawals"@.len() == 11);
        assert("state_root"@[0] == 's');
        assert("block_hash"@[0] == 'b');
    }
    let mut m = e;
    let state_root = match opt_text(take_member(&mut m, "state_root")) {
        Ok(t) => t,
        Err(x) => return Err(x),
    };
    let block_hash = match opt_text(take_member(&mut m, "block_hash")) {
        Ok(t) => t,
        Err(x) => return Err(x),
    };
    let gas_used = match opt_text(take_member(&mut m, "gas_used")) {
        Ok(t) => t,
        Err(x) => return Err(x),
    };
    let transactions = match opt_texts(take_member(&mut m, "transactions")) {
        Ok(t) => t,
        Err(x) => return Err(x),
    };
    let withdrawals = match opt_array(take_member(&mut m, "withdrawals")) {
        Ok(t) => t,
        Err(x) => return Err(x),
    };
    Ok(FlashblockDiff { state_root, block_hash, gas_used, transactions, withdrawals })
}

fn decode_metadata(e: Vec<(String, JsonValue)>) -> (r: Result<FlashblockMetadata, DecodeError>)
    ensures
        r is Ok <==> metadata_valid(e@),
        r matches Ok(m) ==> metadata_as(e@, m),
{
    proof {
        reveal_strlit("block_number");
        reveal_strlit("new_account_balances");
        reveal_strlit("receipts");
        assert("block_number"@.len() == 12);
        assert("new_account_balances"@.len() == 20);
        assert("receipts"@.len() == 8);
    }
    let mut m = e;
    let block_number = match opt_uint(take_member(&mut m, "block_number")) {
        Ok(n) => n,
        Err(x) => return Err(x),
    };
    let new_account_balances = opt_any(take_member(&mut m, "new_account_balances"));
    let receipts = opt_any(take_member(&mut m, "receipts"));
    Ok(FlashblockMetadata { block_number, new_account_balances, receipts })
}

/// Decodes the members of a JSON object into a flashblock.
pub fn decode_flashblock(e: Vec<(String, JsonValue)>) -> (r: Result<Flashblock, DecodeError>)
    ensures
        r is Ok <==> flashblock_valid(e@),
        r matches Ok(fb) ==> flashblock_as(e@, fb),
{
    proof {
        reveal_strlit("payload_id");
        reveal_strlit("index");
        reveal_strlit("base");
        reveal_strlit("diff");
        reveal_strlit("metadata");
        assert("payload_id"@.len() == 10);
        assert("index"@.len() == 5);
        assert("base"@.len() == 4);
        assert("diff"@.len() == 4);
        assert("metadata"@.len() == 8);
        assert("base"@[0] == 'b');
        assert("diff"@[0] == 'd');
    }
    let mut m = e;
    let payload_id = match text(take_member(&mut m, "payload_id")) {
        Ok(t) => t,
        Err(x) => return Err(x),
    };
    let index = match take_member(&mut m, "index") {
        Some(JsonValue::Number(JsonNumber::UInt(n))) => n,
        _ => return Err(DecodeError),
    };
    let base = match opt_base(take_member(&mut m, "base")) {
        Ok(b) => b,
        Err(x) => return Err(x),
    };
    let diff = match take_member(&mut m, "diff") {
        Some(JsonValue::Object(d)) => match decode_diff(d) {
            Ok(d) => d,
            Err(x) => return Err(x),
        },
        _ => return Err(DecodeError),
    };
    let metadata = match take_member(&mut m, "metadata") {
        Some(JsonValue::Object(m)) => match decode_metadata(m) {
            Ok(m) => m,
            Err(x) => return Err(x),
        },
        _ => return Err(DecodeError),
    };
    Ok(Flashblock { payload_id, index, base, diff, metadata })
}

/// What a wire message turned out to be.
#[derive(Debug)]
pub enum WireMessage {
    Flashblock(Flashblock),
    /// A JSON-RPC error reply, with its `error` member.
    RpcError(JsonValue),
    /// Anything else: a reply to the subscription, or a malformed message.
    Unrecognized,
}

/// The members that carry the flashblock: those of `params.result` when the
/// message is a subscription notification, else the message's own.
pub open spec fn payload_members(e: Seq<(String, JsonValue)>) -> Seq<(String, JsonValue)> {
    match member(e, "params"@) {
        Some(JsonValue::Object(p)) => match member(p@, "result"@) {
            Some(JsonValue::Object(inner)) => inner@,
            _ => e,
        },
        _ => e,
    }
}

pub open spec fn message_as(v: JsonValue, r: WireMessage) -> bool {
    match v {
        JsonValue::Object(e) => match member(e@, "error"@) {
            Some(err) => r == WireMessage::RpcError(err),
            None => if flashblock_valid(payload_members(e@)) {
                r matches WireMessage::Flashblock(fb) && flashblock_as(payload_members(e@), fb)
            } else {
                r is Unrecognized
            },
        },
        _ => r is Unrecognized,
    }
}

fn classify(r: Result<Flashblock, DecodeError>) -> (m: WireMessage)
    ensures
        r matches Ok(fb) ==> m == WireMessage::Flashblock(fb),
        r is Err ==> m is Unrecognized,
{
    match r {
        Ok(fb) => WireMessage::Flashblock(fb),
        Err(_) => WireMessage::Unrecognized,
    }
}

/// Classifies a parsed message: an object with an `error` member is an RPC
/// error; otherwise it is a flashblock if it, or the `result` of its
/// notification envelope, has that shape.
pub fn decode_message(v: JsonValue) -> (r: WireMessage)
    ensures
        message_as(v, r),
{
    proof {
        reveal_strlit("params");
        reveal_strlit("payload_id");
        reveal_strlit("index");
        reveal_strlit("base");
        reveal_strlit("diff");
        reveal_strlit("metadata");
        assert("params"@.len() == 6);
        assert("payload_id"@.len() == 10);
        assert("index"@.len() == 5);
        assert("base"@.len() == 4);
        assert("diff"@.len() == 4);
        assert("metadata"@.len() == 8);
    }
    match v {
        JsonValue::Object(e) => {
            let mut m = e;
            match take_member(&mut m, "error") {
                Some(err) => WireMessage::RpcError(err),
                None => match take_member(&mut m, "params") {
                    Some(JsonValue::Object(p)) => {
                        let mut pm = p;
                        match take_member(&mut pm, "result") {
                            Some(JsonValue::Object(inner)) => classify(decode_flashblock(inner)),
                            _ => classify(decode_flashblock(m)),
                        }
                    },
                    _ => classify(decode_flashblock(m)),
                },
            }
        },
        _ => WireMessage::Unrecognized,
    }
}

} // verus!
