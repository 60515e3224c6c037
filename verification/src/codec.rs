//! The JSON codec: messages to bytes and back.
use vstd::prelude::*;

use crate::json::{json_from_slice, json_model, json_parse, within_depth};
use crate::message::{Message, MessageModel};
use crate::layout::{text_layout, text_shape, written_once};
use crate::wire::{
    canon_message, decode_message_in, lemma_message_json_round_trip, lemma_message_members,
    lemma_message_members_fit, lemma_written_once_reads_document, message_json, message_text,
};

verus! {

/// Writes messages as compact JSON text and reads them back.
#[derive(Clone, Copy, Debug)]
pub struct JsonCodec;

/// Why bytes could not be read as a message.
#[derive(Debug)]
pub enum CodecError {
    /// The bytes are no JSON document.
    Syntax(serde_json::Error),
    /// The document is none of the message kinds.
    NotAMessage,
}

/// The message that bytes read as, if any: the JSON document they hold,
/// read as a message.
pub open spec fn decoded(bytes: Seq<u8>) -> Option<MessageModel> {
    match json_parse(bytes) {
        Some(j) => decode_message_in(j, text_layout(bytes)),
        None => None,
    }
}

impl JsonCodec {
    pub fn new() -> (r: JsonCodec) {
        JsonCodec
    }

    /// Writes `msg` as JSON text, its members in field order. This never
    /// fails, and the text gives no field twice (unless the message nests
    /// more than the parser reads), so `decode` reads it back.
    pub fn encode(&self, msg: &Message) -> (r: Result<Vec<u8>, CodecError>)
        ensures
            r matches Ok(bytes) && bytes@ == message_text(msg@),
            r matches Ok(bytes) ==> (within_depth(message_json(msg@), 127) ==> written_once(
                text_layout(bytes@),
            )),
    {
        Ok(msg.to_text())
    }

    /// Reads a message from JSON text. A kind of message whose fields the
    /// text gives twice is not read. What `encode` writes for a message reads
    /// back as that message, a `null` payload as an absent one, unless the
    /// message's document nests more than 127 levels (the parser's limit).
    pub fn decode(&self, data: &[u8]) -> (r: Result<Message, CodecError>)
        ensures
            match json_parse(data@) {
                None => r matches Err(CodecError::Syntax(_)),
                Some(j) => match decode_message_in(j, text_layout(data@)) {
                    None => r matches Err(CodecError::NotAMessage),
                    Some(m) => r matches Ok(x) && x@ == m,
                },
            },
            forall|m: Message|
                #![trigger message_text(m@)]
                message_text(m@) == data@ && within_depth(message_json(m@), 127) && written_once(
                    text_layout(data@),
                ) ==> (r matches Ok(x) && x@ == canon_message(m@)),
    {
        let parsed = json_from_slice(data);
        let shape = text_shape(data);
        proof {
            assert forall|m: Message|
                #![trigger message_text(m@)]
                message_text(m@) == data@ && within_depth(message_json(m@), 127) && written_once(
                    text_layout(data@),
                ) implies (parsed matches Ok(v) && decode_message_in(json_model(v), shape@)
                == Some(canon_message(m@))) by {
                lemma_message_members(m@);
                lemma_message_members_fit(m);
                lemma_message_json_round_trip(m@);
                if let Ok(v) = parsed {
                    lemma_written_once_reads_document(json_model(v), shape@);
                }
            }
        }
        match parsed {
            Err(e) => Err(CodecError::Syntax(e)),
            Ok(doc) => match Message::from_json(&doc, &shape) {
                Some(m) => Ok(m),
                None => Err(CodecError::NotAMessage),
            },
        }
    }
}

} // verus!
