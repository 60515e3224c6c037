//! What transports carry: text frames (encoded messages) and binary frames
//! (raw data for the session's data handler).
use vstd::prelude::*;
use vstd::string::*;

use crate::text::{debug_quoted, decimal, lossy_text, push_decimal, quoted_text, utf8_lossy};

verus! {

/// One frame on a transport.
#[derive(Clone, PartialEq, Eq)]
pub enum TransportMessage {
    Text(Vec<u8>),
    Binary(Vec<u8>),
}

impl TransportMessage {
    /// What `{:?}` prints: a text frame with its bytes read as (lossy) UTF-8
    /// and quoted, a binary frame with its length only.
    pub open spec fn spec_debug(&self) -> Seq<char> {
        match self {
            TransportMessage::Text(bytes) => "TransportMessage::Text("@ + debug_quoted(
                utf8_lossy(bytes@),
            ) + ")"@,
            TransportMessage::Binary(bytes) => "TransportMessage::Binary(len="@ + decimal(
                bytes.len() as nat,
            ) + ")"@,
        }
    }

    /// The debug text of the frame.
    pub fn debug_text(&self) -> (r: String)
        ensures
            r@ == self.spec_debug(),
    {
        proof {
            reveal_strlit("TransportMessage::Text(");
            reveal_strlit("TransportMessage::Binary(len=");
            reveal_strlit(")");
        }
        match self {
            TransportMessage::Text(bytes) => {
                let mut s = String::from_str("TransportMessage::Text(");
                let text = lossy_text(bytes.as_slice());
                let quoted = quoted_text(text.as_str());
                s.append(quoted.as_str());
                s.append(")");
                s
            },
            TransportMessage::Binary(bytes) => {
                let mut s = String::from_str("TransportMessage::Binary(len=");
                push_decimal(&mut s, bytes.len() as u64);
                s.append(")");
                s
            },
        }
    }
}

} // verus!
