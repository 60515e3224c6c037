//! Transport-independent RPC sessions: the message protocol, its JSON codec,
//! and the decisions a session takes on what it sends and receives.
pub mod codec;
pub mod dispatch;
pub mod json;
pub mod layout;
pub mod message;
pub mod pending;
pub mod schema;
pub mod session;
pub mod table;
pub mod text;
pub mod transport;
pub mod wire;

pub use codec::{CodecError, JsonCodec};
pub use dispatch::HandlerRoutes;
pub use message::{
    ErrorBody, ErrorCode, Event, Message, Request, RequestError, RequestResult, Response,
    StandardErrorCode,
};
pub use pending::PendingRequests;
pub use session::{
    finish_request, reply, text_frame, HandlerError, Incoming, Received, RpcSessionError,
    SessionState, WaitOutcome,
};
pub use transport::TransportMessage;
