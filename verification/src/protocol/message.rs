//! Messages of the WebSocket tunnel transport.
use vstd::prelude::*;
use crate::protocol::request::Headers;
use crate::tunnel::id::TunnelId;

verus! {

/// An HTTP request forwarded through the tunnel.
#[derive(Debug)]
pub struct RequestPayload {
    pub method: String,
    pub path: String,
    pub headers: Headers,
    pub body: Vec<u8>,
}

/// An HTTP response returned through the tunnel.
#[derive(Debug)]
pub struct ResponsePayload {
    pub status: u16,
    pub headers: Headers,
    pub body: Vec<u8>,
}

/// A message on the tunnel connection. Request identifiers are the 128 bits
/// of a UUID.
#[derive(Debug)]
pub enum TunnelMessage {
    Request { tunnel_id: TunnelId, request_id: u128, payload: RequestPayload },
    Response { request_id: u128, payload: ResponsePayload },
    Ping,
    Pong,
    RequestCancel { request_id: u128 },
}

/// The value of the message's `type` tag on the wire.
pub open spec fn message_kind_spec(m: TunnelMessage) -> Seq<char> {
    match m {
        TunnelMessage::Request { .. } => "request"@,
        TunnelMessage::Response { .. } => "response"@,
        TunnelMessage::Ping => "ping"@,
        TunnelMessage::Pong => "pong"@,
        TunnelMessage::RequestCancel { .. } => "request_cancel"@,
    }
}

impl TunnelMessage {
    /// The message's `type` tag: the variant's name in snake case.
    pub fn kind(&self) -> (r: &'static str)
        ensures
            r@ == message_kind_spec(*self),
    {
        match self {
            TunnelMessage::Request { .. } => {
                proof {
                    reveal_strlit("request");
                }
                "request"
            },
            TunnelMessage::Response { .. } => {
                proof {
                    reveal_strlit("response");
                }
                "response"
            },
            TunnelMessage::Ping => {
                proof {
                    reveal_strlit("ping");
                }
                "ping"
            },
            TunnelMessage::Pong => {
                proof {
                    reveal_strlit("pong");
                }
                "pong"
            },
            TunnelMessage::RequestCancel { .. } => {
                proof {
                    reveal_strlit("request_cancel");
                }
                "request_cancel"
            },
        }
    }
}

} // verus!
