//! The WebSocket echo session.
//!
//! One session runs per upgraded connection. It is a state machine
//! over the frame kinds of the protocol: each inbound frame yields at
//! most one scripted reply, and the session stays open until the peer
//! closes, the transport fails, or a transport-internal fragment
//! reaches it — which is an invariant violation that ends only this
//! session, never the process. The transport loop around it feeds it
//! frames and sends its replies.

use vstd::prelude::*;

verus! {

/// The close code and reason a peer may send with a close frame.
pub struct CloseReason {
    pub code: u16,
    pub reason: String,
}

/// One inbound frame, after the transport has reassembled fragments.
/// `Fragment` stands for the transport-internal frame kind that must
/// never reach the session once reassembly is done.
pub enum Frame {
    Text(String),
    Binary(Vec<u8>),
    Ping(Vec<u8>),
    Pong(Vec<u8>),
    Close(Option<CloseReason>),
    Fragment,
}

/// One scripted reply the session asks the transport to send.
pub enum Reply {
    Text(String),
    Binary(Vec<u8>),
    Pong(Vec<u8>),
}

/// The scripted text sent for every inbound text frame: a fixed
/// signing-request fixture, not an echo of the input.
pub open spec fn sp_requested_sign() -> Seq<char> {
    "{\"type\":\"requested-sign\",\"requestId\":\"12345\",\"request\":{\"type\":\"SignData\",\"requestId\":\"req-12345\",\"socketId\":\"socket-12345\",\"hash\":\"hash-string\",\"data\":{\"purpose\":\"i have some purpose\",\"amount\":12345,\"did\":\"my-did\"}}}"@
}

/// The fixed acknowledgement sent for every inbound binary frame.
pub open spec fn sp_binary_ack() -> Seq<u8> {
    vstd::utf8::encode_utf8("Thank you, come again."@)
}

/// One echo session: open until a close frame, a fragment, or the
/// transport ends it. `transport_pongs` records whether the transport
/// answers pings itself; only when it does not does the session reply
/// with a pong of its own.
pub struct WsSession {
    pub open: bool,
    pub transport_pongs: bool,
}

impl WsSession {
    /// A fresh session on a just-upgraded connection.
    pub fn new(transport_pongs: bool) -> (s: WsSession)
        ensures
            s.open,
            s.transport_pongs == transport_pongs,
    {
        WsSession { open: true, transport_pongs }
    }

    /// Consumes one inbound frame and yields at most one reply.
    ///
    /// A text frame yields exactly one reply, the signing-request
    /// fixture; a binary frame the fixed acknowledgement; a ping a
    /// pong with the same payload, unless the transport already sent
    /// one; a pong nothing. A close frame or a stray fragment ends
    /// the session, and a closed session never replies again.
    pub fn step(&mut self, frame: Frame) -> (r: Option<Reply>)
        ensures
            final(self).transport_pongs == old(self).transport_pongs,
            !old(self).open ==> r is None && !final(self).open,
            old(self).open ==> match frame {
                Frame::Text(_) => final(self).open && (r matches Some(Reply::Text(t)) && t@
                    == sp_requested_sign()),
                Frame::Binary(_) => final(self).open && (r matches Some(Reply::Binary(b)) && b@
                    == sp_binary_ack()),
                Frame::Ping(p) => final(self).open && if old(self).transport_pongs {
                    r is None
                } else {
                    r matches Some(Reply::Pong(q)) && q@ == p@
                },
                Frame::Pong(_) => final(self).open && r is None,
                Frame::Close(_) => !final(self).open && r is None,
                Frame::Fragment => !final(self).open && r is None,
            },
    {
        if !self.open {
            return None;
        }
        match frame {
            Frame::Text(_msg) => Some(
                Reply::Text(
                    String::from_str(
                        "{\"type\":\"requested-sign\",\"requestId\":\"12345\",\"request\":{\"type\":\"SignData\",\"requestId\":\"req-12345\",\"socketId\":\"socket-12345\",\"hash\":\"hash-string\",\"data\":{\"purpose\":\"i have some purpose\",\"amount\":12345,\"did\":\"my-did\"}}}",
                    ),
                ),
            ),
            Frame::Binary(_msg) => Some(Reply::Binary("Thank you, come again.".as_bytes_vec())),
            Frame::Ping(p) => {
                if self.transport_pongs {
                    None
                } else {
                    Some(Reply::Pong(p))
                }
            },
            Frame::Pong(_msg) => None,
            Frame::Close(_reason) => {
                self.open = false;
                None
            },
            Frame::Fragment => {
                self.open = false;
                None
            },
        }
    }
}

/// Law: the scripted text reply names the `requested-sign` type, a
/// non-empty request id, and a `request` object, so every text frame
/// is answered by a frame whose JSON body carries those fields.
pub proof fn lemma_requested_sign_shape()
    ensures
        sp_requested_sign().subrange(1, 24) == "\"type\":\"requested-sign\""@,
        sp_requested_sign().subrange(25, 44) == "\"requestId\":\"12345\""@,
        sp_requested_sign().subrange(45, 56) == "\"request\":{"@,
{
    reveal_strlit(
        "{\"type\":\"requested-sign\",\"requestId\":\"12345\",\"request\":{\"type\":\"SignData\",\"requestId\":\"req-12345\",\"socketId\":\"socket-12345\",\"hash\":\"hash-string\",\"data\":{\"purpose\":\"i have some purpose\",\"amount\":12345,\"did\":\"my-did\"}}}",
    );
    reveal_strlit("\"type\":\"requested-sign\"");
    reveal_strlit("\"requestId\":\"12345\"");
    reveal_strlit("\"request\":{");
    assert(sp_requested_sign().subrange(1, 24) =~= "\"type\":\"requested-sign\""@);
    assert(sp_requested_sign().subrange(25, 44) =~= "\"requestId\":\"12345\""@);
    assert(sp_requested_sign().subrange(45, 56) =~= "\"request\":{"@);
}

} // verus!
