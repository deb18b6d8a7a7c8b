//! A WebSocket on the server's side, without the socket itself.

use crate::digest::{base64_text, sha1_digest};
use crate::error::WebsocketError;
use crate::frame::{Frame, FrameView, Message, MessageView};
use crate::handshake::{
    accept_request, is_digestible, key_text, opening_response, optional_text,
};
use crate::handshake_laws::law_key_answered;
use crate::http::{field_value, Request, Response};
use crate::receiver::{
    answer, breach_of, bytes_wanted, step, well_formed, Breach, ReadOutcome, Receiver,
    ReceiverView, RecvError,
};
use crate::sender::{encode_message, is_sendable, sent_bytes};
use vstd::prelude::*;
use vstd::utf8::*;

verus! {

/// WebSocket handler. Frames come in through [`Websocket::recv`], which is handed
/// what was read from the socket, and go out through the bytes that
/// [`Websocket::take_outgoing`] hands over to be written.
#[derive(Debug)]
pub struct Websocket {
    receiver: Receiver,
    outgoing: Vec<u8>,
}

/// State of a [`Websocket`]: how far the reception of a frame has come, and which
/// bytes wait to be written.
#[verifier::ext_equal]
pub struct WebsocketView {
    pub receiver: ReceiverView,
    pub outgoing: Seq<u8>,
}

impl View for Websocket {
    type V = WebsocketView;

    closed spec fn view(&self) -> WebsocketView {
        WebsocketView { receiver: self.receiver@, outgoing: self.outgoing@ }
    }
}

impl Websocket {
    /// The state has been reached by way of the methods.
    pub open spec fn wf(&self) -> bool {
        well_formed(self@.receiver)
    }

    /// Opens a WebSocket in answer to a request, and gives the response that
    /// switches the connection over. `protocol` is a subprotocol to declare.
    pub fn new(request: &Request, protocol: Option<&str>) -> (result: Result<
        (Websocket, Response),
        WebsocketError,
    >)
        requires
            protocol matches Some(name) ==> is_ascii_chars(name@),
            key_text(request@) matches Some(key) ==> is_digestible(key),
        ensures
            match opening_response(request@, optional_text(protocol)) {
                Some(owed) => {
                    &&& result matches Ok((websocket, response))
                    &&& websocket.wf()
                    &&& websocket@ == (WebsocketView {
                        receiver: ReceiverView::Idle,
                        outgoing: Seq::empty(),
                    })
                    &&& response@ == owed
                },
                None => result == Err::<(Websocket, Response), WebsocketError>(
                    WebsocketError::MissingKeyField,
                ),
            },
            field_value(request@, "Sec-Websocket-Key"@) is None ==> result == Err::<
                (Websocket, Response),
                WebsocketError,
            >(WebsocketError::MissingKeyField),
            field_value(request@, "Sec-Websocket-Key"@) matches Some(key) ==> {
                &&& result matches Ok((websocket, response))
                &&& websocket@.receiver == ReceiverView::Idle
                &&& websocket@.outgoing == Seq::<u8>::empty()
                &&& response.status.0 == 101
                &&& response.headers@.len() == (if protocol is Some {
                    2int
                } else {
                    1int
                })
                &&& response.headers@.last().field.0@ == "Sec-Websocket-Accept"@
                &&& response.headers@.last().value@ == base64_text(
                    sha1_digest(
                        encode_utf8(key) + encode_utf8("258EAFA5-E914-47DA-95CA-C5AB0DC85B11"@),
                    ),
                )
                &&& field_value(response@.headers, "Sec-Websocket-Accept"@) == Some(
                    base64_text(
                        sha1_digest(
                            encode_utf8(key) + encode_utf8(
                                "258EAFA5-E914-47DA-95CA-C5AB0DC85B11"@,
                            ),
                        ),
                    ),
                )
                &&& field_value(response@.headers, "Sec-Websocket-Protocol"@) == optional_text(
                    protocol,
                )
                &&& protocol matches Some(name) ==> response.headers@[0].field.0@
                    == "Sec-Websocket-Protocol"@ && response.headers@[0].value@ == name@
            },
    {
        match accept_request(request, protocol) {
            Ok(response) => {
                let websocket = Websocket { receiver: Receiver::new(), outgoing: Vec::new() };
                assert(websocket@.outgoing =~= Seq::<u8>::empty());
                proof {
                    if let Some(key) = field_value(request@, "Sec-Websocket-Key"@) {
                        law_key_answered(request@, key, optional_text(protocol));
                    }
                }
                Ok((websocket, response))
            },
            Err(error) => Err(error),
        }
    }

    /// How many bytes are to be read from the socket next.
    pub fn wanted(&self) -> (count: u64)
        ensures
            count == bytes_wanted(self@.receiver),
    {
        self.receiver.wanted()
    }

    /// What the client did wrong, if what came makes it impossible to go on.
    pub fn breach(&self, read: &ReadOutcome) -> (breach: Option<Breach>)
        ensures
            breach == breach_of(self@.receiver, read@),
    {
        self.receiver.breach(read)
    }

    /// Takes in what was read from the socket. The answer is `None` as long as the
    /// frame is not complete.
    pub fn recv(&mut self, read: ReadOutcome) -> (reply: Option<Result<Message, RecvError>>)
        requires
            old(self).wf(),
            read@.bytes.len() <= bytes_wanted(old(self)@.receiver),
            breach_of(old(self)@.receiver, read@) is None,
        ensures
            final(self).wf(),
            (final(self)@.receiver, answer(reply)) == step(old(self)@.receiver, read@),
            final(self)@.outgoing == old(self)@.outgoing,
            reply is Some ==> final(self)@.receiver == ReceiverView::Idle,
    {
        self.receiver.recv(read)
    }

    /// Queues a text message.
    pub fn send_text(&mut self, data: &str)
        ensures
            final(self)@ == (WebsocketView {
                outgoing: old(self)@.outgoing + sent_bytes(
                    MessageView { fin: true, frame: FrameView::Text(data@) },
                ),
                ..old(self)@
            }),
            final(self)@.outgoing == old(self)@.outgoing + (seq![
                0x81u8,
                (encode_utf8(data@).len() % 256) as u8,
            ] + encode_utf8(data@)),
    {
        self.send_message(Message { fin: true, frame: Frame::Text(data.to_string()) })
    }

    /// Queues a `Ping` with the given payload.
    pub fn ping(&mut self, msg: &str)
        ensures
            final(self)@ == (WebsocketView {
                outgoing: old(self)@.outgoing + sent_bytes(
                    MessageView { fin: true, frame: FrameView::Ping(Some(msg@)) },
                ),
                ..old(self)@
            }),
            final(self)@.outgoing == old(self)@.outgoing + (seq![
                0x89u8,
                (encode_utf8(msg@).len() % 256) as u8,
            ] + encode_utf8(msg@)),
    {
        self.send_message(Message { fin: true, frame: Frame::Ping(Some(msg.to_string())) })
    }

    /// Queues a message. Any frame can be sent but a `Pong`, which is reserved to
    /// the client.
    pub fn send_message(&mut self, msg: Message)
        requires
            is_sendable(msg@.frame),
        ensures
            final(self)@ == (WebsocketView {
                outgoing: old(self)@.outgoing + sent_bytes(msg@),
                ..old(self)@
            }),
            msg.frame matches Frame::Text(text) ==> final(self)@.outgoing == old(self)@.outgoing
                + (seq![
                if msg.fin {
                    0x81u8
                } else {
                    0x01u8
                },
                (encode_utf8(text@).len() % 256) as u8,
            ] + encode_utf8(text@)),
            msg.frame matches Frame::Binary(data) ==> final(self)@.outgoing == old(self)@.outgoing
                + (seq![
                if msg.fin {
                    0x82u8
                } else {
                    0x02u8
                },
                (data@.len() % 256) as u8,
            ] + data@),
            msg.frame matches Frame::Close(_, _) ==> final(self)@.outgoing == old(self)@.outgoing
                + seq![
                if msg.fin {
                    0x88u8
                } else {
                    0x08u8
                },
                0u8,
            ],
            msg.frame matches Frame::Ping(Some(text)) ==> final(self)@.outgoing
                == old(self)@.outgoing + (seq![
                if msg.fin {
                    0x89u8
                } else {
                    0x09u8
                },
                (encode_utf8(text@).len() % 256) as u8,
            ] + encode_utf8(text@)),
            msg.frame matches Frame::Ping(None) ==> final(self)@.outgoing == old(self)@.outgoing
                + seq![
                if msg.fin {
                    0x89u8
                } else {
                    0x09u8
                },
                0u8,
            ],
    {
        let mut buf = encode_message(msg);
        self.outgoing.append(&mut buf);
    }

    /// Hands over the bytes that wait to be written.
    pub fn take_outgoing(&mut self) -> (bytes: Vec<u8>)
        ensures
            bytes@ == old(self)@.outgoing,
            final(self)@ == (WebsocketView { outgoing: Seq::empty(), ..old(self)@ }),
    {
        let mut bytes: Vec<u8> = Vec::new();
        core::mem::swap(&mut bytes, &mut self.outgoing);
        bytes
    }
}

} // verus!
