//! Frames and messages.

use crate::text::optional_chars;
use vstd::prelude::*;

verus! {

/// Opcode of a frame that continues the one before it.
pub const CONTINUATION_OPCODE: u8 = 0x00;

/// Opcode of a text frame.
pub const TEXT_OPCODE: u8 = 0x01;

/// Opcode of a binary frame.
pub const BINARY_OPCODE: u8 = 0x02;

/// Opcode of a close frame.
pub const CLOSE_OPCODE: u8 = 0x08;

/// Opcode of a ping.
pub const PING_OPCODE: u8 = 0x09;

/// Opcode of the answer to a ping.
pub const PONG_OPCODE: u8 = 0x0A;

/// Known WebSocket frames.
#[derive(Debug)]
pub enum Frame {
    /// Readable text.
    Text(String),
    /// Binary data.
    Binary(Vec<u8>),
    /// Request to close the socket, or the answer to it: closing code, and
    /// possibly why the socket is closed.
    Close(Option<u16>, Option<String>),
    /// `Ping` with an optional payload.
    Ping(Option<String>),
    /// `Pong`, the client's answer to a `Ping`.
    Pong(Option<String>),
}

/// WebSocket message.
#[derive(Debug)]
pub struct Message {
    /// Whether this message ends a run of frames.
    pub fin: bool,
    /// What the message holds.
    pub frame: Frame,
}

/// What a [`Frame`] holds, as mathematical values.
#[verifier::ext_equal]
pub enum FrameView {
    Text(Seq<char>),
    Binary(Seq<u8>),
    Close(Option<u16>, Option<Seq<char>>),
    Ping(Option<Seq<char>>),
    Pong(Option<Seq<char>>),
}

/// What a [`Message`] holds, as mathematical values.
#[verifier::ext_equal]
pub struct MessageView {
    pub fin: bool,
    pub frame: FrameView,
}

impl View for Frame {
    type V = FrameView;

    open spec fn view(&self) -> FrameView {
        match self {
            Frame::Text(text) => FrameView::Text(text@),
            Frame::Binary(data) => FrameView::Binary(data@),
            Frame::Close(code, reason) => FrameView::Close(*code, optional_chars(*reason)),
            Frame::Ping(text) => FrameView::Ping(optional_chars(*text)),
            Frame::Pong(text) => FrameView::Pong(optional_chars(*text)),
        }
    }
}

impl View for Message {
    type V = MessageView;

    open spec fn view(&self) -> MessageView {
        MessageView { fin: self.fin, frame: self.frame@ }
    }
}

impl Default for Frame {
    /// A `Ping` without payload.
    fn default() -> (frame: Frame)
        ensures
            frame@ == FrameView::Ping(None),
            frame matches Frame::Ping(None),
    {
        Frame::Ping(None)
    }
}

} // verus!
