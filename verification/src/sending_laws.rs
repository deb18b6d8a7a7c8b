//! What goes out for each frame, byte by byte.

use crate::frame::{Frame, FrameView, Message, MessageView};
use crate::sender::{is_sendable, sent_bytes};
use vstd::prelude::*;
use vstd::utf8::*;

verus! {

/// A frame is viewed as what it holds, and nothing is left out or added.
pub proof fn law_frame_viewed(frame: Frame)
    ensures
        frame matches Frame::Text(text) ==> frame@ == FrameView::Text(text@),
        frame matches Frame::Binary(data) ==> frame@ == FrameView::Binary(data@),
        frame matches Frame::Close(code, None) ==> frame@ == FrameView::Close(code, None),
        frame matches Frame::Close(code, Some(reason)) ==> frame@ == FrameView::Close(
            code,
            Some(reason@),
        ),
        frame matches Frame::Ping(None) ==> frame@ == FrameView::Ping(None),
        frame matches Frame::Ping(Some(text)) ==> frame@ == FrameView::Ping(Some(text@)),
        frame matches Frame::Pong(None) ==> frame@ == FrameView::Pong(None),
        frame matches Frame::Pong(Some(text)) ==> frame@ == FrameView::Pong(Some(text@)),
{
}

/// A message is viewed as its final bit and its frame.
pub proof fn law_message_viewed(message: Message)
    ensures
        message@.fin == message.fin,
        message@.frame == message.frame@,
{
}

/// Every frame can be sent but a pong.
pub proof fn law_all_but_pong_sendable(frame: FrameView)
    ensures
        is_sendable(frame) <==> !(frame is Pong),
{
}

/// A text goes out as the byte for a text frame, the low eight bits of the length
/// of its UTF-8 encoding, and that encoding as it is.
pub proof fn law_text_sent(fin: bool, text: Seq<char>)
    ensures
        sent_bytes(MessageView { fin, frame: FrameView::Text(text) }) == seq![
            if fin {
                0x81u8
            } else {
                0x01u8
            },
            (encode_utf8(text).len() % 256) as u8,
        ] + encode_utf8(text),
        sent_bytes(MessageView { fin, frame: FrameView::Text(text) }).skip(2) == encode_utf8(text),
{
    let bytes = sent_bytes(MessageView { fin, frame: FrameView::Text(text) });
    assert(bytes.skip(2) =~= encode_utf8(text));
}

/// Binary data goes out as the byte for a binary frame, the low eight bits of its
/// length, and the data as it is.
pub proof fn law_binary_sent(fin: bool, data: Seq<u8>)
    ensures
        sent_bytes(MessageView { fin, frame: FrameView::Binary(data) }) == seq![
            if fin {
                0x82u8
            } else {
                0x02u8
            },
            (data.len() % 256) as u8,
        ] + data,
        sent_bytes(MessageView { fin, frame: FrameView::Binary(data) }).skip(2) == data,
{
    let bytes = sent_bytes(MessageView { fin, frame: FrameView::Binary(data) });
    assert(bytes.skip(2) =~= data);
}

/// A ping with a text goes out as the byte for a ping, the low eight bits of the
/// length of the text's UTF-8 encoding, and that encoding as it is.
pub proof fn law_ping_sent(fin: bool, text: Seq<char>)
    ensures
        sent_bytes(MessageView { fin, frame: FrameView::Ping(Some(text)) }) == seq![
            if fin {
                0x89u8
            } else {
                0x09u8
            },
            (encode_utf8(text).len() % 256) as u8,
        ] + encode_utf8(text),
        sent_bytes(MessageView { fin, frame: FrameView::Ping(Some(text)) }).skip(2) == encode_utf8(
            text,
        ),
{
    let bytes = sent_bytes(MessageView { fin, frame: FrameView::Ping(Some(text)) });
    assert(bytes.skip(2) =~= encode_utf8(text));
}

/// A ping without a text goes out as two bytes.
pub proof fn law_bare_ping_sent(fin: bool)
    ensures
        sent_bytes(MessageView { fin, frame: FrameView::Ping(None) }) == seq![
            if fin {
                0x89u8
            } else {
                0x09u8
            },
            0u8,
        ],
{
    assert(sent_bytes(MessageView { fin, frame: FrameView::Ping(None) }) =~= seq![
        if fin {
            0x89u8
        } else {
            0x09u8
        },
        0u8,
    ]);
}

/// Two pings that go out as the same bytes agree in the final bit and have the
/// same text, where an empty one counts as none.
pub proof fn law_pings_told_apart(
    fin: bool,
    text: Option<Seq<char>>,
    other_fin: bool,
    other_text: Option<Seq<char>>,
)
    requires
        sent_bytes(MessageView { fin, frame: FrameView::Ping(text) }) == sent_bytes(
            MessageView { fin: other_fin, frame: FrameView::Ping(other_text) },
        ),
    ensures
        fin == other_fin,
        text == other_text || ((text matches Some(s) ==> s.len() == 0) && (other_text matches Some(
            t,
        ) ==> t.len() == 0)),
{
    let bytes = sent_bytes(MessageView { fin, frame: FrameView::Ping(text) });
    let s = match text {
        Some(s) => s,
        None => Seq::empty(),
    };
    let t = match other_text {
        Some(t) => t,
        None => Seq::empty(),
    };
    lemma_ping_payload(fin, text);
    lemma_ping_payload(other_fin, other_text);
    assert(bytes[0] == if fin {
        0x89u8
    } else {
        0x09u8
    });
    assert(bytes[0] == if other_fin {
        0x89u8
    } else {
        0x09u8
    });
    encode_utf8_decode_utf8(s);
    encode_utf8_decode_utf8(t);
    assert(s == t);
}

/// What follows the first two bytes of a ping.
proof fn lemma_ping_payload(fin: bool, text: Option<Seq<char>>)
    ensures
        sent_bytes(MessageView { fin, frame: FrameView::Ping(text) })[0] == if fin {
            0x89u8
        } else {
            0x09u8
        },
        sent_bytes(MessageView { fin, frame: FrameView::Ping(text) }).skip(2) == encode_utf8(
            match text {
                Some(s) => s,
                None => Seq::empty(),
            },
        ),
{
    match text {
        Some(s) => law_ping_sent(fin, s),
        None => {
            law_bare_ping_sent(fin);
            let none = Seq::<char>::empty();
            assert(encode_utf8(none) =~= Seq::<u8>::empty());
            assert(sent_bytes(MessageView { fin, frame: FrameView::Ping(text) }).skip(2) =~= Seq::<
                u8,
            >::empty());
        },
    }
}

/// Two binary messages, or two texts, that go out as the same bytes are the same.
pub proof fn law_payloads_told_apart(
    fin: bool,
    other_fin: bool,
    data: Seq<u8>,
    other_data: Seq<u8>,
    text: Seq<char>,
    other_text: Seq<char>,
)
    ensures
        sent_bytes(MessageView { fin, frame: FrameView::Binary(data) }) == sent_bytes(
            MessageView { fin: other_fin, frame: FrameView::Binary(other_data) },
        ) ==> fin == other_fin && data == other_data,
        sent_bytes(MessageView { fin, frame: FrameView::Text(text) }) == sent_bytes(
            MessageView { fin: other_fin, frame: FrameView::Text(other_text) },
        ) ==> fin == other_fin && text == other_text,
{
    law_binary_sent(fin, data);
    law_binary_sent(other_fin, other_data);
    law_text_sent(fin, text);
    law_text_sent(other_fin, other_text);
    encode_utf8_decode_utf8(text);
    encode_utf8_decode_utf8(other_text);
    let binary = sent_bytes(MessageView { fin, frame: FrameView::Binary(data) });
    let other_binary = sent_bytes(
        MessageView { fin: other_fin, frame: FrameView::Binary(other_data) },
    );
    assert(binary[0] == if fin {
        0x82u8
    } else {
        0x02u8
    });
    assert(other_binary[0] == if other_fin {
        0x82u8
    } else {
        0x02u8
    });
    let bytes = sent_bytes(MessageView { fin, frame: FrameView::Text(text) });
    let other_bytes = sent_bytes(
        MessageView { fin: other_fin, frame: FrameView::Text(other_text) },
    );
    assert(bytes[0] == if fin {
        0x81u8
    } else {
        0x01u8
    });
    assert(other_bytes[0] == if other_fin {
        0x81u8
    } else {
        0x01u8
    });
}

} // verus!
