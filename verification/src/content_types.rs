//! Built-in application content types.
//!
//! A content type declares a fixed numeric tag and wraps into a
//! `ContentFrame`; the receiver inspects the tag and selects the decoder.
//! The chat message is the one content type the engine ships.

use vstd::prelude::*;
use crate::error::UmbraError;
use crate::payload::Content;
use crate::payload::ContentFrame;
use crate::payload::ContentFrameV;
use crate::payload::TaggedContent;
use crate::wire::dec_str;
use crate::wire::enc_str;
use crate::wire::lemma_str_round_trip;
use crate::wire::read_str;
use crate::wire::str_wf;
use crate::wire::write_str;

verus! {

/// The tag under which chat messages travel.
pub const CONTENT_TAG_CHAT_MESSAGE: u32 = 5;

/// A plain text chat message.
pub struct ChatMessage {
    pub text: String,
}

pub struct ChatMessageV {
    pub text: Seq<char>,
}

impl View for ChatMessage {
    type V = ChatMessageV;

    open spec fn view(&self) -> ChatMessageV {
        ChatMessageV { text: self.text@ }
    }
}

/// The serialized form of a chat message: its text, length-prefixed.
pub open spec fn enc_chat_message(v: ChatMessageV) -> Seq<u8> {
    enc_str(v.text)
}

/// Decoding a chat message demands the bytes be consumed exactly.
pub open spec fn dec_chat_message_msg(s: Seq<u8>) -> Option<ChatMessageV> {
    match dec_str(s) {
        Some((t, rem)) => if rem.len() == 0 {
            Some(ChatMessageV { text: t })
        } else {
            None
        },
        None => None,
    }
}

impl ChatMessage {
    pub fn new(text: String) -> (r: Self)
        ensures
            r@.text == text@,
    {
        ChatMessage { text }
    }

    /// Serialize the message.
    pub fn encode(&self) -> (r: Vec<u8>)
        ensures
            r@ == enc_chat_message(self@),
            str_wf(self@.text),
    {
        let mut buf: Vec<u8> = Vec::new();
        write_str(&mut buf, self.text.as_str());
        proof {
            assert(buf@ =~= enc_chat_message(self@));
        }
        buf
    }

    /// Decode a message, demanding that the bytes are consumed exactly.
    pub fn decode(s: &[u8]) -> (r: Result<Self, UmbraError>)
        ensures
            match dec_chat_message_msg(s@) {
                Some(v) => r matches Ok(x) && x@ == v,
                None => r matches Err(UmbraError::DecodingError(_)),
            },
    {
        proof {
            assert(s@.skip(0) =~= s@);
        }
        let (text, end) = match read_str(s, 0) {
            Ok(t) => t,
            Err(e) => {
                return Err(e);
            },
        };
        if end == s.len() {
            Ok(ChatMessage { text })
        } else {
            Err(UmbraError::DecodingError(String::from_str("trailing bytes after message")))
        }
    }
}

impl TaggedContent for ChatMessage {
    open spec fn spec_tag() -> u32 {
        CONTENT_TAG_CHAT_MESSAGE
    }

    fn tag() -> (t: u32) {
        CONTENT_TAG_CHAT_MESSAGE
    }
}

impl Content for ChatMessage {
    open spec fn spec_content(&self) -> Seq<u8> {
        enc_chat_message(self@)
    }

    fn wrap(self) -> (f: ContentFrame) {
        let bytes = self.encode();
        proof {
            broadcast use vstd::std_specs::vec::axiom_spec_len;

            assert(bytes@.len() == vstd::std_specs::vec::spec_vec_len(&bytes));
        }
        ContentFrame { domain: 0, tag: ChatMessage::tag(), bytes }
    }
}

/// Law: a wrapped content value decodes back to itself under its tag. A
/// chat message wraps to a frame tagged `CONTENT_TAG_CHAT_MESSAGE` whose
/// bytes decode to exactly the message.
pub proof fn lemma_chat_message_wrap_round_trip(v: ChatMessageV)
    requires
        str_wf(v.text),
    ensures
        ({
            let f = ContentFrameV {
                domain: 0,
                tag: CONTENT_TAG_CHAT_MESSAGE,
                bytes: enc_chat_message(v),
            };
            dec_chat_message_msg(f.bytes) == Some(v)
        }),
{
    assert(enc_chat_message(v) =~= enc_str(v.text) + Seq::<u8>::empty());
    lemma_str_round_trip(v.text, Seq::empty());
}

} // verus!
