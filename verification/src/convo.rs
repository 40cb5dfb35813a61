//! Conversations: the closed variant set over which the engine dispatches.
//!
//! A `Private` conversation is a session between two peers: its sends are
//! wrapped in reliability metadata, encrypted under the session cipher slot
//! (the reversal placeholder), and addressed by its own identifier. The
//! `Inbox` conversation is bound to the client's own address and exists only
//! to receive plaintext invites: sending on it is caller misuse and fails,
//! and a content frame arriving there is dropped, never propagated.

use vstd::prelude::*;
use crate::codec::dec_frame_msg;
use crate::codec::dec_reliable_bytes_msg;
use crate::codec::enc_envelope;
use crate::codec::enc_frame;
use crate::codec::enc_reliable_bytes;
use crate::codec::enc_tagged_payload;
use crate::crypto::decrypt_reverse;
use crate::crypto::encrypt_reverse;
use crate::crypto::hash_to_string;
use crate::crypto::sha3_256_hex;
use crate::error::UmbraError;
use crate::payload::ContentFrame;
use crate::payload::ContentFrameV;
use crate::payload::Encryption;
use crate::payload::EncryptionV;
use crate::payload::EncryptedBytes;
use crate::payload::EncryptedBytesV;
use crate::payload::Envelope;
use crate::payload::EnvelopeV;
use crate::payload::Frame;
use crate::payload::FrameType;
use crate::payload::FrameTypeV;
use crate::payload::FrameV;
use crate::payload::ReliableBytes;
use crate::payload::ReliableBytesV;
use crate::payload::TaggedPayloadV;
use crate::payload::ToPayload;
use crate::payload::PAYLOAD_TAG_ENVELOPE;
use crate::payload::PROTOCOL_UMBRA_V1;

verus! {

// ------------------------------------------------------------------
// The outbound pipeline, at the specification level
// ------------------------------------------------------------------

/// The frame a private send builds for one content item.
pub open spec fn spec_content_send_frame(tag: u32, message: Seq<u8>) -> FrameV {
    FrameV {
        reliability_info: None,
        frame_type: FrameTypeV::Content(ContentFrameV { domain: 0, tag, bytes: message }),
    }
}

/// The reliability wrapper around an encoded frame, under a given message
/// identifier: the channel is the conversation, and the causal fields
/// carry their empty defaults.
pub open spec fn spec_reliable_wrap_with_id(
    message_id: Seq<char>,
    convo_id: Seq<char>,
    encoded_frame: Seq<u8>,
) -> ReliableBytesV {
    ReliableBytesV {
        message_id,
        channel_id: convo_id,
        lamport_timestamp: 0,
        causal_history: Seq::empty(),
        dedup_summary: Seq::empty(),
        content: encoded_frame,
    }
}

/// The reliability wrapper as built on a send: the message id is the
/// content hash of the encoded frame.
pub open spec fn spec_reliable_wrap(convo_id: Seq<char>, encoded_frame: Seq<u8>) -> ReliableBytesV {
    spec_reliable_wrap_with_id(sha3_256_hex(encoded_frame), convo_id, encoded_frame)
}

/// What a private conversation's encryption slot holds for a plaintext:
/// the reversal placeholder cipher, tagged as such.
pub open spec fn spec_private_encrypt(plain: Seq<u8>) -> EncryptedBytesV {
    EncryptedBytesV { encryption: Some(EncryptionV::Reversed(plain.reverse())) }
}

/// The wire bytes of one content send on a private conversation, under a
/// given message identifier: frame, reliability wrapper, encryption,
/// envelope, tagged payload.
pub open spec fn spec_private_send_bytes_with_id(
    message_id: Seq<char>,
    convo_id: Seq<char>,
    tag: u32,
    message: Seq<u8>,
) -> Seq<u8> {
    let encoded_frame = enc_frame(spec_content_send_frame(tag, message));
    let wrapped = enc_reliable_bytes(
        spec_reliable_wrap_with_id(message_id, convo_id, encoded_frame),
    );
    let envelope = EnvelopeV {
        encrypted_bytes: spec_private_encrypt(wrapped),
        conversation_hint: convo_id,
        salt: 0,
    };
    enc_tagged_payload(
        TaggedPayloadV {
            protocol: PROTOCOL_UMBRA_V1,
            tag: PAYLOAD_TAG_ENVELOPE,
            payload_bytes: enc_envelope(envelope),
        },
    )
}

/// The exact wire bytes of one content send on a private conversation:
/// the message identifier is the content hash of the encoded frame.
pub open spec fn spec_private_send_bytes(convo_id: Seq<char>, tag: u32, message: Seq<u8>) -> Seq<
    u8,
> {
    spec_private_send_bytes_with_id(
        sha3_256_hex(enc_frame(spec_content_send_frame(tag, message))),
        convo_id,
        tag,
        message,
    )
}

// ------------------------------------------------------------------
// The inbound pipeline, at the specification level
// ------------------------------------------------------------------

/// What a private conversation recovers from inbound encrypted bytes: the
/// decoded inner frame, or nothing when the algorithm variant mismatches,
/// the slot is absent, or a layer fails to parse.
pub open spec fn spec_private_recv(enc: EncryptedBytesV) -> Option<FrameV> {
    match enc.encryption {
        Some(EncryptionV::Reversed(cipher)) => match dec_reliable_bytes_msg(cipher.reverse()) {
            Some(rb) => dec_frame_msg(rb.content),
            None => None,
        },
        _ => None,
    }
}

/// What the inbox recovers: invites travel in plaintext, so anything else
/// is rejected, and the decoded frame must parse.
pub open spec fn spec_inbox_recv(enc: EncryptedBytesV) -> Option<FrameV> {
    match enc.encryption {
        Some(EncryptionV::Plaintext(plain)) => dec_frame_msg(plain),
        _ => None,
    }
}

// ------------------------------------------------------------------
// Private conversations
// ------------------------------------------------------------------

/// A private session between two peers, named by its deterministic
/// conversation identifier.
pub struct PrivateConversation {
    convo_id: String,
}

impl PrivateConversation {
    /// The identifier this conversation is registered and routed under.
    pub closed spec fn spec_convo_id(&self) -> Seq<char> {
        self.convo_id@
    }

    pub fn new(convo_id: String) -> (r: Self)
        ensures
            r.spec_convo_id() == convo_id@,
    {
        PrivateConversation { convo_id }
    }

    /// Encrypt an encoded frame under the session cipher slot.
    pub fn encrypt(&self, frame: &[u8]) -> (r: EncryptedBytes)
        ensures
            r@ == spec_private_encrypt(frame@),
    {
        let reversed = encrypt_reverse(vstd::slice::slice_to_vec(frame));
        EncryptedBytes { encryption: Some(Encryption::Reversed(reversed)) }
    }

    /// Recover the reliability wrapper from inbound encrypted bytes.
    /// An absent slot, a mismatched algorithm variant, or a wrapper that
    /// does not parse is a decoding error; the process is never aborted.
    pub fn decrypt(enc_bytes: EncryptedBytes) -> (r: Result<ReliableBytes, UmbraError>)
        ensures
            match enc_bytes@.encryption {
                Some(EncryptionV::Reversed(cipher)) => {
                    match dec_reliable_bytes_msg(cipher.reverse()) {
                        Some(rb) => r matches Ok(x) && x@ == rb,
                        None => r matches Err(UmbraError::DecodingError(_)),
                    }
                },
                _ => r matches Err(UmbraError::DecodingError(_)),
            },
    {
        match enc_bytes.encryption {
            Some(Encryption::Reversed(cipher)) => {
                let plain = decrypt_reverse(cipher);
                ReliableBytes::decode(plain.as_slice())
            },
            _ => Err(
                UmbraError::DecodingError(String::from_str("unsupported encryption for session")),
            ),
        }
    }
}

// ------------------------------------------------------------------
// The inbox conversation
// ------------------------------------------------------------------

/// The client's own inbox: it receives plaintext invites and nothing else.
pub struct InboxConversation {
    topic: String,
}

impl InboxConversation {
    /// The inbox identifier this conversation is routed under.
    pub closed spec fn spec_convo_id(&self) -> Seq<char> {
        self.topic@
    }

    pub fn new(topic: String) -> (r: Self)
        ensures
            r.spec_convo_id() == topic@,
    {
        InboxConversation { topic }
    }

    /// Recover the invite frame from inbound bytes. Invites travel in
    /// plaintext because no shared session key exists yet; any other
    /// algorithm variant is a decoding error.
    pub fn decrypt(enc_bytes: EncryptedBytes) -> (r: Result<Vec<u8>, UmbraError>)
        ensures
            match enc_bytes@.encryption {
                Some(EncryptionV::Plaintext(plain)) => r matches Ok(b) && b@ == plain,
                _ => r matches Err(UmbraError::DecodingError(_)),
            },
    {
        match enc_bytes.encryption {
            Some(Encryption::Plaintext(plain)) => Ok(plain),
            _ => Err(
                UmbraError::DecodingError(String::from_str("unsupported encryption for invite")),
            ),
        }
    }
}

// ------------------------------------------------------------------
// The conversation variant type
// ------------------------------------------------------------------

/// A live conversation: a private session, or the client's own inbox.
pub enum Conversation {
    Private(PrivateConversation),
    Inbox(InboxConversation),
}

impl Conversation {
    /// The identifier this conversation is registered and routed under.
    pub open spec fn spec_convo_id(&self) -> Seq<char> {
        match self {
            Conversation::Private(p) => p.spec_convo_id(),
            Conversation::Inbox(i) => i.spec_convo_id(),
        }
    }

    /// Whether this is the inbox variant.
    pub open spec fn is_inbox(&self) -> bool {
        self is Inbox
    }

    /// The conversation's identifier.
    pub fn convo_id(&self) -> (r: String)
        ensures
            r@ == self.spec_convo_id(),
    {
        match self {
            Conversation::Private(p) => p.convo_id.clone(),
            Conversation::Inbox(i) => i.topic.clone(),
        }
    }

    /// Build the wire bytes that send one content item on this
    /// conversation.
    ///
    /// On a private conversation this always succeeds and the bytes are
    /// pinned exactly. On the inbox it always fails with the misuse error:
    /// a client must never invite itself.
    pub fn send(&self, tag: u32, message: Vec<u8>) -> (r: Result<Vec<u8>, UmbraError>)
        ensures
            self.is_inbox() ==> r matches Err(UmbraError::UnexpectedError),
            !self.is_inbox() ==> (r matches Ok(bytes) && bytes@ == spec_private_send_bytes(
                self.spec_convo_id(),
                tag,
                message@,
            )),
    {
        let p = match self {
            Conversation::Private(p) => p,
            Conversation::Inbox(_) => {
                return Err(UmbraError::UnexpectedError);
            },
        };
        let frame = Frame {
            reliability_info: None,
            frame_type: FrameType::Content(ContentFrame { domain: 0, tag, bytes: message }),
        };
        let encoded_frame = frame.encode();
        let message_id = hash_to_string(encoded_frame.as_slice());
        let reliable = ReliableBytes {
            message_id,
            channel_id: p.convo_id.clone(),
            lamport_timestamp: 0,
            causal_history: Vec::new(),
            dedup_summary: Vec::new(),
            content: encoded_frame,
        };
        let wrapped = reliable.encode();
        let encrypted_bytes = p.encrypt(wrapped.as_slice());
        let envelope = Envelope {
            encrypted_bytes,
            conversation_hint: p.convo_id.clone(),
            salt: 0,
        };
        let payload = envelope.to_payload();
        let bytes = payload.encode();
        proof {
            assert(reliable@.causal_history =~= Seq::<Seq<char>>::empty());
            assert(reliable@.dedup_summary =~= Seq::<u8>::empty());
            assert(frame@ == spec_content_send_frame(tag, message@));
            assert(reliable@ == spec_reliable_wrap(p.spec_convo_id(), enc_frame(frame@)));
            assert(bytes@ == spec_private_send_bytes(p.spec_convo_id(), tag, message@));
        }
        Ok(bytes)
    }

    /// Process inbound encrypted bytes and hand back the decoded frame.
    ///
    /// A private conversation unwraps the session cipher and the
    /// reliability wrapper and returns the inner frame. The inbox accepts
    /// only plaintext invite frames: a content frame arriving there is a
    /// protocol violation, dropped without error. Every malformed layer is
    /// a decoding error confined to this one message.
    pub fn recv(&self, enc_bytes: EncryptedBytes) -> (r: Result<Option<Frame>, UmbraError>)
        ensures
            !self.is_inbox() ==> match spec_private_recv(enc_bytes@) {
                Some(f) => r matches Ok(Some(frame)) && frame@ == f,
                None => r matches Err(UmbraError::DecodingError(_)),
            },
            self.is_inbox() ==> match spec_inbox_recv(enc_bytes@) {
                Some(f) => if f.frame_type is ConversationInvite {
                    r matches Ok(Some(frame)) && frame@ == f
                } else {
                    r matches Ok(None)
                },
                None => r matches Err(UmbraError::DecodingError(_)),
            },
    {
        match self {
            Conversation::Private(_) => {
                let reliable = match PrivateConversation::decrypt(enc_bytes) {
                    Ok(rb) => rb,
                    Err(e) => {
                        return Err(e);
                    },
                };
                match Frame::decode(reliable.content.as_slice()) {
                    Ok(frame) => Ok(Some(frame)),
                    Err(e) => Err(e),
                }
            },
            Conversation::Inbox(_) => {
                let plain = match InboxConversation::decrypt(enc_bytes) {
                    Ok(b) => b,
                    Err(e) => {
                        return Err(e);
                    },
                };
                let frame = match Frame::decode(plain.as_slice()) {
                    Ok(f) => f,
                    Err(e) => {
                        return Err(e);
                    },
                };
                match &frame.frame_type {
                    FrameType::ConversationInvite(_) => Ok(Some(frame)),
                    FrameType::Content(_) => Ok(None),
                }
            },
        }
    }
}

impl Clone for Conversation {
    fn clone(&self) -> (r: Self)
        ensures
            r.spec_convo_id() == self.spec_convo_id(),
            r.is_inbox() == self.is_inbox(),
    {
        match self {
            Conversation::Private(p) => Conversation::Private(
                PrivateConversation { convo_id: p.convo_id.clone() },
            ),
            Conversation::Inbox(i) => Conversation::Inbox(
                InboxConversation { topic: i.topic.clone() },
            ),
        }
    }
}

} // verus!
