//! The data model of the protocol: tagged payloads, envelopes, encrypted
//! bytes, the reliability wrapper, and the application frame.
//!
//! Each executable type has a mathematical view (its `V` companion) over
//! sequences, and a well-formedness predicate saying that every field fits
//! its wire representation. Contracts everywhere else speak of these views.

use vstd::prelude::*;
use crate::wire::bytes_wf;
use crate::wire::str_list_wf;
use crate::wire::str_wf;

verus! {

// ------------------------------------------------------------------
// Top-level multiplexing tags
// ------------------------------------------------------------------

/// Protocol discriminator carried by every `TaggedPayload`.
pub const PROTOCOL_UMBRA_V1: u32 = 1;

/// Payload tag marking an encoded `Envelope`.
pub const PAYLOAD_TAG_ENVELOPE: u32 = 1;

/// Payload tag reserved for public frames; decoding one is not built yet.
pub const PAYLOAD_TAG_PUBLIC_FRAME: u32 = 2;

/// The payload kinds a `TaggedPayload` can announce.
#[derive(Debug, Clone, Copy, PartialEq, Eq, Structural)]
pub enum PayloadTags {
    Unknown,
    TagEnvelope,
    TagPublicFrame,
}

pub open spec fn spec_payload_tag_from(value: u32) -> PayloadTags {
    if value == PAYLOAD_TAG_ENVELOPE {
        PayloadTags::TagEnvelope
    } else if value == PAYLOAD_TAG_PUBLIC_FRAME {
        PayloadTags::TagPublicFrame
    } else {
        PayloadTags::Unknown
    }
}

impl From<u32> for PayloadTags {
    /// Unknown tag values map to `Unknown`: an unknown tag is a non-fatal
    /// skip outcome, never a failure.
    fn from(value: u32) -> (r: PayloadTags) {
        if value == PAYLOAD_TAG_ENVELOPE {
            PayloadTags::TagEnvelope
        } else if value == PAYLOAD_TAG_PUBLIC_FRAME {
            PayloadTags::TagPublicFrame
        } else {
            PayloadTags::Unknown
        }
    }
}

impl vstd::std_specs::convert::FromSpecImpl<u32> for PayloadTags {
    open spec fn obeys_from_spec() -> bool {
        true
    }

    open spec fn from_spec(value: u32) -> PayloadTags {
        spec_payload_tag_from(value)
    }
}

/// The conversation kinds the engine names; only private sessions and the
/// self inbox are built, the rest are future variants.
#[derive(Debug, Clone, Copy, PartialEq, Eq, Structural)]
pub enum ConvoType {
    Public,
    Session,
    Group,
}

// ------------------------------------------------------------------
// Content frames
// ------------------------------------------------------------------

/// One application content item: a numeric tag selecting the decoder, and
/// the serialized content bytes. `domain` is reserved for namespacing.
pub struct ContentFrame {
    pub domain: u32,
    pub tag: u32,
    pub bytes: Vec<u8>,
}

pub struct ContentFrameV {
    pub domain: u32,
    pub tag: u32,
    pub bytes: Seq<u8>,
}

impl ContentFrameV {
    pub open spec fn wf(self) -> bool {
        bytes_wf(self.bytes)
    }
}

impl View for ContentFrame {
    type V = ContentFrameV;

    open spec fn view(&self) -> ContentFrameV {
        ContentFrameV { domain: self.domain, tag: self.tag, bytes: self.bytes@ }
    }
}

impl Clone for ContentFrame {
    fn clone(&self) -> (r: Self)
        ensures
            r@ == self@,
    {
        ContentFrame {
            domain: self.domain,
            tag: self.tag,
            bytes: vstd::slice::slice_to_vec(self.bytes.as_slice()),
        }
    }
}

// ------------------------------------------------------------------
// Conversation invites
// ------------------------------------------------------------------

/// The invite that lets two peers converge on one private conversation:
/// it carries the participant addresses.
pub struct ConversationInvite {
    pub participants: Vec<String>,
}

pub struct ConversationInviteV {
    pub participants: Seq<Seq<char>>,
}

impl ConversationInviteV {
    pub open spec fn wf(self) -> bool {
        str_list_wf(self.participants)
    }
}

impl View for ConversationInvite {
    type V = ConversationInviteV;

    open spec fn view(&self) -> ConversationInviteV {
        ConversationInviteV { participants: self.participants.deep_view() }
    }
}

impl ConversationInvite {
    pub fn new(participants: Vec<String>) -> (r: Self)
        ensures
            r@.participants == participants.deep_view(),
    {
        ConversationInvite { participants }
    }
}

// ------------------------------------------------------------------
// Reliability metadata
// ------------------------------------------------------------------

/// Delivery-reliability metadata carried alongside a frame: a
/// content-addressed message id, the channel, a logical clock, the causal
/// predecessors, and a compact recently-seen summary.
pub struct ReliabilityInfo {
    pub message_id: String,
    pub channel_id: String,
    pub lamport_timestamp: u64,
    pub causal_history: Vec<String>,
    pub dedup_summary: Vec<u8>,
}

pub struct ReliabilityInfoV {
    pub message_id: Seq<char>,
    pub channel_id: Seq<char>,
    pub lamport_timestamp: u64,
    pub causal_history: Seq<Seq<char>>,
    pub dedup_summary: Seq<u8>,
}

impl ReliabilityInfoV {
    pub open spec fn wf(self) -> bool {
        &&& str_wf(self.message_id)
        &&& str_wf(self.channel_id)
        &&& str_list_wf(self.causal_history)
        &&& bytes_wf(self.dedup_summary)
    }
}

impl View for ReliabilityInfo {
    type V = ReliabilityInfoV;

    open spec fn view(&self) -> ReliabilityInfoV {
        ReliabilityInfoV {
            message_id: self.message_id@,
            channel_id: self.channel_id@,
            lamport_timestamp: self.lamport_timestamp,
            causal_history: self.causal_history.deep_view(),
            dedup_summary: self.dedup_summary@,
        }
    }
}

/// The view of an optional reliability slot.
pub open spec fn opt_ri_view(o: Option<ReliabilityInfo>) -> Option<ReliabilityInfoV> {
    match o {
        Some(r) => Some(r@),
        None => None,
    }
}

// ------------------------------------------------------------------
// Application frames
// ------------------------------------------------------------------

/// What a frame carries: application content, or a conversation invite.
pub enum FrameType {
    Content(ContentFrame),
    ConversationInvite(ConversationInvite),
}

pub enum FrameTypeV {
    Content(ContentFrameV),
    ConversationInvite(ConversationInviteV),
}

impl FrameTypeV {
    pub open spec fn wf(self) -> bool {
        match self {
            FrameTypeV::Content(c) => c.wf(),
            FrameTypeV::ConversationInvite(i) => i.wf(),
        }
    }
}

impl View for FrameType {
    type V = FrameTypeV;

    open spec fn view(&self) -> FrameTypeV {
        match self {
            FrameType::Content(c) => FrameTypeV::Content(c@),
            FrameType::ConversationInvite(i) => FrameTypeV::ConversationInvite(i@),
        }
    }
}

/// The self-describing application frame.
pub struct Frame {
    pub reliability_info: Option<ReliabilityInfo>,
    pub frame_type: FrameType,
}

pub struct FrameV {
    pub reliability_info: Option<ReliabilityInfoV>,
    pub frame_type: FrameTypeV,
}

impl FrameV {
    pub open spec fn wf(self) -> bool {
        &&& (self.reliability_info matches Some(r) ==> r.wf())
        &&& self.frame_type.wf()
    }
}

impl View for Frame {
    type V = FrameV;

    open spec fn view(&self) -> FrameV {
        FrameV {
            reliability_info: opt_ri_view(self.reliability_info),
            frame_type: self.frame_type@,
        }
    }
}

// ------------------------------------------------------------------
// Encryption envelope layers
// ------------------------------------------------------------------

/// The closed set of encryption algorithms, each tagging its ciphertext.
/// The byte-reversal cipher is an explicit placeholder for an authenticated
/// session cipher.
pub enum Encryption {
    Plaintext(Vec<u8>),
    Reversed(Vec<u8>),
}

pub enum EncryptionV {
    Plaintext(Seq<u8>),
    Reversed(Seq<u8>),
}

impl EncryptionV {
    pub open spec fn wf(self) -> bool {
        match self {
            EncryptionV::Plaintext(b) => bytes_wf(b),
            EncryptionV::Reversed(b) => bytes_wf(b),
        }
    }
}

impl View for Encryption {
    type V = EncryptionV;

    open spec fn view(&self) -> EncryptionV {
        match self {
            Encryption::Plaintext(b) => EncryptionV::Plaintext(b@),
            Encryption::Reversed(b) => EncryptionV::Reversed(b@),
        }
    }
}

/// Algorithm-tagged ciphertext. The encryption slot may be absent on the
/// wire; every decrypt path rejects that.
pub struct EncryptedBytes {
    pub encryption: Option<Encryption>,
}

pub struct EncryptedBytesV {
    pub encryption: Option<EncryptionV>,
}

impl EncryptedBytesV {
    pub open spec fn wf(self) -> bool {
        self.encryption matches Some(e) ==> e.wf()
    }
}

impl View for EncryptedBytes {
    type V = EncryptedBytesV;

    open spec fn view(&self) -> EncryptedBytesV {
        EncryptedBytesV {
            encryption: match self.encryption {
                Some(e) => Some(e@),
                None => None,
            },
        }
    }
}

/// The outer routed wrapper: ciphertext plus a conversation hint and salt.
pub struct Envelope {
    pub encrypted_bytes: EncryptedBytes,
    pub conversation_hint: String,
    pub salt: u64,
}

pub struct EnvelopeV {
    pub encrypted_bytes: EncryptedBytesV,
    pub conversation_hint: Seq<char>,
    pub salt: u64,
}

impl EnvelopeV {
    pub open spec fn wf(self) -> bool {
        &&& self.encrypted_bytes.wf()
        &&& str_wf(self.conversation_hint)
    }
}

impl View for Envelope {
    type V = EnvelopeV;

    open spec fn view(&self) -> EnvelopeV {
        EnvelopeV {
            encrypted_bytes: self.encrypted_bytes@,
            conversation_hint: self.conversation_hint@,
            salt: self.salt,
        }
    }
}

/// The top-level multiplexed payload handed to the transport.
pub struct TaggedPayload {
    pub protocol: u32,
    pub tag: u32,
    pub payload_bytes: Vec<u8>,
}

pub struct TaggedPayloadV {
    pub protocol: u32,
    pub tag: u32,
    pub payload_bytes: Seq<u8>,
}

impl TaggedPayloadV {
    pub open spec fn wf(self) -> bool {
        bytes_wf(self.payload_bytes)
    }
}

impl View for TaggedPayload {
    type V = TaggedPayloadV;

    open spec fn view(&self) -> TaggedPayloadV {
        TaggedPayloadV {
            protocol: self.protocol,
            tag: self.tag,
            payload_bytes: self.payload_bytes@,
        }
    }
}

// ------------------------------------------------------------------
// Reliable delivery wrapper
// ------------------------------------------------------------------

/// The reliability wrapper around an encoded frame, applied before
/// encryption on every outbound content send.
pub struct ReliableBytes {
    pub message_id: String,
    pub channel_id: String,
    pub lamport_timestamp: u64,
    pub causal_history: Vec<String>,
    pub dedup_summary: Vec<u8>,
    pub content: Vec<u8>,
}

pub struct ReliableBytesV {
    pub message_id: Seq<char>,
    pub channel_id: Seq<char>,
    pub lamport_timestamp: u64,
    pub causal_history: Seq<Seq<char>>,
    pub dedup_summary: Seq<u8>,
    pub content: Seq<u8>,
}

impl ReliableBytesV {
    pub open spec fn wf(self) -> bool {
        &&& str_wf(self.message_id)
        &&& str_wf(self.channel_id)
        &&& str_list_wf(self.causal_history)
        &&& bytes_wf(self.dedup_summary)
        &&& bytes_wf(self.content)
    }
}

impl View for ReliableBytes {
    type V = ReliableBytesV;

    open spec fn view(&self) -> ReliableBytesV {
        ReliableBytesV {
            message_id: self.message_id@,
            channel_id: self.channel_id@,
            lamport_timestamp: self.lamport_timestamp,
            causal_history: self.causal_history.deep_view(),
            dedup_summary: self.dedup_summary@,
            content: self.content@,
        }
    }
}

// ------------------------------------------------------------------
// Content wrapping traits
// ------------------------------------------------------------------

/// A content type declares its fixed numeric tag.
pub trait TaggedContent {
    /// The tag under which this content type travels.
    spec fn spec_tag() -> u32;

    /// The executable tag, equal to the declared one.
    fn tag() -> (t: u32)
        ensures
            t == Self::spec_tag(),
    ;
}

/// Content that can be lifted into a `ContentFrame`.
pub trait Content: TaggedContent + Sized {
    /// The serialized bytes this value wraps to.
    spec fn spec_content(&self) -> Seq<u8>;

    /// Wrap the value into a content frame in the default domain.
    fn wrap(self) -> (f: ContentFrame)
        ensures
            f@ == (ContentFrameV { domain: 0, tag: Self::spec_tag(), bytes: self.spec_content() }),
            f@.wf(),
    ;
}

/// Anything that can be lifted into an application `Frame`.
pub trait ToFrame: Sized {
    /// The view of the frame this value lifts to.
    spec fn spec_frame(&self, ri: Option<ReliabilityInfoV>) -> FrameV;

    /// Lift the value into a frame, attaching the reliability slot.
    fn to_frame(self, reliability_info: Option<ReliabilityInfo>) -> (f: Frame)
        ensures
            f@ == self.spec_frame(opt_ri_view(reliability_info)),
    ;
}

impl<T: Content> ToFrame for T {
    open spec fn spec_frame(&self, ri: Option<ReliabilityInfoV>) -> FrameV {
        FrameV {
            reliability_info: ri,
            frame_type: FrameTypeV::Content(
                ContentFrameV { domain: 0, tag: T::spec_tag(), bytes: self.spec_content() },
            ),
        }
    }

    fn to_frame(self, reliability_info: Option<ReliabilityInfo>) -> (f: Frame) {
        Frame { reliability_info, frame_type: FrameType::Content(self.wrap()) }
    }
}

impl ToFrame for ConversationInvite {
    open spec fn spec_frame(&self, ri: Option<ReliabilityInfoV>) -> FrameV {
        FrameV { reliability_info: ri, frame_type: FrameTypeV::ConversationInvite(self@) }
    }

    fn to_frame(self, reliability_info: Option<ReliabilityInfo>) -> (f: Frame) {
        Frame { reliability_info, frame_type: FrameType::ConversationInvite(self) }
    }
}

/// Anything that can be lifted into the top-level `TaggedPayload`.
pub trait ToPayload: Sized {
    /// The view of the payload this value lifts to.
    spec fn spec_payload(&self) -> TaggedPayloadV;

    /// Lift the value into a tagged payload.
    fn to_payload(self) -> (p: TaggedPayload)
        ensures
            p@ == self.spec_payload(),
            p@.wf(),
    ;
}

} // verus!
