//! The frame and envelope codec.
//!
//! Each wire type has a specification-level encoder over its view, a
//! specification-level decoder over the remaining suffix, executable
//! `encode` / `decode` methods proved against them, and a public round-trip
//! law: decoding an encoding yields the encoded value back.
//!
//! Layout: message fields follow one another in schema order; an optional
//! field or a variant set starts with one discriminant byte. A whole-message
//! decoder demands that the bytes are consumed exactly.

use vstd::prelude::*;
use crate::error::UmbraError;
use crate::payload::ContentFrame;
use crate::payload::ContentFrameV;
use crate::payload::ConversationInvite;
use crate::payload::ConversationInviteV;
use crate::payload::Encryption;
use crate::payload::EncryptionV;
use crate::payload::EncryptedBytes;
use crate::payload::EncryptedBytesV;
use crate::payload::Envelope;
use crate::payload::EnvelopeV;
use crate::payload::Frame;
use crate::payload::FrameType;
use crate::payload::FrameTypeV;
use crate::payload::FrameV;
use crate::payload::ReliabilityInfo;
use crate::payload::ReliabilityInfoV;
use crate::payload::ReliableBytes;
use crate::payload::ReliableBytesV;
use crate::payload::TaggedPayload;
use crate::payload::TaggedPayloadV;
use crate::payload::ToPayload;
use crate::payload::PAYLOAD_TAG_ENVELOPE;
use crate::payload::PROTOCOL_UMBRA_V1;
use crate::wire::bytes_wf;
use crate::wire::dec_bytes;
use crate::wire::dec_str;
use crate::wire::dec_str_list;
use crate::wire::dec_u32;
use crate::wire::dec_u64;
use crate::wire::dec_u8;
use crate::wire::enc_bytes;
use crate::wire::enc_str;
use crate::wire::enc_str_list;
use crate::wire::enc_u32;
use crate::wire::enc_u64;
use crate::wire::enc_u8;
use crate::wire::lemma_bytes_round_trip;
use crate::wire::lemma_str_list_round_trip;
use crate::wire::lemma_str_round_trip;
use crate::wire::lemma_u32_round_trip;
use crate::wire::lemma_u64_round_trip;
use crate::wire::lemma_u8_round_trip;
use crate::wire::read_bytes;
use crate::wire::read_str;
use crate::wire::read_str_list;
use crate::wire::read_u32;
use crate::wire::read_u64;
use crate::wire::read_u8;
use crate::wire::str_list_wf;
use crate::wire::str_wf;
use crate::wire::write_bytes;
use crate::wire::write_str;
use crate::wire::write_str_list;
use crate::wire::write_u32;
use crate::wire::write_u64;
use crate::wire::write_u8;

verus! {

// ------------------------------------------------------------------
// Discriminant bytes
// ------------------------------------------------------------------

/// Discriminant for an absent optional field or encryption slot.
pub const DISC_ABSENT: u8 = 0;

/// Discriminant for a present optional field, a content frame variant, or
/// the plaintext encryption variant.
pub const DISC_FIRST: u8 = 1;

/// Discriminant for an invite frame variant or the reversal cipher variant.
pub const DISC_SECOND: u8 = 2;

// ------------------------------------------------------------------
// Specification-level encoders
// ------------------------------------------------------------------

pub open spec fn enc_content_frame(v: ContentFrameV) -> Seq<u8> {
    enc_u32(v.domain) + enc_u32(v.tag) + enc_bytes(v.bytes)
}

pub open spec fn enc_invite(v: ConversationInviteV) -> Seq<u8> {
    enc_str_list(v.participants)
}

pub open spec fn enc_reliability_info(v: ReliabilityInfoV) -> Seq<u8> {
    enc_str(v.message_id) + enc_str(v.channel_id) + enc_u64(v.lamport_timestamp) + enc_str_list(
        v.causal_history,
    ) + enc_bytes(v.dedup_summary)
}

pub open spec fn enc_opt_reliability(o: Option<ReliabilityInfoV>) -> Seq<u8> {
    match o {
        None => enc_u8(DISC_ABSENT),
        Some(r) => enc_u8(DISC_FIRST) + enc_reliability_info(r),
    }
}

pub open spec fn enc_frame_type(v: FrameTypeV) -> Seq<u8> {
    match v {
        FrameTypeV::Content(c) => enc_u8(DISC_FIRST) + enc_content_frame(c),
        FrameTypeV::ConversationInvite(i) => enc_u8(DISC_SECOND) + enc_invite(i),
    }
}

pub open spec fn enc_frame(v: FrameV) -> Seq<u8> {
    enc_opt_reliability(v.reliability_info) + enc_frame_type(v.frame_type)
}

pub open spec fn enc_encryption(v: EncryptionV) -> Seq<u8> {
    match v {
        EncryptionV::Plaintext(b) => enc_u8(DISC_FIRST) + enc_bytes(b),
        EncryptionV::Reversed(b) => enc_u8(DISC_SECOND) + enc_bytes(b),
    }
}

pub open spec fn enc_encrypted_bytes(v: EncryptedBytesV) -> Seq<u8> {
    match v.encryption {
        None => enc_u8(DISC_ABSENT),
        Some(e) => enc_encryption(e),
    }
}

pub open spec fn enc_envelope(v: EnvelopeV) -> Seq<u8> {
    enc_encrypted_bytes(v.encrypted_bytes) + enc_str(v.conversation_hint) + enc_u64(v.salt)
}

pub open spec fn enc_tagged_payload(v: TaggedPayloadV) -> Seq<u8> {
    enc_u32(v.protocol) + enc_u32(v.tag) + enc_bytes(v.payload_bytes)
}

pub open spec fn enc_reliable_bytes(v: ReliableBytesV) -> Seq<u8> {
    enc_str(v.message_id) + enc_str(v.channel_id) + enc_u64(v.lamport_timestamp) + enc_str_list(
        v.causal_history,
    ) + enc_bytes(v.dedup_summary) + enc_bytes(v.content)
}

// ------------------------------------------------------------------
// Specification-level decoders
// ------------------------------------------------------------------

pub open spec fn dec_content_frame(s: Seq<u8>) -> Option<(ContentFrameV, Seq<u8>)> {
    match dec_u32(s) {
        Some((domain, r1)) => match dec_u32(r1) {
            Some((tag, r2)) => match dec_bytes(r2) {
                Some((b, r3)) => Some((ContentFrameV { domain, tag, bytes: b }, r3)),
                None => None,
            },
            None => None,
        },
        None => None,
    }
}

pub open spec fn dec_invite(s: Seq<u8>) -> Option<(ConversationInviteV, Seq<u8>)> {
    match dec_str_list(s) {
        Some((v, r)) => Some((ConversationInviteV { participants: v }, r)),
        None => None,
    }
}

pub open spec fn dec_reliability_info(s: Seq<u8>) -> Option<(ReliabilityInfoV, Seq<u8>)> {
    match dec_str(s) {
        Some((message_id, r1)) => match dec_str(r1) {
            Some((channel_id, r2)) => match dec_u64(r2) {
                Some((lamport_timestamp, r3)) => match dec_str_list(r3) {
                    Some((causal_history, r4)) => match dec_bytes(r4) {
                        Some((dedup_summary, r5)) => Some(
                            (
                                ReliabilityInfoV {
                                    message_id,
                                    channel_id,
                                    lamport_timestamp,
                                    causal_history,
                                    dedup_summary,
                                },
                                r5,
                            ),
                        ),
                        None => None,
                    },
                    None => None,
                },
                None => None,
            },
            None => None,
        },
        None => None,
    }
}

pub open spec fn dec_opt_reliability(s: Seq<u8>) -> Option<
    (Option<ReliabilityInfoV>, Seq<u8>),
> {
    match dec_u8(s) {
        Some((d, r)) => {
            if d == DISC_ABSENT {
                Some((None, r))
            } else if d == DISC_FIRST {
                match dec_reliability_info(r) {
                    Some((ri, r2)) => Some((Some(ri), r2)),
                    None => None,
                }
            } else {
                None
            }
        },
        None => None,
    }
}

pub open spec fn dec_frame_type(s: Seq<u8>) -> Option<(FrameTypeV, Seq<u8>)> {
    match dec_u8(s) {
        Some((d, r)) => {
            if d == DISC_FIRST {
                match dec_content_frame(r) {
                    Some((c, r2)) => Some((FrameTypeV::Content(c), r2)),
                    None => None,
                }
            } else if d == DISC_SECOND {
                match dec_invite(r) {
                    Some((i, r2)) => Some((FrameTypeV::ConversationInvite(i), r2)),
                    None => None,
                }
            } else {
                None
            }
        },
        None => None,
    }
}

pub open spec fn dec_frame(s: Seq<u8>) -> Option<(FrameV, Seq<u8>)> {
    match dec_opt_reliability(s) {
        Some((ri, r1)) => match dec_frame_type(r1) {
            Some((ft, r2)) => Some((FrameV { reliability_info: ri, frame_type: ft }, r2)),
            None => None,
        },
        None => None,
    }
}

pub open spec fn dec_encrypted_bytes(s: Seq<u8>) -> Option<(EncryptedBytesV, Seq<u8>)> {
    match dec_u8(s) {
        Some((d, r)) => {
            if d == DISC_ABSENT {
                Some((EncryptedBytesV { encryption: None }, r))
            } else if d == DISC_FIRST {
                match dec_bytes(r) {
                    Some((b, r2)) => Some(
                        (EncryptedBytesV { encryption: Some(EncryptionV::Plaintext(b)) }, r2),
                    ),
                    None => None,
                }
            } else if d == DISC_SECOND {
                match dec_bytes(r) {
                    Some((b, r2)) => Some(
                        (EncryptedBytesV { encryption: Some(EncryptionV::Reversed(b)) }, r2),
                    ),
                    None => None,
                }
            } else {
                None
            }
        },
        None => None,
    }
}

pub open spec fn dec_envelope(s: Seq<u8>) -> Option<(EnvelopeV, Seq<u8>)> {
    match dec_encrypted_bytes(s) {
        Some((eb, r1)) => match dec_str(r1) {
            Some((hint, r2)) => match dec_u64(r2) {
                Some((salt, r3)) => Some(
                    (EnvelopeV { encrypted_bytes: eb, conversation_hint: hint, salt }, r3),
                ),
                None => None,
            },
            None => None,
        },
        None => None,
    }
}

pub open spec fn dec_tagged_payload(s: Seq<u8>) -> Option<(TaggedPayloadV, Seq<u8>)> {
    match dec_u32(s) {
        Some((protocol, r1)) => match dec_u32(r1) {
            Some((tag, r2)) => match dec_bytes(r2) {
                Some((b, r3)) => Some((TaggedPayloadV { protocol, tag, payload_bytes: b }, r3)),
                None => None,
            },
            None => None,
        },
        None => None,
    }
}

pub open spec fn dec_reliable_bytes(s: Seq<u8>) -> Option<(ReliableBytesV, Seq<u8>)> {
    match dec_str(s) {
        Some((message_id, r1)) => match dec_str(r1) {
            Some((channel_id, r2)) => match dec_u64(r2) {
                Some((lamport_timestamp, r3)) => match dec_str_list(r3) {
                    Some((causal_history, r4)) => match dec_bytes(r4) {
                        Some((dedup_summary, r5)) => match dec_bytes(r5) {
                            Some((content, r6)) => Some(
                                (
                                    ReliableBytesV {
                                        message_id,
                                        channel_id,
                                        lamport_timestamp,
                                        causal_history,
                                        dedup_summary,
                                        content,
                                    },
                                    r6,
                                ),
                            ),
                            None => None,
                        },
                        None => None,
                    },
                    None => None,
                },
                None => None,
            },
            None => None,
        },
        None => None,
    }
}

// ------------------------------------------------------------------
// Whole-message decoders: the bytes must be consumed exactly.
// ------------------------------------------------------------------

pub open spec fn dec_frame_msg(s: Seq<u8>) -> Option<FrameV> {
    match dec_frame(s) {
        Some((v, rem)) => if rem.len() == 0 {
            Some(v)
        } else {
            None
        },
        None => None,
    }
}

pub open spec fn dec_content_frame_msg(s: Seq<u8>) -> Option<ContentFrameV> {
    match dec_content_frame(s) {
        Some((v, rem)) => if rem.len() == 0 {
            Some(v)
        } else {
            None
        },
        None => None,
    }
}

pub open spec fn dec_encrypted_bytes_msg(s: Seq<u8>) -> Option<EncryptedBytesV> {
    match dec_encrypted_bytes(s) {
        Some((v, rem)) => if rem.len() == 0 {
            Some(v)
        } else {
            None
        },
        None => None,
    }
}

pub open spec fn dec_envelope_msg(s: Seq<u8>) -> Option<EnvelopeV> {
    match dec_envelope(s) {
        Some((v, rem)) => if rem.len() == 0 {
            Some(v)
        } else {
            None
        },
        None => None,
    }
}

pub open spec fn dec_tagged_payload_msg(s: Seq<u8>) -> Option<TaggedPayloadV> {
    match dec_tagged_payload(s) {
        Some((v, rem)) => if rem.len() == 0 {
            Some(v)
        } else {
            None
        },
        None => None,
    }
}

pub open spec fn dec_reliable_bytes_msg(s: Seq<u8>) -> Option<ReliableBytesV> {
    match dec_reliable_bytes(s) {
        Some((v, rem)) => if rem.len() == 0 {
            Some(v)
        } else {
            None
        },
        None => None,
    }
}

// ------------------------------------------------------------------
// Round-trip lemmas over the remaining-suffix decoders
// ------------------------------------------------------------------

pub proof fn lemma_content_frame_rt(v: ContentFrameV, rest: Seq<u8>)
    requires
        v.wf(),
    ensures
        dec_content_frame(enc_content_frame(v) + rest) == Some((v, rest)),
{
    let s = enc_content_frame(v) + rest;
    let t2 = enc_bytes(v.bytes) + rest;
    let t1 = enc_u32(v.tag) + t2;
    assert(s =~= enc_u32(v.domain) + t1);
    lemma_u32_round_trip(v.domain, t1);
    assert(t1 =~= enc_u32(v.tag) + t2);
    lemma_u32_round_trip(v.tag, t2);
    lemma_bytes_round_trip(v.bytes, rest);
}

pub proof fn lemma_invite_rt(v: ConversationInviteV, rest: Seq<u8>)
    requires
        v.wf(),
    ensures
        dec_invite(enc_invite(v) + rest) == Some((v, rest)),
{
    lemma_str_list_round_trip(v.participants, rest);
}

pub proof fn lemma_reliability_info_rt(v: ReliabilityInfoV, rest: Seq<u8>)
    requires
        v.wf(),
    ensures
        dec_reliability_info(enc_reliability_info(v) + rest) == Some((v, rest)),
{
    let s = enc_reliability_info(v) + rest;
    let t4 = enc_bytes(v.dedup_summary) + rest;
    let t3 = enc_str_list(v.causal_history) + t4;
    let t2 = enc_u64(v.lamport_timestamp) + t3;
    let t1 = enc_str(v.channel_id) + t2;
    assert(s =~= enc_str(v.message_id) + t1);
    lemma_str_round_trip(v.message_id, t1);
    lemma_str_round_trip(v.channel_id, t2);
    lemma_u64_round_trip(v.lamport_timestamp, t3);
    lemma_str_list_round_trip(v.causal_history, t4);
    lemma_bytes_round_trip(v.dedup_summary, rest);
}

pub proof fn lemma_opt_reliability_rt(o: Option<ReliabilityInfoV>, rest: Seq<u8>)
    requires
        o matches Some(r) ==> r.wf(),
    ensures
        dec_opt_reliability(enc_opt_reliability(o) + rest) == Some((o, rest)),
{
    match o {
        None => {
            lemma_u8_round_trip(DISC_ABSENT, rest);
        },
        Some(r) => {
            let t1 = enc_reliability_info(r) + rest;
            assert(enc_opt_reliability(o) + rest =~= enc_u8(DISC_FIRST) + t1);
            lemma_u8_round_trip(DISC_FIRST, t1);
            lemma_reliability_info_rt(r, rest);
        },
    }
}

pub proof fn lemma_frame_type_rt(v: FrameTypeV, rest: Seq<u8>)
    requires
        v.wf(),
    ensures
        dec_frame_type(enc_frame_type(v) + rest) == Some((v, rest)),
{
    match v {
        FrameTypeV::Content(c) => {
            let t1 = enc_content_frame(c) + rest;
            assert(enc_frame_type(v) + rest =~= enc_u8(DISC_FIRST) + t1);
            lemma_u8_round_trip(DISC_FIRST, t1);
            lemma_content_frame_rt(c, rest);
        },
        FrameTypeV::ConversationInvite(i) => {
            let t1 = enc_invite(i) + rest;
            assert(enc_frame_type(v) + rest =~= enc_u8(DISC_SECOND) + t1);
            lemma_u8_round_trip(DISC_SECOND, t1);
            lemma_invite_rt(i, rest);
        },
    }
}

pub proof fn lemma_frame_rt(v: FrameV, rest: Seq<u8>)
    requires
        v.wf(),
    ensures
        dec_frame(enc_frame(v) + rest) == Some((v, rest)),
{
    let t1 = enc_frame_type(v.frame_type) + rest;
    assert(enc_frame(v) + rest =~= enc_opt_reliability(v.reliability_info) + t1);
    lemma_opt_reliability_rt(v.reliability_info, t1);
    lemma_frame_type_rt(v.frame_type, rest);
}

pub proof fn lemma_encrypted_bytes_rt(v: EncryptedBytesV, rest: Seq<u8>)
    requires
        v.wf(),
    ensures
        dec_encrypted_bytes(enc_encrypted_bytes(v) + rest) == Some((v, rest)),
{
    match v.encryption {
        None => {
            lemma_u8_round_trip(DISC_ABSENT, rest);
        },
        Some(e) => {
            match e {
                EncryptionV::Plaintext(b) => {
                    let t1 = enc_bytes(b) + rest;
                    assert(enc_encrypted_bytes(v) + rest =~= enc_u8(DISC_FIRST) + t1);
                    lemma_u8_round_trip(DISC_FIRST, t1);
                    lemma_bytes_round_trip(b, rest);
                },
                EncryptionV::Reversed(b) => {
                    let t1 = enc_bytes(b) + rest;
                    assert(enc_encrypted_bytes(v) + rest =~= enc_u8(DISC_SECOND) + t1);
                    lemma_u8_round_trip(DISC_SECOND, t1);
                    lemma_bytes_round_trip(b, rest);
                },
            }
        },
    }
}

pub proof fn lemma_envelope_rt(v: EnvelopeV, rest: Seq<u8>)
    requires
        v.wf(),
    ensures
        dec_envelope(enc_envelope(v) + rest) == Some((v, rest)),
{
    let t2 = enc_u64(v.salt) + rest;
    let t1 = enc_str(v.conversation_hint) + t2;
    assert(enc_envelope(v) + rest =~= enc_encrypted_bytes(v.encrypted_bytes) + t1);
    lemma_encrypted_bytes_rt(v.encrypted_bytes, t1);
    lemma_str_round_trip(v.conversation_hint, t2);
    lemma_u64_round_trip(v.salt, rest);
}

pub proof fn lemma_tagged_payload_rt(v: TaggedPayloadV, rest: Seq<u8>)
    requires
        v.wf(),
    ensures
        dec_tagged_payload(enc_tagged_payload(v) + rest) == Some((v, rest)),
{
    let t2 = enc_bytes(v.payload_bytes) + rest;
    let t1 = enc_u32(v.tag) + t2;
    assert(enc_tagged_payload(v) + rest =~= enc_u32(v.protocol) + t1);
    lemma_u32_round_trip(v.protocol, t1);
    lemma_u32_round_trip(v.tag, t2);
    lemma_bytes_round_trip(v.payload_bytes, rest);
}

pub proof fn lemma_reliable_bytes_rt(v: ReliableBytesV, rest: Seq<u8>)
    requires
        v.wf(),
    ensures
        dec_reliable_bytes(enc_reliable_bytes(v) + rest) == Some((v, rest)),
{
    let t5 = enc_bytes(v.content) + rest;
    let t4 = enc_bytes(v.dedup_summary) + t5;
    let t3 = enc_str_list(v.causal_history) + t4;
    let t2 = enc_u64(v.lamport_timestamp) + t3;
    let t1 = enc_str(v.channel_id) + t2;
    assert(enc_reliable_bytes(v) + rest =~= enc_str(v.message_id) + t1);
    lemma_str_round_trip(v.message_id, t1);
    lemma_str_round_trip(v.channel_id, t2);
    lemma_u64_round_trip(v.lamport_timestamp, t3);
    lemma_str_list_round_trip(v.causal_history, t4);
    lemma_bytes_round_trip(v.dedup_summary, t5);
    lemma_bytes_round_trip(v.content, rest);
}

// ------------------------------------------------------------------
// Whole-message round-trip laws
// ------------------------------------------------------------------

/// Law: decoding an encoded frame yields the frame, for both defined frame
/// variants and any reliability slot.
pub proof fn lemma_frame_round_trip(v: FrameV)
    requires
        v.wf(),
    ensures
        dec_frame_msg(enc_frame(v)) == Some(v),
{
    assert(enc_frame(v) =~= enc_frame(v) + Seq::<u8>::empty());
    lemma_frame_rt(v, Seq::empty());
}

/// Law: decoding an encoded envelope yields the envelope.
pub proof fn lemma_envelope_round_trip(v: EnvelopeV)
    requires
        v.wf(),
    ensures
        dec_envelope_msg(enc_envelope(v)) == Some(v),
{
    assert(enc_envelope(v) =~= enc_envelope(v) + Seq::<u8>::empty());
    lemma_envelope_rt(v, Seq::empty());
}

/// Law: decoding an encoded tagged payload yields the payload.
pub proof fn lemma_tagged_payload_round_trip(v: TaggedPayloadV)
    requires
        v.wf(),
    ensures
        dec_tagged_payload_msg(enc_tagged_payload(v)) == Some(v),
{
    assert(enc_tagged_payload(v) =~= enc_tagged_payload(v) + Seq::<u8>::empty());
    lemma_tagged_payload_rt(v, Seq::empty());
}

/// Law: decoding an encoded reliability wrapper yields the wrapper.
pub proof fn lemma_reliable_bytes_round_trip(v: ReliableBytesV)
    requires
        v.wf(),
    ensures
        dec_reliable_bytes_msg(enc_reliable_bytes(v)) == Some(v),
{
    assert(enc_reliable_bytes(v) =~= enc_reliable_bytes(v) + Seq::<u8>::empty());
    lemma_reliable_bytes_rt(v, Seq::empty());
}

/// Law: decoding encoded encrypted bytes yields them back.
pub proof fn lemma_encrypted_bytes_round_trip(v: EncryptedBytesV)
    requires
        v.wf(),
    ensures
        dec_encrypted_bytes_msg(enc_encrypted_bytes(v)) == Some(v),
{
    assert(enc_encrypted_bytes(v) =~= enc_encrypted_bytes(v) + Seq::<u8>::empty());
    lemma_encrypted_bytes_rt(v, Seq::empty());
}

/// Law: decoding an encoded content frame yields the frame.
pub proof fn lemma_content_frame_round_trip(v: ContentFrameV)
    requires
        v.wf(),
    ensures
        dec_content_frame_msg(enc_content_frame(v)) == Some(v),
{
    assert(enc_content_frame(v) =~= enc_content_frame(v) + Seq::<u8>::empty());
    lemma_content_frame_rt(v, Seq::empty());
}

// ------------------------------------------------------------------
// Executable field writers
// ------------------------------------------------------------------

fn write_content_frame(buf: &mut Vec<u8>, v: &ContentFrame)
    ensures
        final(buf)@ == old(buf)@ + enc_content_frame(v@),
        v@.wf(),
{
    write_u32(buf, v.domain);
    write_u32(buf, v.tag);
    write_bytes(buf, v.bytes.as_slice());
    proof {
        assert(buf@ =~= old(buf)@ + enc_content_frame(v@));
    }
}

fn write_invite(buf: &mut Vec<u8>, v: &ConversationInvite)
    ensures
        final(buf)@ == old(buf)@ + enc_invite(v@),
        v@.wf(),
{
    write_str_list(buf, &v.participants);
}

fn write_reliability_info(buf: &mut Vec<u8>, v: &ReliabilityInfo)
    ensures
        final(buf)@ == old(buf)@ + enc_reliability_info(v@),
        v@.wf(),
{
    write_str(buf, v.message_id.as_str());
    write_str(buf, v.channel_id.as_str());
    write_u64(buf, v.lamport_timestamp);
    write_str_list(buf, &v.causal_history);
    write_bytes(buf, v.dedup_summary.as_slice());
    proof {
        assert(buf@ =~= old(buf)@ + enc_reliability_info(v@));
    }
}

fn write_opt_reliability(buf: &mut Vec<u8>, v: &Option<ReliabilityInfo>)
    ensures
        final(buf)@ == old(buf)@ + enc_opt_reliability(crate::payload::opt_ri_view(*v)),
        crate::payload::opt_ri_view(*v) matches Some(r) ==> r.wf(),
{
    match v {
        None => {
            write_u8(buf, DISC_ABSENT);
        },
        Some(r) => {
            write_u8(buf, DISC_FIRST);
            write_reliability_info(buf, r);
            proof {
                assert(buf@ =~= old(buf)@ + enc_opt_reliability(
                    crate::payload::opt_ri_view(*v),
                ));
            }
        },
    }
}

fn write_frame_type(buf: &mut Vec<u8>, v: &FrameType)
    ensures
        final(buf)@ == old(buf)@ + enc_frame_type(v@),
        v@.wf(),
{
    match v {
        FrameType::Content(c) => {
            write_u8(buf, DISC_FIRST);
            write_content_frame(buf, c);
            proof {
                assert(buf@ =~= old(buf)@ + enc_frame_type(v@));
            }
        },
        FrameType::ConversationInvite(i) => {
            write_u8(buf, DISC_SECOND);
            write_invite(buf, i);
            proof {
                assert(buf@ =~= old(buf)@ + enc_frame_type(v@));
            }
        },
    }
}

fn write_encrypted_bytes(buf: &mut Vec<u8>, v: &EncryptedBytes)
    ensures
        final(buf)@ == old(buf)@ + enc_encrypted_bytes(v@),
        v@.wf(),
{
    match &v.encryption {
        None => {
            write_u8(buf, DISC_ABSENT);
        },
        Some(e) => {
            match e {
                Encryption::Plaintext(b) => {
                    write_u8(buf, DISC_FIRST);
                    write_bytes(buf, b.as_slice());
                },
                Encryption::Reversed(b) => {
                    write_u8(buf, DISC_SECOND);
                    write_bytes(buf, b.as_slice());
                },
            }
            proof {
                assert(buf@ =~= old(buf)@ + enc_encrypted_bytes(v@));
            }
        },
    }
}

// ------------------------------------------------------------------
// Executable field readers
// ------------------------------------------------------------------

fn read_content_frame(s: &[u8], pos: usize) -> (r: Result<(ContentFrame, usize), UmbraError>)
    requires
        pos <= s@.len(),
    ensures
        match dec_content_frame(s@.skip(pos as int)) {
            Some((v, rem)) => (r matches Ok((x, end)) && x@ == v && pos <= end <= s@.len()
                && s@.skip(end as int) == rem),
            None => r matches Err(UmbraError::DecodingError(_)),
        },
{
    let (domain, p1) = match read_u32(s, pos) {
        Ok(t) => t,
        Err(e) => {
            return Err(e);
        },
    };
    let (tag, p2) = match read_u32(s, p1) {
        Ok(t) => t,
        Err(e) => {
            return Err(e);
        },
    };
    let (bytes, p3) = match read_bytes(s, p2) {
        Ok(t) => t,
        Err(e) => {
            return Err(e);
        },
    };
    Ok((ContentFrame { domain, tag, bytes }, p3))
}

fn read_invite(s: &[u8], pos: usize) -> (r: Result<(ConversationInvite, usize), UmbraError>)
    requires
        pos <= s@.len(),
    ensures
        match dec_invite(s@.skip(pos as int)) {
            Some((v, rem)) => (r matches Ok((x, end)) && x@ == v && pos <= end <= s@.len()
                && s@.skip(end as int) == rem),
            None => r matches Err(UmbraError::DecodingError(_)),
        },
{
    let (participants, p1) = match read_str_list(s, pos) {
        Ok(t) => t,
        Err(e) => {
            return Err(e);
        },
    };
    Ok((ConversationInvite { participants }, p1))
}

fn read_reliability_info(s: &[u8], pos: usize) -> (r: Result<
    (ReliabilityInfo, usize),
    UmbraError,
>)
    requires
        pos <= s@.len(),
    ensures
        match dec_reliability_info(s@.skip(pos as int)) {
            Some((v, rem)) => (r matches Ok((x, end)) && x@ == v && pos <= end <= s@.len()
                && s@.skip(end as int) == rem),
            None => r matches Err(UmbraError::DecodingError(_)),
        },
{
    let (message_id, p1) = match read_str(s, pos) {
        Ok(t) => t,
        Err(e) => {
            return Err(e);
        },
    };
    let (channel_id, p2) = match read_str(s, p1) {
        Ok(t) => t,
        Err(e) => {
            return Err(e);
        },
    };
    let (lamport_timestamp, p3) = match read_u64(s, p2) {
        Ok(t) => t,
        Err(e) => {
            return Err(e);
        },
    };
    let (causal_history, p4) = match read_str_list(s, p3) {
        Ok(t) => t,
        Err(e) => {
            return Err(e);
        },
    };
    let (dedup_summary, p5) = match read_bytes(s, p4) {
        Ok(t) => t,
        Err(e) => {
            return Err(e);
        },
    };
    Ok(
        (
            ReliabilityInfo {
                message_id,
                channel_id,
                lamport_timestamp,
                causal_history,
                dedup_summary,
            },
            p5,
        ),
    )
}

fn read_opt_reliability(s: &[u8], pos: usize) -> (r: Result<
    (Option<ReliabilityInfo>, usize),
    UmbraError,
>)
    requires
        pos <= s@.len(),
    ensures
        match dec_opt_reliability(s@.skip(pos as int)) {
            Some((v, rem)) => (r matches Ok((x, end)) && crate::payload::opt_ri_view(x) == v && pos
                <= end <= s@.len() && s@.skip(end as int) == rem),
            None => r matches Err(UmbraError::DecodingError(_)),
        },
{
    let (d, p1) = match read_u8(s, pos) {
        Ok(t) => t,
        Err(e) => {
            return Err(e);
        },
    };
    if d == DISC_ABSENT {
        Ok((None, p1))
    } else if d == DISC_FIRST {
        let (ri, p2) = match read_reliability_info(s, p1) {
            Ok(t) => t,
            Err(e) => {
                return Err(e);
            },
        };
        Ok((Some(ri), p2))
    } else {
        Err(UmbraError::DecodingError(malformed()))
    }
}

fn read_frame_type(s: &[u8], pos: usize) -> (r: Result<(FrameType, usize), UmbraError>)
    requires
        pos <= s@.len(),
    ensures
        match dec_frame_type(s@.skip(pos as int)) {
            Some((v, rem)) => (r matches Ok((x, end)) && x@ == v && pos <= end <= s@.len()
                && s@.skip(end as int) == rem),
            None => r matches Err(UmbraError::DecodingError(_)),
        },
{
    let (d, p1) = match read_u8(s, pos) {
        Ok(t) => t,
        Err(e) => {
            return Err(e);
        },
    };
    if d == DISC_FIRST {
        let (c, p2) = match read_content_frame(s, p1) {
            Ok(t) => t,
            Err(e) => {
                return Err(e);
            },
        };
        Ok((FrameType::Content(c), p2))
    } else if d == DISC_SECOND {
        let (i, p2) = match read_invite(s, p1) {
            Ok(t) => t,
            Err(e) => {
                return Err(e);
            },
        };
        Ok((FrameType::ConversationInvite(i), p2))
    } else {
        Err(UmbraError::DecodingError(malformed()))
    }
}

fn read_encrypted_bytes(s: &[u8], pos: usize) -> (r: Result<(EncryptedBytes, usize), UmbraError>)
    requires
        pos <= s@.len(),
    ensures
        match dec_encrypted_bytes(s@.skip(pos as int)) {
            Some((v, rem)) => (r matches Ok((x, end)) && x@ == v && pos <= end <= s@.len()
                && s@.skip(end as int) == rem),
            None => r matches Err(UmbraError::DecodingError(_)),
        },
{
    let (d, p1) = match read_u8(s, pos) {
        Ok(t) => t,
        Err(e) => {
            return Err(e);
        },
    };
    if d == DISC_ABSENT {
        Ok((EncryptedBytes { encryption: None }, p1))
    } else if d == DISC_FIRST {
        let (b, p2) = match read_bytes(s, p1) {
            Ok(t) => t,
            Err(e) => {
                return Err(e);
            },
        };
        Ok((EncryptedBytes { encryption: Some(Encryption::Plaintext(b)) }, p2))
    } else if d == DISC_SECOND {
        let (b, p2) = match read_bytes(s, p1) {
            Ok(t) => t,
            Err(e) => {
                return Err(e);
            },
        };
        Ok((EncryptedBytes { encryption: Some(Encryption::Reversed(b)) }, p2))
    } else {
        Err(UmbraError::DecodingError(malformed()))
    }
}

/// The message carried by decoding errors of the codec layer.
fn malformed() -> String {
    String::from_str("malformed message")
}

/// Check that a decoder consumed the buffer exactly.
fn expect_consumed(end: usize, len: usize) -> (r: Result<(), UmbraError>)
    ensures
        r is Ok <==> end == len,
        r is Err ==> r matches Err(UmbraError::DecodingError(_)),
{
    if end == len {
        Ok(())
    } else {
        Err(UmbraError::DecodingError(malformed()))
    }
}

// ------------------------------------------------------------------
// Whole-message encode and decode
// ------------------------------------------------------------------

impl ContentFrame {
    /// Serialize this content frame alone.
    pub fn encode(&self) -> (r: Vec<u8>)
        ensures
            r@ == enc_content_frame(self@),
            self@.wf(),
    {
        let mut buf: Vec<u8> = Vec::new();
        write_content_frame(&mut buf, self);
        proof {
            assert(buf@ =~= enc_content_frame(self@));
        }
        buf
    }

    /// Decode a content frame, demanding that the bytes are consumed exactly.
    pub fn decode(s: &[u8]) -> (r: Result<Self, UmbraError>)
        ensures
            match dec_content_frame_msg(s@) {
                Some(v) => r matches Ok(x) && x@ == v,
                None => r matches Err(UmbraError::DecodingError(_)),
            },
    {
        let (v, end) = match read_content_frame(s, 0) {
            Ok(t) => t,
            Err(e) => {
                proof {
                    assert(s@.skip(0) =~= s@);
                }
                return Err(e);
            },
        };
        proof {
            assert(s@.skip(0) =~= s@);
        }
        match expect_consumed(end, s.len()) {
            Ok(()) => Ok(v),
            Err(e) => Err(e),
        }
    }
}

impl Frame {
    /// Serialize this frame: the optional reliability slot, then the
    /// discriminated frame body.
    pub fn encode(&self) -> (r: Vec<u8>)
        ensures
            r@ == enc_frame(self@),
            self@.wf(),
    {
        let mut buf: Vec<u8> = Vec::new();
        write_opt_reliability(&mut buf, &self.reliability_info);
        write_frame_type(&mut buf, &self.frame_type);
        proof {
            assert(buf@ =~= enc_frame(self@));
        }
        buf
    }

    /// Decode a frame, demanding that the bytes are consumed exactly.
    pub fn decode(s: &[u8]) -> (r: Result<Self, UmbraError>)
        ensures
            match dec_frame_msg(s@) {
                Some(v) => r matches Ok(x) && x@ == v,
                None => r matches Err(UmbraError::DecodingError(_)),
            },
    {
        proof {
            assert(s@.skip(0) =~= s@);
        }
        let (ri, p1) = match read_opt_reliability(s, 0) {
            Ok(t) => t,
            Err(e) => {
                return Err(e);
            },
        };
        let (ft, p2) = match read_frame_type(s, p1) {
            Ok(t) => t,
            Err(e) => {
                return Err(e);
            },
        };
        match expect_consumed(p2, s.len()) {
            Ok(()) => Ok(Frame { reliability_info: ri, frame_type: ft }),
            Err(e) => Err(e),
        }
    }
}

impl EncryptedBytes {
    /// Serialize the algorithm-tagged ciphertext.
    pub fn encode(&self) -> (r: Vec<u8>)
        ensures
            r@ == enc_encrypted_bytes(self@),
            self@.wf(),
    {
        let mut buf: Vec<u8> = Vec::new();
        write_encrypted_bytes(&mut buf, self);
        proof {
            assert(buf@ =~= enc_encrypted_bytes(self@));
        }
        buf
    }

    /// Decode encrypted bytes, demanding that the bytes are consumed exactly.
    pub fn decode(s: &[u8]) -> (r: Result<Self, UmbraError>)
        ensures
            match dec_encrypted_bytes_msg(s@) {
                Some(v) => r matches Ok(x) && x@ == v,
                None => r matches Err(UmbraError::DecodingError(_)),
            },
    {
        proof {
            assert(s@.skip(0) =~= s@);
        }
        let (v, end) = match read_encrypted_bytes(s, 0) {
            Ok(t) => t,
            Err(e) => {
                return Err(e);
            },
        };
        match expect_consumed(end, s.len()) {
            Ok(()) => Ok(v),
            Err(e) => Err(e),
        }
    }
}

impl Envelope {
    /// Serialize the envelope: ciphertext, routing hint, salt.
    pub fn encode(&self) -> (r: Vec<u8>)
        ensures
            r@ == enc_envelope(self@),
            self@.wf(),
    {
        let mut buf: Vec<u8> = Vec::new();
        write_encrypted_bytes(&mut buf, &self.encrypted_bytes);
        write_str(&mut buf, self.conversation_hint.as_str());
        write_u64(&mut buf, self.salt);
        proof {
            assert(buf@ =~= enc_envelope(self@));
        }
        buf
    }

    /// Decode an envelope, demanding that the bytes are consumed exactly.
    pub fn decode(s: &[u8]) -> (r: Result<Self, UmbraError>)
        ensures
            match dec_envelope_msg(s@) {
                Some(v) => r matches Ok(x) && x@ == v,
                None => r matches Err(UmbraError::DecodingError(_)),
            },
    {
        proof {
            assert(s@.skip(0) =~= s@);
        }
        let (eb, p1) = match read_encrypted_bytes(s, 0) {
            Ok(t) => t,
            Err(e) => {
                return Err(e);
            },
        };
        let (hint, p2) = match read_str(s, p1) {
            Ok(t) => t,
            Err(e) => {
                return Err(e);
            },
        };
        let (salt, p3) = match read_u64(s, p2) {
            Ok(t) => t,
            Err(e) => {
                return Err(e);
            },
        };
        match expect_consumed(p3, s.len()) {
            Ok(()) => Ok(Envelope { encrypted_bytes: eb, conversation_hint: hint, salt }),
            Err(e) => Err(e),
        }
    }
}

impl TaggedPayload {
    /// Serialize the top-level multiplexed payload.
    pub fn encode(&self) -> (r: Vec<u8>)
        ensures
            r@ == enc_tagged_payload(self@),
            self@.wf(),
    {
        let mut buf: Vec<u8> = Vec::new();
        write_u32(&mut buf, self.protocol);
        write_u32(&mut buf, self.tag);
        write_bytes(&mut buf, self.payload_bytes.as_slice());
        proof {
            assert(buf@ =~= enc_tagged_payload(self@));
        }
        buf
    }

    /// Decode a tagged payload, demanding that the bytes are consumed
    /// exactly.
    pub fn decode(s: &[u8]) -> (r: Result<Self, UmbraError>)
        ensures
            match dec_tagged_payload_msg(s@) {
                Some(v) => r matches Ok(x) && x@ == v,
                None => r matches Err(UmbraError::DecodingError(_)),
            },
    {
        proof {
            assert(s@.skip(0) =~= s@);
        }
        let (protocol, p1) = match read_u32(s, 0) {
            Ok(t) => t,
            Err(e) => {
                return Err(e);
            },
        };
        let (tag, p2) = match read_u32(s, p1) {
            Ok(t) => t,
            Err(e) => {
                return Err(e);
            },
        };
        let (payload_bytes, p3) = match read_bytes(s, p2) {
            Ok(t) => t,
            Err(e) => {
                return Err(e);
            },
        };
        match expect_consumed(p3, s.len()) {
            Ok(()) => Ok(TaggedPayload { protocol, tag, payload_bytes }),
            Err(e) => Err(e),
        }
    }
}

impl ReliableBytes {
    /// Serialize the reliability wrapper.
    pub fn encode(&self) -> (r: Vec<u8>)
        ensures
            r@ == enc_reliable_bytes(self@),
            self@.wf(),
    {
        let mut buf: Vec<u8> = Vec::new();
        write_str(&mut buf, self.message_id.as_str());
        write_str(&mut buf, self.channel_id.as_str());
        write_u64(&mut buf, self.lamport_timestamp);
        write_str_list(&mut buf, &self.causal_history);
        write_bytes(&mut buf, self.dedup_summary.as_slice());
        write_bytes(&mut buf, self.content.as_slice());
        proof {
            assert(buf@ =~= enc_reliable_bytes(self@));
        }
        buf
    }

    /// Decode a reliability wrapper, demanding that the bytes are consumed
    /// exactly.
    pub fn decode(s: &[u8]) -> (r: Result<Self, UmbraError>)
        ensures
            match dec_reliable_bytes_msg(s@) {
                Some(v) => r matches Ok(x) && x@ == v,
                None => r matches Err(UmbraError::DecodingError(_)),
            },
    {
        proof {
            assert(s@.skip(0) =~= s@);
        }
        let (message_id, p1) = match read_str(s, 0) {
            Ok(t) => t,
            Err(e) => {
                return Err(e);
            },
        };
        let (channel_id, p2) = match read_str(s, p1) {
            Ok(t) => t,
            Err(e) => {
                return Err(e);
            },
        };
        let (lamport_timestamp, p3) = match read_u64(s, p2) {
            Ok(t) => t,
            Err(e) => {
                return Err(e);
            },
        };
        let (causal_history, p4) = match read_str_list(s, p3) {
            Ok(t) => t,
            Err(e) => {
                return Err(e);
            },
        };
        let (dedup_summary, p5) = match read_bytes(s, p4) {
            Ok(t) => t,
            Err(e) => {
                return Err(e);
            },
        };
        let (content, p6) = match read_bytes(s, p5) {
            Ok(t) => t,
            Err(e) => {
                return Err(e);
            },
        };
        match expect_consumed(p6, s.len()) {
            Ok(()) => Ok(
                ReliableBytes {
                    message_id,
                    channel_id,
                    lamport_timestamp,
                    causal_history,
                    dedup_summary,
                    content,
                },
            ),
            Err(e) => Err(e),
        }
    }
}

/// Lifting an envelope to the transport payload: it is tagged as an
/// envelope under the current protocol and carries the encoded envelope.
impl ToPayload for Envelope {
    open spec fn spec_payload(&self) -> TaggedPayloadV {
        TaggedPayloadV {
            protocol: PROTOCOL_UMBRA_V1,
            tag: PAYLOAD_TAG_ENVELOPE,
            payload_bytes: enc_envelope(self@),
        }
    }

    fn to_payload(self) -> (p: TaggedPayload) {
        let payload_bytes = self.encode();
        proof {
            broadcast use vstd::std_specs::vec::axiom_spec_len;

            assert(payload_bytes@.len() == vstd::std_specs::vec::spec_vec_len(&payload_bytes));
        }
        TaggedPayload {
            protocol: PROTOCOL_UMBRA_V1,
            tag: PAYLOAD_TAG_ENVELOPE,
            payload_bytes,
        }
    }
}

} // verus!
