use umbra::error::UmbraError;
use umbra::payload::ContentFrame;
use umbra::payload::ConversationInvite;
use umbra::payload::EncryptedBytes;
use umbra::payload::Encryption;
use umbra::payload::Envelope;
use umbra::payload::Frame;
use umbra::payload::FrameType;
use umbra::payload::ReliabilityInfo;
use umbra::payload::ReliableBytes;
use umbra::payload::TaggedPayload;
use umbra::payload::PayloadTags;
use umbra::payload::ToPayload;

fn sample_content_frame() -> Frame {
    Frame {
        reliability_info: Some(ReliabilityInfo {
            message_id: "mid-1".to_string(),
            channel_id: "chan-1".to_string(),
            lamport_timestamp: 42,
            causal_history: vec!["m0".to_string(), "m1".to_string()],
            dedup_summary: vec![1, 2, 3],
        }),
        frame_type: FrameType::Content(ContentFrame {
            domain: 0,
            tag: 5,
            bytes: vec![104, 105],
        }),
    }
}

#[test]
fn test_frame_round_trip_content() {
    let frame = sample_content_frame();
    let bytes = frame.encode();
    let back = Frame::decode(&bytes).expect("frame must decode");
    let ri = back.reliability_info.expect("reliability slot kept");
    assert_eq!(ri.message_id, "mid-1");
    assert_eq!(ri.channel_id, "chan-1");
    assert_eq!(ri.lamport_timestamp, 42);
    assert_eq!(ri.causal_history, vec!["m0".to_string(), "m1".to_string()]);
    assert_eq!(ri.dedup_summary, vec![1, 2, 3]);
    match back.frame_type {
        FrameType::Content(cf) => {
            assert_eq!(cf.domain, 0);
            assert_eq!(cf.tag, 5);
            assert_eq!(cf.bytes, vec![104, 105]);
        }
        FrameType::ConversationInvite(_) => panic!("wrong variant"),
    }
}

#[test]
fn test_frame_round_trip_invite() {
    let frame = Frame {
        reliability_info: None,
        frame_type: FrameType::ConversationInvite(ConversationInvite::new(vec![
            "alice".to_string(),
            "bob".to_string(),
        ])),
    };
    let bytes = frame.encode();
    let back = Frame::decode(&bytes).expect("frame must decode");
    assert!(back.reliability_info.is_none());
    match back.frame_type {
        FrameType::ConversationInvite(inv) => {
            assert_eq!(inv.participants, vec!["alice".to_string(), "bob".to_string()]);
        }
        FrameType::Content(_) => panic!("wrong variant"),
    }
}

#[test]
fn test_frame_decode_rejects_truncation() {
    let bytes = sample_content_frame().encode();
    let cut = &bytes[..bytes.len() - 1];
    assert!(matches!(
        Frame::decode(cut),
        Err(UmbraError::DecodingError(_))
    ));
}

#[test]
fn test_frame_decode_rejects_trailing_bytes() {
    let mut bytes = sample_content_frame().encode();
    bytes.push(0);
    assert!(matches!(
        Frame::decode(&bytes),
        Err(UmbraError::DecodingError(_))
    ));
}

#[test]
fn test_envelope_round_trip() {
    let envelope = Envelope {
        encrypted_bytes: EncryptedBytes {
            encryption: Some(Encryption::Reversed(vec![9, 8, 7])),
        },
        conversation_hint: "/private/a|b".to_string(),
        salt: 7,
    };
    let bytes = envelope.encode();
    let back = Envelope::decode(&bytes).expect("envelope must decode");
    assert_eq!(back.conversation_hint, "/private/a|b");
    assert_eq!(back.salt, 7);
    match back.encrypted_bytes.encryption {
        Some(Encryption::Reversed(b)) => assert_eq!(b, vec![9, 8, 7]),
        _ => panic!("wrong encryption slot"),
    }
}

#[test]
fn test_encrypted_bytes_absent_slot_round_trip() {
    let enc = EncryptedBytes { encryption: None };
    let bytes = enc.encode();
    let back = EncryptedBytes::decode(&bytes).expect("must decode");
    assert!(back.encryption.is_none());
}

#[test]
fn test_encrypted_bytes_rejects_unknown_variant() {
    let enc = EncryptedBytes {
        encryption: Some(Encryption::Plaintext(vec![1, 2])),
    };
    let mut bytes = enc.encode();
    bytes[0] = 9;
    assert!(matches!(
        EncryptedBytes::decode(&bytes),
        Err(UmbraError::DecodingError(_))
    ));
}

#[test]
fn test_tagged_payload_round_trip() {
    let payload = TaggedPayload {
        protocol: 1,
        tag: 1,
        payload_bytes: vec![5, 6, 7, 8],
    };
    let bytes = payload.encode();
    let back = TaggedPayload::decode(&bytes).expect("payload must decode");
    assert_eq!(back.protocol, 1);
    assert_eq!(back.tag, 1);
    assert_eq!(back.payload_bytes, vec![5, 6, 7, 8]);
}

#[test]
fn test_reliable_bytes_round_trip() {
    let rb = ReliableBytes {
        message_id: "deadbeef".to_string(),
        channel_id: "/private/a|b".to_string(),
        lamport_timestamp: 0,
        causal_history: vec![],
        dedup_summary: vec![],
        content: vec![1, 2, 3, 4, 5],
    };
    let bytes = rb.encode();
    let back = ReliableBytes::decode(&bytes).expect("wrapper must decode");
    assert_eq!(back.message_id, "deadbeef");
    assert_eq!(back.channel_id, "/private/a|b");
    assert_eq!(back.lamport_timestamp, 0);
    assert!(back.causal_history.is_empty());
    assert!(back.dedup_summary.is_empty());
    assert_eq!(back.content, vec![1, 2, 3, 4, 5]);
}

#[test]
fn test_envelope_to_payload_carries_envelope() {
    let envelope = Envelope {
        encrypted_bytes: EncryptedBytes {
            encryption: Some(Encryption::Plaintext(vec![3, 1, 4])),
        },
        conversation_hint: "/inbox/bob".to_string(),
        salt: 0,
    };
    let encoded = envelope.encode();
    let envelope_again = Envelope {
        encrypted_bytes: EncryptedBytes {
            encryption: Some(Encryption::Plaintext(vec![3, 1, 4])),
        },
        conversation_hint: "/inbox/bob".to_string(),
        salt: 0,
    };
    let payload = envelope_again.to_payload();
    assert_eq!(payload.protocol, umbra::payload::PROTOCOL_UMBRA_V1);
    assert_eq!(payload.tag, umbra::payload::PAYLOAD_TAG_ENVELOPE);
    assert_eq!(payload.payload_bytes, encoded);
}

#[test]
fn test_payload_tags_from_u32() {
    assert_eq!(PayloadTags::from(1), PayloadTags::TagEnvelope);
    assert_eq!(PayloadTags::from(2), PayloadTags::TagPublicFrame);
    assert_eq!(PayloadTags::from(0), PayloadTags::Unknown);
    assert_eq!(PayloadTags::from(99), PayloadTags::Unknown);
}

#[test]
fn test_unicode_strings_round_trip() {
    let frame = Frame {
        reliability_info: None,
        frame_type: FrameType::ConversationInvite(ConversationInvite::new(vec![
            "ame\u{301}lie".to_string(),
            "bo\u{1F600}b".to_string(),
        ])),
    };
    let bytes = frame.encode();
    let back = Frame::decode(&bytes).expect("frame must decode");
    match back.frame_type {
        FrameType::ConversationInvite(inv) => {
            assert_eq!(
                inv.participants,
                vec!["ame\u{301}lie".to_string(), "bo\u{1F600}b".to_string()]
            );
        }
        FrameType::Content(_) => panic!("wrong variant"),
    }
}
