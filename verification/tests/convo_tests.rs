use umbra::convo::Conversation;
use umbra::convo::InboxConversation;
use umbra::convo::PrivateConversation;
use umbra::error::UmbraError;
use umbra::payload::EncryptedBytes;
use umbra::payload::Encryption;
use umbra::payload::Envelope;
use umbra::payload::FrameType;
use umbra::payload::TaggedPayload;

fn private_convo(id: &str) -> Conversation {
    Conversation::Private(PrivateConversation::new(id.to_string()))
}

#[test]
fn test_inbox_send_always_fails() {
    let inbox = Conversation::Inbox(InboxConversation::new("/inbox/amal".to_string()));
    let r = inbox.send(5, vec![104, 105]);
    assert!(matches!(r, Err(UmbraError::UnexpectedError)));
    let r2 = inbox.send(0, vec![]);
    assert!(matches!(r2, Err(UmbraError::UnexpectedError)));
}

#[test]
fn test_private_send_recv_round_trip() {
    let convo = private_convo("/private/amal|bola");
    let wire = convo.send(5, vec![104, 105]).expect("private send succeeds");

    let payload = TaggedPayload::decode(&wire).expect("payload decodes");
    assert_eq!(payload.tag, umbra::payload::PAYLOAD_TAG_ENVELOPE);
    let envelope = Envelope::decode(&payload.payload_bytes).expect("envelope decodes");
    assert_eq!(envelope.conversation_hint, "/private/amal|bola");

    let frame = convo
        .recv(envelope.encrypted_bytes)
        .expect("recv succeeds")
        .expect("a frame comes back");
    match frame.frame_type {
        FrameType::Content(cf) => {
            assert_eq!(cf.tag, 5);
            assert_eq!(cf.bytes, vec![104, 105]);
        }
        FrameType::ConversationInvite(_) => panic!("wrong variant"),
    }
}

#[test]
fn test_private_decrypt_rejects_mismatched_variant() {
    let r = PrivateConversation::decrypt(EncryptedBytes {
        encryption: Some(Encryption::Plaintext(vec![1, 2, 3])),
    });
    assert!(matches!(r, Err(UmbraError::DecodingError(_))));
}

#[test]
fn test_private_decrypt_rejects_absent_slot() {
    let r = PrivateConversation::decrypt(EncryptedBytes { encryption: None });
    assert!(matches!(r, Err(UmbraError::DecodingError(_))));
}

#[test]
fn test_inbox_decrypt_rejects_mismatched_variant() {
    let r = InboxConversation::decrypt(EncryptedBytes {
        encryption: Some(Encryption::Reversed(vec![1, 2, 3])),
    });
    assert!(matches!(r, Err(UmbraError::DecodingError(_))));
}

#[test]
fn test_private_recv_rejects_garbage_ciphertext() {
    let convo = private_convo("/private/a|b");
    let r = convo.recv(EncryptedBytes {
        encryption: Some(Encryption::Reversed(vec![0, 1, 2, 3])),
    });
    assert!(matches!(r, Err(UmbraError::DecodingError(_))));
}

#[test]
fn test_convo_id_reported() {
    let convo = private_convo("/private/a|b");
    assert_eq!(convo.convo_id(), "/private/a|b");
    let inbox = Conversation::Inbox(InboxConversation::new("/inbox/a".to_string()));
    assert_eq!(inbox.convo_id(), "/inbox/a");
}
