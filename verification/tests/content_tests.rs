use umbra::content_types::ChatMessage;
use umbra::content_types::CONTENT_TAG_CHAT_MESSAGE;
use umbra::error::UmbraError;
use umbra::payload::Content;
use umbra::payload::TaggedContent;

#[test]
fn test_chat_message_new() {
    let chat_message = ChatMessage::new("Hello, World!".to_string());
    let _ = chat_message;
}

#[test]
fn test_chat_message_tag() {
    assert_eq!(ChatMessage::tag(), 5);
    assert_eq!(CONTENT_TAG_CHAT_MESSAGE, 5);
}

#[test]
fn test_chat_message_encode_decode() {
    let msg = ChatMessage::new("hello there".to_string());
    let bytes = msg.encode();
    let back = ChatMessage::decode(&bytes).expect("message must decode");
    assert_eq!(back.text, "hello there");
}

#[test]
fn test_chat_message_wrap_unwrap_round_trip() {
    let msg = ChatMessage::new("round trip".to_string());
    let frame = msg.wrap();
    assert_eq!(frame.domain, 0);
    assert_eq!(frame.tag, CONTENT_TAG_CHAT_MESSAGE);
    let back = ChatMessage::decode(&frame.bytes).expect("wrapped bytes must decode");
    assert_eq!(back.text, "round trip");
}

#[test]
fn test_chat_message_decode_rejects_garbage() {
    assert!(matches!(
        ChatMessage::decode(&[1, 2, 3]),
        Err(UmbraError::DecodingError(_))
    ));
}

#[test]
fn test_chat_message_decode_rejects_invalid_utf8() {
    let msg = ChatMessage::new("ab".to_string());
    let mut bytes = msg.encode();
    let last = bytes.len() - 1;
    bytes[last] = 0xFF;
    assert!(matches!(
        ChatMessage::decode(&bytes),
        Err(UmbraError::DecodingError(_))
    ));
}
