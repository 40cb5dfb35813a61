use umbra::content_types::ChatMessage;
use umbra::error::UmbraError;
use umbra::payload::EncryptedBytes;
use umbra::payload::Encryption;
use umbra::payload::Frame;
use umbra::payload::FrameType;
use umbra::payload::TaggedPayload;
use umbra::session::ConversationSession;
use umbra::session::Identity;
use umbra::session::InMemMsgStore;
use umbra::session::Poll;
use umbra::session::Publish;
use umbra::session::UmbraClient;
use umbra::session::DS;

/// A transport that remembers what was published, topic by topic.
struct MemDS {
    msgs: Vec<(String, Vec<u8>)>,
}

impl Publish for MemDS {
    fn publish(&mut self, topic: String, value: TaggedPayload) {
        let bytes = value.encode();
        self.msgs.push((topic, bytes));
    }
}

impl Poll for MemDS {
    fn poll(&mut self, _client_id: &str, topic: &str) -> Vec<Vec<u8>> {
        self.msgs
            .iter()
            .filter(|(t, _)| t == topic)
            .map(|(_, b)| b.clone())
            .collect()
    }
}

impl DS for MemDS {

}

type NewConvoCb = fn(ConversationSession);
type UpdateCb = fn(String);

fn new_client() -> UmbraClient<MemDS, InMemMsgStore, NewConvoCb, UpdateCb> {
    UmbraClient::create_with_ephemeral_identity(MemDS { msgs: Vec::new() }, InMemMsgStore {})
        .expect("client created")
}

#[test]
fn test_ephemeral_identity_shape() {
    let ident = Identity::new_ephemeral();
    let addr = ident.address();
    assert_eq!(addr.chars().count(), 16);
    assert!(addr.chars().all(|c| c.is_ascii_alphanumeric()));
}

#[test]
fn test_create_session_registers_peer() {
    let mut client = new_client();
    client.create_session("peer-1").expect("session created");
    assert!(client.get_conversation("peer-1").is_some());
    assert!(client.get_conversation("peer-2").is_none());
    assert_eq!(client.list_conversations().len(), 1);
}

#[test]
fn test_create_session_twice_replaces() {
    let mut client = new_client();
    client.create_session("peer-1").expect("session created");
    client.create_session("peer-1").expect("session created again");
    assert_eq!(client.list_conversations().len(), 1);
}

#[test]
fn test_create_group_unimplemented() {
    let client = new_client();
    let r = client.create_group(&[]);
    assert!(matches!(r, Err(UmbraError::UnimplementedError)));
}

#[test]
fn test_session_send_publishes_reversed_frame() {
    let mut client = new_client();
    let session = client.create_session("peer-1").expect("session created").clone();

    let mut wire = MemDS { msgs: Vec::new() };
    session
        .send(&mut wire, ChatMessage::new("hi".to_string()))
        .expect("send succeeds");

    assert_eq!(wire.msgs.len(), 1);
    assert_eq!(wire.msgs[0].0, "inbox/peer-1");

    let payload = TaggedPayload::decode(&wire.msgs[0].1).expect("payload decodes");
    assert_eq!(payload.tag, umbra::payload::PAYLOAD_TAG_ENVELOPE);
    let enc = EncryptedBytes::decode(&payload.payload_bytes).expect("encrypted bytes decode");
    let reversed = match enc.encryption {
        Some(Encryption::Reversed(b)) => b,
        _ => panic!("session traffic must use the reversal slot"),
    };
    let plain = umbra::crypto::decrypt_reverse(reversed);
    let frame = Frame::decode(&plain).expect("frame decodes");
    match frame.frame_type {
        FrameType::Content(cf) => {
            assert_eq!(cf.tag, 5);
            let msg = ChatMessage::decode(&cf.bytes).expect("message decodes");
            assert_eq!(msg.text, "hi");
        }
        FrameType::ConversationInvite(_) => panic!("wrong variant"),
    }
}

#[test]
fn test_poll_survives_malformed_messages() {
    // Something unparsable already waits under the topic the session
    // subscribes to; draining it must not fail the poll.
    let ds = MemDS { msgs: vec![("inbox/peer-1".to_string(), vec![9, 9, 9])] };
    let mut client: UmbraClient<MemDS, InMemMsgStore, NewConvoCb, UpdateCb> =
        UmbraClient::create_with_ephemeral_identity(ds, InMemMsgStore {})
            .expect("client created");
    client.create_session("peer-1").expect("session created");
    client.poll().expect("poll never fails on bad messages");
}

#[test]
fn test_send_message_publishes_under_session_id() {
    let mut client = new_client();
    let session = client.create_session("peer-1").expect("session created").clone();
    client
        .send_message(&session, ChatMessage::new("yo".to_string()))
        .expect("send_message succeeds");
}

#[test]
fn test_callbacks_are_registered() {
    let mut client = new_client();
    fn on_convo(_s: ConversationSession) {}
    fn on_update(_s: String) {}
    client.on_new_conversation(on_convo);
    client.on_conversation_update(on_update);
}
