use std::cell::RefCell;
use std::collections::VecDeque;
use std::rc::Rc;

use umbra::client::DeliveryService;
use umbra::client::UmbraClient;
use umbra::content_types::ChatMessage;
use umbra::error::UmbraError;
use umbra::payload::ContentFrame;

/// One endpoint of an in-process broadcast bus: everything sent by anyone
/// lands in everyone's queue, in order.
struct BusEndpoint {
    queues: Rc<RefCell<Vec<VecDeque<Vec<u8>>>>>,
    me: usize,
}

impl DeliveryService for BusEndpoint {
    fn send(&mut self, message: Vec<u8>) -> Result<(), UmbraError> {
        for q in self.queues.borrow_mut().iter_mut() {
            q.push_back(message.clone());
        }
        Ok(())
    }

    fn recv(&mut self) -> Result<Option<Vec<u8>>, UmbraError> {
        Ok(self.queues.borrow_mut()[self.me].pop_front())
    }
}

fn bus() -> (BusEndpoint, BusEndpoint, Rc<RefCell<Vec<VecDeque<Vec<u8>>>>>) {
    let queues = Rc::new(RefCell::new(vec![VecDeque::new(), VecDeque::new()]));
    (
        BusEndpoint { queues: queues.clone(), me: 0 },
        BusEndpoint { queues: queues.clone(), me: 1 },
        queues,
    )
}

type Log = Rc<RefCell<Vec<(String, ContentFrame)>>>;

fn logging_handler(log: &Log) -> impl Fn(String, ContentFrame) {
    let log = log.clone();
    move |id: String, frame: ContentFrame| {
        log.borrow_mut().push((id, frame));
    }
}

fn drain<T: DeliveryService, F: Fn(String, ContentFrame)>(
    client: &mut UmbraClient<T, F>,
) -> Vec<UmbraError> {
    let mut errors = Vec::new();
    loop {
        match client.process_next() {
            Ok(true) => {}
            Ok(false) => break,
            Err(e) => errors.push(e),
        }
    }
    errors
}

#[test]
fn test_end_to_end_two_clients() {
    let (ep_a, ep_b, _queues) = bus();
    let mut amal = UmbraClient::new(ep_a, "amal".to_string());
    let mut bola = UmbraClient::new(ep_b, "bola".to_string());
    assert_eq!(amal.address(), "amal");

    let amal_log: Log = Rc::new(RefCell::new(Vec::new()));
    let bola_log: Log = Rc::new(RefCell::new(Vec::new()));
    amal.add_content_handler(logging_handler(&amal_log));
    bola.add_content_handler(logging_handler(&bola_log));

    let a2b = amal
        .create_private_conversation("bola".to_string())
        .expect("conversation created");
    assert_eq!(a2b.convo_id(), "/private/amal|bola");

    assert!(drain(&mut bola).is_empty());
    assert!(drain(&mut amal).is_empty());
    assert!(bola.get_conversation("/private/amal|bola".to_string()).is_some());

    let msg = ChatMessage::new("hi".to_string());
    amal.send_content(&a2b, 5, msg.encode()).expect("send succeeds");

    assert!(drain(&mut bola).is_empty());
    let log = bola_log.borrow();
    assert_eq!(log.len(), 1);
    assert_eq!(log[0].0, "/private/amal|bola");
    assert_eq!(log[0].1.tag, 5);
    let delivered = ChatMessage::decode(&log[0].1.bytes).expect("content decodes");
    assert_eq!(delivered.text, "hi");
}

#[test]
fn test_invite_delivered_twice_registers_once() {
    let (ep_a, ep_b, queues) = bus();
    let mut amal = UmbraClient::new(ep_a, "amal".to_string());
    let mut bola = UmbraClient::new(ep_b, "bola".to_string());
    amal.add_content_handler(|_: String, _: ContentFrame| {});
    bola.add_content_handler(|_: String, _: ContentFrame| {});

    amal.create_private_conversation("bola".to_string())
        .expect("conversation created");

    // Take the invite off bola's queue and deliver the same bytes twice.
    let invite_bytes = queues.borrow_mut()[1].pop_front().expect("invite on the bus");
    assert!(bola.recv(&invite_bytes).is_ok());
    assert!(bola.recv(&invite_bytes).is_ok());

    assert!(bola.get_conversation("/private/amal|bola".to_string()).is_some());

    // The registered conversation still works after the duplicate invite.
    let msg = ChatMessage::new("still there".to_string());
    let a2b = amal
        .get_conversation("/private/amal|bola".to_string())
        .expect("conversation registered");
    amal.send_content(&a2b, 5, msg.encode()).expect("send succeeds");
    assert!(drain(&mut bola).is_empty());
}

#[test]
fn test_corrupted_message_then_good_one() {
    let (ep_a, ep_b, queues) = bus();
    let mut amal = UmbraClient::new(ep_a, "amal".to_string());
    let mut bola = UmbraClient::new(ep_b, "bola".to_string());
    amal.add_content_handler(|_: String, _: ContentFrame| {});
    let bola_log: Log = Rc::new(RefCell::new(Vec::new()));
    bola.add_content_handler(logging_handler(&bola_log));

    let a2b = amal
        .create_private_conversation("bola".to_string())
        .expect("conversation created");
    assert!(drain(&mut bola).is_empty());

    // A corrupted payload, then a well-formed one.
    queues.borrow_mut()[1].push_back(vec![1, 2, 3]);
    let msg = ChatMessage::new("after the noise".to_string());
    amal.send_content(&a2b, 5, msg.encode()).expect("send succeeds");

    let errors = drain(&mut bola);
    assert_eq!(errors.len(), 1);
    assert!(matches!(errors[0], UmbraError::DecodingError(_)));

    let log = bola_log.borrow();
    assert_eq!(log.len(), 1);
    let delivered = ChatMessage::decode(&log[0].1.bytes).expect("content decodes");
    assert_eq!(delivered.text, "after the noise");
}

#[test]
fn test_unknown_payload_tag_is_skipped() {
    let (ep_a, _ep_b, _queues) = bus();
    let mut amal = UmbraClient::new(ep_a, "amal".to_string());
    amal.add_content_handler(|_: String, _: ContentFrame| {});

    let unknown = umbra::payload::TaggedPayload {
        protocol: 1,
        tag: 77,
        payload_bytes: vec![1, 2, 3],
    };
    assert!(amal.recv(&unknown.encode()).is_ok());

    let reserved = umbra::payload::TaggedPayload {
        protocol: 1,
        tag: umbra::payload::PAYLOAD_TAG_PUBLIC_FRAME,
        payload_bytes: vec![],
    };
    assert!(matches!(
        amal.recv(&reserved.encode()),
        Err(UmbraError::UnimplementedError)
    ));
}

#[test]
fn test_missing_conversation_is_skipped() {
    let (ep_a, ep_b, _queues) = bus();
    let mut amal = UmbraClient::new(ep_a, "amal".to_string());
    let mut bola = UmbraClient::new(ep_b, "bola".to_string());
    amal.add_content_handler(|_: String, _: ContentFrame| {});
    let bola_log: Log = Rc::new(RefCell::new(Vec::new()));
    bola.add_content_handler(logging_handler(&bola_log));

    // Amal sends on a conversation bola never learned about: no invite.
    let a2c = umbra::convo::Conversation::Private(umbra::convo::PrivateConversation::new(
        "/private/amal|cara".to_string(),
    ));
    amal.send_content(&a2c, 5, vec![1]).expect("send succeeds");

    assert!(drain(&mut bola).is_empty());
    assert!(bola_log.borrow().is_empty());
}
