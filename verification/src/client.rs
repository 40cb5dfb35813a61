//! The client orchestrator.
//!
//! A client owns its address, a transport handle, the conversation
//! registry, and an append-only list of content handlers. Outbound, it
//! creates private conversations and sends invites; inbound, `recv`
//! processes one transport message through every decoding layer and
//! dispatches decoded content to the handlers. A malformed message is
//! confined to itself: it yields an error for the caller to log, and the
//! registry is left exactly as it was.

use vstd::prelude::*;
use crate::codec::dec_envelope_msg;
use crate::codec::dec_frame_msg;
use crate::codec::dec_reliable_bytes_msg;
use crate::codec::dec_tagged_payload_msg;
use crate::codec::enc_envelope;
use crate::codec::enc_frame;
use crate::codec::enc_reliable_bytes;
use crate::codec::enc_tagged_payload;
use crate::codec::lemma_envelope_round_trip;
use crate::codec::lemma_frame_round_trip;
use crate::codec::lemma_reliable_bytes_round_trip;
use crate::codec::lemma_tagged_payload_round_trip;
use crate::convo::spec_content_send_frame;
use crate::convo::spec_inbox_recv;
use crate::convo::spec_private_encrypt;
use crate::convo::spec_private_recv;
use crate::convo::spec_private_send_bytes_with_id;
use crate::convo::spec_reliable_wrap_with_id;
use crate::convo::Conversation;
use crate::crypto::lemma_reverse_involutive;
use crate::wire::enc_str;
use crate::wire::enc_str_list_items;
use crate::wire::str_wf;
use vstd::utf8::encode_utf8;
use crate::error::UmbraError;
use crate::payload::ContentFrame;
use crate::payload::ContentFrameV;
use crate::payload::ConversationInvite;
use crate::payload::ConversationInviteV;
use crate::payload::Encryption;
use crate::payload::EncryptedBytes;
use crate::payload::EncryptedBytesV;
use crate::payload::Envelope;
use crate::payload::EnvelopeV;
use crate::payload::Frame;
use crate::payload::FrameType;
use crate::payload::FrameTypeV;
use crate::payload::FrameV;
use crate::payload::TaggedPayload;
use crate::payload::TaggedPayloadV;
use crate::payload::ToFrame;
use crate::payload::ToPayload;
use crate::payload::PAYLOAD_TAG_ENVELOPE;
use crate::payload::PAYLOAD_TAG_PUBLIC_FRAME;
use crate::payload::PROTOCOL_UMBRA_V1;
use crate::registry::spec_register;
use crate::registry::UmbraState;
use crate::topics::lemma_sort_idempotent;
use crate::topics::lemma_sort_pair;
use crate::topics::lemma_topics_disjoint;
use crate::topics::sorted_participants;
use crate::topics::spec_inbox_topic;
use crate::topics::spec_private_topic;
use crate::topics::str_leq_fn;
use crate::topics::topic_inbox_convo;

verus! {

/// An identity's address.
pub type Addr = String;

/// Raw transport bytes.
pub type Blob = Vec<u8>;

/// The transport contract, implemented by the host application. Nothing is
/// assumed of it: it may lose, duplicate, and reorder messages, and both
/// operations may fail.
pub trait DeliveryService {
    /// Hand one message to the transport.
    fn send(&mut self, message: Blob) -> Result<(), UmbraError>;

    /// Ask the transport for one message, if one is available now.
    fn recv(&mut self) -> Result<Option<Blob>, UmbraError>;
}

// ------------------------------------------------------------------
// What processing one inbound message does, at the specification level
// ------------------------------------------------------------------

/// The exhaustive outcomes of processing one inbound transport message.
pub enum RecvOutcome {
    /// Some decoding layer failed: the message is abandoned, nothing else.
    Malformed,
    /// The reserved public-frame tag: not built yet.
    Unimplemented,
    /// An unknown payload tag: skipped without error.
    UnknownTag,
    /// An invite was decoded; the conversation over these participants is
    /// registered, unless it already was.
    InviteRegistered(Seq<Seq<char>>),
    /// A content frame arrived on the inbox: dropped, never propagated.
    InviteContentDropped,
    /// No conversation is registered under the envelope's hint: skipped.
    NoConversation,
    /// A content frame was decoded on this conversation and handed to
    /// every registered handler.
    Delivered(Seq<char>, ContentFrameV),
    /// An invite frame arrived on a private conversation: no action.
    PrivateInviteIgnored,
}

/// The outcome of the invite path, given the envelope's encrypted bytes.
pub open spec fn spec_invite_outcome(enc: EncryptedBytesV) -> RecvOutcome {
    match spec_inbox_recv(enc) {
        Some(f) => match f.frame_type {
            FrameTypeV::ConversationInvite(inv) => RecvOutcome::InviteRegistered(inv.participants),
            FrameTypeV::Content(_) => RecvOutcome::InviteContentDropped,
        },
        None => RecvOutcome::Malformed,
    }
}

/// The outcome of routing one decoded envelope.
pub open spec fn spec_envelope_outcome(
    state: UmbraState,
    inbox_topic: Seq<char>,
    env: EnvelopeV,
) -> RecvOutcome {
    if env.conversation_hint == inbox_topic {
        spec_invite_outcome(env.encrypted_bytes)
    } else {
        match state.spec_get(env.conversation_hint) {
            None => RecvOutcome::NoConversation,
            Some(_) => match spec_private_recv(env.encrypted_bytes) {
                Some(f) => match f.frame_type {
                    FrameTypeV::Content(cf) => RecvOutcome::Delivered(env.conversation_hint, cf),
                    FrameTypeV::ConversationInvite(_) => RecvOutcome::PrivateInviteIgnored,
                },
                None => RecvOutcome::Malformed,
            },
        }
    }
}

/// The outcome of processing one raw inbound transport message.
pub open spec fn spec_recv_outcome(
    state: UmbraState,
    inbox_topic: Seq<char>,
    s: Seq<u8>,
) -> RecvOutcome {
    match dec_tagged_payload_msg(s) {
        None => RecvOutcome::Malformed,
        Some(tp) => {
            if tp.tag == PAYLOAD_TAG_ENVELOPE {
                match dec_envelope_msg(tp.payload_bytes) {
                    None => RecvOutcome::Malformed,
                    Some(env) => spec_envelope_outcome(state, inbox_topic, env),
                }
            } else if tp.tag == PAYLOAD_TAG_PUBLIC_FRAME {
                RecvOutcome::Unimplemented
            } else {
                RecvOutcome::UnknownTag
            }
        },
    }
}

/// The exact wire bytes of the invite that `sender` addresses to
/// `recipient`'s inbox.
pub open spec fn spec_invite_bytes(sender: Seq<char>, recipient: Seq<char>) -> Seq<u8> {
    let invite = ConversationInviteV {
        participants: seq![sender, recipient].sort_by(str_leq_fn()),
    };
    let frame = FrameV {
        reliability_info: None,
        frame_type: FrameTypeV::ConversationInvite(invite),
    };
    let envelope = EnvelopeV {
        encrypted_bytes: EncryptedBytesV { encryption: Some(
            crate::payload::EncryptionV::Plaintext(enc_frame(frame)),
        ) },
        conversation_hint: spec_inbox_topic(recipient),
        salt: 0,
    };
    enc_tagged_payload(
        TaggedPayloadV {
            protocol: PROTOCOL_UMBRA_V1,
            tag: PAYLOAD_TAG_ENVELOPE,
            payload_bytes: enc_envelope(envelope),
        },
    )
}

/// Law: the wire bytes of one content send on a registered private
/// conversation are decoded by the peer's receive pipeline and delivered
/// exactly as sent — whatever message identifier the reliability wrapper
/// carries. The length bound only asks that every layer's length prefix
/// fit its `u64` field.
pub proof fn lemma_private_send_is_delivered(
    state: UmbraState,
    inbox_topic: Seq<char>,
    message_id: Seq<char>,
    convo_id: Seq<char>,
    tag: u32,
    message: Seq<u8>,
)
    requires
        state.spec_get(convo_id) is Some,
        convo_id != inbox_topic,
        str_wf(message_id),
        str_wf(convo_id),
        encode_utf8(message_id).len() + 2 * encode_utf8(convo_id).len() + message.len() + 91
            <= u64::MAX,
    ensures
        spec_recv_outcome(
            state,
            inbox_topic,
            spec_private_send_bytes_with_id(message_id, convo_id, tag, message),
        ) == RecvOutcome::Delivered(convo_id, ContentFrameV { domain: 0, tag, bytes: message }),
{
    vstd::bytes::lemma_auto_spec_u32_to_from_le_bytes();
    vstd::bytes::lemma_auto_spec_u64_to_from_le_bytes();
    let frame = spec_content_send_frame(tag, message);
    assert(frame.wf());
    let ef = enc_frame(frame);
    assert(ef.len() == message.len() + 18);
    let rb = spec_reliable_wrap_with_id(message_id, convo_id, ef);
    assert(enc_str_list_items(rb.causal_history) =~= Seq::<u8>::empty());
    assert(rb.wf());
    let erb = enc_reliable_bytes(rb);
    assert(erb.len() == encode_utf8(message_id).len() + encode_utf8(convo_id).len()
        + message.len() + 66);
    let encrypted = spec_private_encrypt(erb);
    assert(erb.reverse().len() == erb.len());
    assert(encrypted.wf());
    let env = EnvelopeV { encrypted_bytes: encrypted, conversation_hint: convo_id, salt: 0 };
    assert(env.wf());
    let pb = enc_envelope(env);
    assert(pb.len() == erb.len() + encode_utf8(convo_id).len() + 25);
    let tp = TaggedPayloadV {
        protocol: PROTOCOL_UMBRA_V1,
        tag: PAYLOAD_TAG_ENVELOPE,
        payload_bytes: pb,
    };
    assert(tp.wf());
    let s = spec_private_send_bytes_with_id(message_id, convo_id, tag, message);
    assert(s == enc_tagged_payload(tp));
    lemma_tagged_payload_round_trip(tp);
    assert(dec_tagged_payload_msg(s) == Some(tp));
    lemma_envelope_round_trip(env);
    assert(dec_envelope_msg(pb) == Some(env));
    lemma_reverse_involutive(erb);
    lemma_reliable_bytes_round_trip(rb);
    assert(dec_reliable_bytes_msg(erb) == Some(rb));
    lemma_frame_round_trip(frame);
    assert(dec_frame_msg(rb.content) == Some(frame));
    assert(spec_private_recv(encrypted) == Some(frame));
}

/// Law: the invite a sender addresses to a recipient's inbox is decoded by
/// the recipient's receive pipeline and registers the conversation over
/// the sorted participant pair — and the identifier registered from those
/// sorted participants is exactly the one the sender registered locally.
/// The length bound only asks that every layer's length prefix fit its
/// `u64` field.
pub proof fn lemma_invite_is_registered(state: UmbraState, sender: Seq<char>, recipient: Seq<char>)
    requires
        str_wf(sender),
        str_wf(recipient),
        encode_utf8(sender).len() + 3 * encode_utf8(recipient).len() + 100 <= u64::MAX,
    ensures
        spec_recv_outcome(
            state,
            spec_inbox_topic(recipient),
            spec_invite_bytes(sender, recipient),
        ) == RecvOutcome::InviteRegistered(seq![sender, recipient].sort_by(str_leq_fn())),
        spec_private_topic(seq![sender, recipient].sort_by(str_leq_fn())) == spec_private_topic(
            seq![sender, recipient],
        ),
{
    vstd::bytes::lemma_auto_spec_u32_to_from_le_bytes();
    vstd::bytes::lemma_auto_spec_u64_to_from_le_bytes();
    broadcast use vstd::utf8::is_ascii_chars_encode_utf8;

    lemma_sort_pair(sender, recipient);
    lemma_sort_idempotent(seq![sender, recipient]);
    let sorted = seq![sender, recipient].sort_by(str_leq_fn());
    let invite = ConversationInviteV { participants: sorted };
    assert(invite.wf());
    let frame = FrameV {
        reliability_info: None,
        frame_type: FrameTypeV::ConversationInvite(invite),
    };
    assert(frame.wf());
    let ef = enc_frame(frame);
    assert(enc_str_list_items(sorted) == enc_str_list_items(seq![sorted[0]])
        + enc_str_list_items(seq![sorted[1]])) by {
        assert(sorted =~= seq![sorted[0]] + seq![sorted[1]]);
        crate::wire::lemma_enc_str_list_items_app(seq![sorted[0]], seq![sorted[1]]);
    }
    assert(enc_str_list_items(seq![sorted[0]]).len() == 8 + encode_utf8(sorted[0]).len()) by {
        assert(seq![sorted[0]].drop_first() =~= Seq::<Seq<char>>::empty());
        assert(enc_str_list_items(Seq::<Seq<char>>::empty()) =~= Seq::<u8>::empty());
        assert(enc_str_list_items(seq![sorted[0]]) =~= enc_str(sorted[0]));
    }
    assert(enc_str_list_items(seq![sorted[1]]).len() == 8 + encode_utf8(sorted[1]).len()) by {
        assert(seq![sorted[1]].drop_first() =~= Seq::<Seq<char>>::empty());
        assert(enc_str_list_items(Seq::<Seq<char>>::empty()) =~= Seq::<u8>::empty());
        assert(enc_str_list_items(seq![sorted[1]]) =~= enc_str(sorted[1]));
    }
    assert(ef.len() == encode_utf8(sender).len() + encode_utf8(recipient).len() + 26);
    let hint = spec_inbox_topic(recipient);
    assert(encode_utf8(hint).len() == 7 + encode_utf8(recipient).len()) by {
        crate::wire::lemma_encode_utf8_app("/inbox/"@, recipient);
        reveal_strlit("/inbox/");
        assert(vstd::utf8::is_ascii_chars("/inbox/"@));
    }
    let env = EnvelopeV {
        encrypted_bytes: EncryptedBytesV {
            encryption: Some(crate::payload::EncryptionV::Plaintext(ef)),
        },
        conversation_hint: hint,
        salt: 0,
    };
    assert(env.wf());
    let pb = enc_envelope(env);
    assert(pb.len() == encode_utf8(sender).len() + 2 * encode_utf8(recipient).len() + 58);
    let tp = TaggedPayloadV {
        protocol: PROTOCOL_UMBRA_V1,
        tag: PAYLOAD_TAG_ENVELOPE,
        payload_bytes: pb,
    };
    assert(tp.wf());
    let s = spec_invite_bytes(sender, recipient);
    assert(s == enc_tagged_payload(tp));
    lemma_tagged_payload_round_trip(tp);
    lemma_envelope_round_trip(env);
    lemma_frame_round_trip(frame);
    assert(spec_inbox_recv(env.encrypted_bytes) == Some(frame));
}

// ------------------------------------------------------------------
// The client
// ------------------------------------------------------------------

/// The client orchestrator, generic over the transport and the handler
/// type registered for decoded content frames.
pub struct UmbraClient<T: DeliveryService, F: Fn(String, ContentFrame)> {
    addr: Addr,
    inbox_topic: String,
    ds: T,
    state: UmbraState,
    on_content_handlers: Vec<F>,
}

impl<T: DeliveryService, F: Fn(String, ContentFrame)> UmbraClient<T, F> {
    /// The client's own address.
    pub closed spec fn spec_addr(&self) -> Seq<char> {
        self.addr@
    }

    /// The client's own inbox topic.
    pub closed spec fn spec_inbox(&self) -> Seq<char> {
        self.inbox_topic@
    }

    /// The registered conversation identifiers.
    pub closed spec fn spec_ids(&self) -> Seq<Seq<char>> {
        self.state.spec_ids()
    }

    /// The conversation registered under an identifier.
    pub closed spec fn spec_get(&self, id: Seq<char>) -> Option<Conversation> {
        self.state.spec_get(id)
    }

    /// The registered content handlers.
    pub closed spec fn spec_handlers(&self) -> Seq<F> {
        self.on_content_handlers@
    }

    /// The registry of this client, for stating outcomes.
    pub closed spec fn spec_state(&self) -> UmbraState {
        self.state
    }

    /// The client's invariant: the registry is well formed, the inbox
    /// topic is the one derived from the address, every registered handler
    /// accepts any arguments, and the only inbox conversation that can be
    /// registered is the client's own.
    pub closed spec fn wf(&self) -> bool {
        &&& self.state.wf()
        &&& self.inbox_topic@ == spec_inbox_topic(self.addr@)
        &&& forall|i: int, args: (String, ContentFrame)|
            0 <= i < self.on_content_handlers@.len() ==> #[trigger] call_requires(
                self.on_content_handlers@[i],
                args,
            )
        &&& forall|id: Seq<char>|
            (#[trigger] self.state.spec_get(id)) matches Some(c) && c.is_inbox() ==> id
                == self.inbox_topic@
    }

    /// Build a client over a transport handle, with the self inbox
    /// conversation registered from the start.
    pub fn new(ds: T, addr: Addr) -> (r: Self)
        ensures
            r.wf(),
            r.spec_addr() == addr@,
            r.spec_inbox() == spec_inbox_topic(addr@),
            r.spec_ids() == Seq::<Seq<char>>::empty().push(spec_inbox_topic(addr@)),
            r.spec_handlers() == Seq::<F>::empty(),
    {
        let inbox_topic = topic_inbox_convo(addr.as_str());
        let mut state = UmbraState::new();
        state.ensure_inbox(inbox_topic.clone());
        let r = UmbraClient {
            addr,
            inbox_topic,
            ds,
            state,
            on_content_handlers: Vec::new(),
        };
        proof {
            assert(!Seq::<Seq<char>>::empty().contains(r.inbox_topic@));
            assert forall|id: Seq<char>|
                (#[trigger] r.state.spec_get(id)) matches Some(c) && c.is_inbox() implies id
                == r.inbox_topic@ by {
                r.state.lemma_get_has(id);
                if id != r.inbox_topic@ {
                    assert(r.state.spec_has(id));
                    assert(Seq::<Seq<char>>::empty().push(r.inbox_topic@).contains(id));
                    let k = choose|k: int|
                        0 <= k < r.state.spec_ids().len() && r.state.spec_ids()[k] == id;
                    assert(k == 0);
                }
            }
            assert(r.spec_handlers() =~= Seq::<F>::empty());
        }
        r
    }

    /// Register one more content handler. Handlers are invoked, in
    /// registration order, for every decoded content frame.
    pub fn add_content_handler(&mut self, handler: F)
        requires
            old(self).wf(),
            forall|args: (String, ContentFrame)| #[trigger] call_requires(handler, args),
        ensures
            final(self).wf(),
            final(self).spec_handlers() == old(self).spec_handlers().push(handler),
            final(self).spec_addr() == old(self).spec_addr(),
            final(self).spec_inbox() == old(self).spec_inbox(),
            final(self).spec_ids() == old(self).spec_ids(),
            final(self).spec_state() == old(self).spec_state(),
    {
        self.on_content_handlers.push(handler);
    }

    /// The client's address.
    pub fn address(&self) -> (r: Addr)
        ensures
            r@ == self.spec_addr(),
    {
        self.addr.clone()
    }

    /// Look up a conversation by its identifier.
    pub fn get_conversation(&self, addr: Addr) -> (r: Option<Conversation>)
        ensures
            match self.spec_get(addr@) {
                Some(c) => (r matches Some(x) && x.spec_convo_id() == c.spec_convo_id()
                    && x.is_inbox() == c.is_inbox()),
                None => r is None,
            },
            r matches Some(x) ==> x.spec_convo_id() == addr@,
    {
        self.state.get_conversation(addr)
    }

    /// Create the private conversation with a peer: register it locally
    /// under the deterministic identifier, then send the peer an invite.
    /// The registration stands even when the transport refuses the invite;
    /// a transport failure is reported to the caller, who may retry.
    pub fn create_private_conversation(&mut self, addr: Addr) -> (r: Result<
        Conversation,
        UmbraError,
    >)
        requires
            old(self).wf(),
        ensures
            final(self).wf(),
            final(self).spec_addr() == old(self).spec_addr(),
            final(self).spec_inbox() == old(self).spec_inbox(),
            final(self).spec_handlers() == old(self).spec_handlers(),
            final(self).spec_ids() == spec_register(
                old(self).spec_ids(),
                spec_private_topic(seq![old(self).spec_addr(), addr@]),
            ),
            r matches Ok(c) ==> c.spec_convo_id() == spec_private_topic(
                seq![old(self).spec_addr(), addr@],
            ) && !c.is_inbox(),
    {
        let mut addrs: Vec<String> = Vec::new();
        addrs.push(self.address());
        addrs.push(addr.clone());
        proof {
            assert(addrs.deep_view() =~= seq![old(self).spec_addr(), addr@]);
        }
        let ghost id = spec_private_topic(addrs.deep_view());
        let convo = match self.state.create_conversation(addrs) {
            Some(c) => c,
            None => {
                return Err(UmbraError::UnexpectedError);
            },
        };
        proof {
            lemma_topics_disjoint(seq![old(self).spec_addr(), addr@], Seq::<char>::empty());
            self.state.lemma_get_has(id);
            if convo.is_inbox() {
                assert(id == self.inbox_topic@);
                lemma_topics_disjoint(seq![old(self).spec_addr(), addr@], old(self).spec_addr());
            }
            assert forall|other: Seq<char>|
                (#[trigger] self.state.spec_get(other)) matches Some(c) && c.is_inbox() implies
                other == self.inbox_topic@ by {
                if other != id {
                    assert(self.state.spec_get(other) == old(self).state.spec_get(other));
                } else {
                    self.state.lemma_get_has(id);
                    if !old(self).state.spec_has(id) {
                        assert(!self.state.spec_get(id).unwrap().is_inbox());
                    } else {
                        assert(self.state.spec_get(id) == old(self).state.spec_get(id));
                    }
                }
            }
        }
        match self.send_invite(addr) {
            Ok(()) => Ok(convo),
            Err(e) => Err(e),
        }
    }

    /// Build the exact invite wire bytes addressed to a recipient's inbox.
    fn build_invite(&self, recipient: &Addr) -> (r: Vec<u8>)
        ensures
            r@ == spec_invite_bytes(self.spec_addr(), recipient@),
    {
        let mut pair: Vec<String> = Vec::new();
        pair.push(self.addr.clone());
        pair.push(recipient.clone());
        proof {
            assert(pair.deep_view() =~= seq![self.spec_addr(), recipient@]);
        }
        let participants = sorted_participants(pair);
        let invite = ConversationInvite::new(participants);
        let frame = invite.to_frame(None);
        let plain = frame.encode();
        let encrypted_bytes = EncryptedBytes { encryption: Some(Encryption::Plaintext(plain)) };
        let envelope = Envelope {
            encrypted_bytes,
            conversation_hint: topic_inbox_convo(recipient.as_str()),
            salt: 0,
        };
        let payload = envelope.to_payload();
        payload.encode()
    }

    /// Send an invite for the pair (self, recipient) to the recipient's
    /// inbox, in plaintext: no shared session key exists yet. The result
    /// is the transport's to decide; the client's own state is untouched.
    fn send_invite(&mut self, recipient: Addr) -> (r: Result<(), UmbraError>)
        requires
            old(self).wf(),
        ensures
            final(self).wf(),
            final(self).spec_addr() == old(self).spec_addr(),
            final(self).spec_inbox() == old(self).spec_inbox(),
            final(self).spec_handlers() == old(self).spec_handlers(),
            final(self).spec_ids() == old(self).spec_ids(),
            final(self).spec_state() == old(self).spec_state(),
    {
        let bytes = self.build_invite(&recipient);
        self.ds.send(bytes)
    }

    /// Hand a decoded content frame to every registered handler, in
    /// registration order.
    fn dispatch_content(&self, convo_id: &String, frame: &ContentFrame)
        requires
            self.wf(),
    {
        let mut i: usize = 0;
        while i < self.on_content_handlers.len()
            invariant
                self.wf(),
                i <= self.on_content_handlers@.len(),
            decreases self.on_content_handlers@.len() - i,
        {
            let f = &self.on_content_handlers[i];
            f(convo_id.clone(), frame.clone());
            i = i + 1;
        }
    }

    /// Apply one decoded invite: register the conversation over its
    /// participants, if and only if it is not registered yet. A content
    /// frame on the inbox is a protocol violation: dropped, not an error.
    fn handle_invite(&mut self, encrypted_invite: EncryptedBytes) -> (r: Result<(), UmbraError>)
        requires
            old(self).wf(),
        ensures
            final(self).wf(),
            final(self).spec_addr() == old(self).spec_addr(),
            final(self).spec_inbox() == old(self).spec_inbox(),
            final(self).spec_handlers() == old(self).spec_handlers(),
            match spec_invite_outcome(encrypted_invite@) {
                RecvOutcome::InviteRegistered(ps) => r is Ok && final(self).spec_ids()
                    == spec_register(old(self).spec_ids(), spec_private_topic(ps)),
                RecvOutcome::InviteContentDropped => r is Ok && final(self).spec_ids() == old(self).spec_ids(),
                _ => (r matches Err(UmbraError::DecodingError(_)) && final(self).spec_ids()
                    == old(self).spec_ids()),
            },
    {
        let plain = match crate::convo::InboxConversation::decrypt(encrypted_invite) {
            Ok(b) => b,
            Err(e) => {
                return Err(e);
            },
        };
        let frame = match Frame::decode(plain.as_slice()) {
            Ok(f) => f,
            Err(e) => {
                return Err(e);
            },
        };
        match frame.frame_type {
            FrameType::ConversationInvite(invite) => {
                let ghost ps = invite@.participants;
                let ghost id = spec_private_topic(ps);
                match self.state.create_conversation(invite.participants) {
                    Some(_) => {},
                    None => {
                        return Err(
                            UmbraError::DecodingError(String::from_str("invite not registrable")),
                        );
                    },
                }
                proof {
                    lemma_topics_disjoint(ps, old(self).spec_addr());
                    assert forall|other: Seq<char>|
                        (#[trigger] self.state.spec_get(other)) matches Some(c)
                            && c.is_inbox() implies other == self.inbox_topic@ by {
                        if other != id {
                            assert(self.state.spec_get(other) == old(self).state.spec_get(other));
                        } else {
                            self.state.lemma_get_has(id);
                            if !old(self).state.spec_has(id) {
                                assert(!self.state.spec_get(id).unwrap().is_inbox());
                            } else {
                                assert(self.state.spec_get(id) == old(self).state.spec_get(id));
                            }
                        }
                    }
                }
                Ok(())
            },
            FrameType::Content(_) => Ok(()),
        }
    }

    /// Route one decoded envelope: the client's own inbox hint means an
    /// invite; any other hint is looked up in the registry, a missing
    /// conversation is skipped, and a decoded content frame is handed to
    /// every registered handler with its conversation identifier.
    fn handle_envelope(&mut self, envelope: Envelope) -> (r: Result<(), UmbraError>)
        requires
            old(self).wf(),
        ensures
            final(self).wf(),
            final(self).spec_addr() == old(self).spec_addr(),
            final(self).spec_inbox() == old(self).spec_inbox(),
            final(self).spec_handlers() == old(self).spec_handlers(),
            match spec_envelope_outcome(old(self).spec_state(), old(self).spec_inbox(), envelope@) {
                RecvOutcome::InviteRegistered(ps) => r is Ok && final(self).spec_ids()
                    == spec_register(old(self).spec_ids(), spec_private_topic(ps)),
                RecvOutcome::Malformed => (r matches Err(UmbraError::DecodingError(_)) && final(self).spec_ids() == old(self).spec_ids()),
                _ => r is Ok && final(self).spec_ids() == old(self).spec_ids(),
            },
    {
        if self.inbox_topic == envelope.conversation_hint {
            return self.handle_invite(envelope.encrypted_bytes);
        }
        let convo = match self.state.get_conversation(envelope.conversation_hint.clone()) {
            Some(c) => c,
            None => {
                return Ok(());
            },
        };
        proof {
            self.state.lemma_get_has(envelope.conversation_hint@);
            assert(!convo.is_inbox());
        }
        match convo.recv(envelope.encrypted_bytes) {
            Err(e) => Err(e),
            Ok(None) => Ok(()),
            Ok(Some(frame)) => {
                match frame.frame_type {
                    FrameType::ConversationInvite(_) => Ok(()),
                    FrameType::Content(content_frame) => {
                        let convo_id = convo.convo_id();
                        self.dispatch_content(&convo_id, &content_frame);
                        Ok(())
                    },
                }
            },
        }
    }

    /// Send one content item on a conversation: build the exact wire bytes
    /// and dispatch them via the delivery service. The bytes are returned
    /// to the caller as well. Sending on the inbox is caller misuse and
    /// fails before anything reaches the transport; a transport failure is
    /// reported to the caller, who may retry.
    pub fn send_content(&mut self, convo: &Conversation, tag: u32, message: Vec<u8>) -> (r: Result<
        Vec<u8>,
        UmbraError,
    >)
        requires
            old(self).wf(),
        ensures
            final(self).wf(),
            final(self).spec_addr() == old(self).spec_addr(),
            final(self).spec_inbox() == old(self).spec_inbox(),
            final(self).spec_handlers() == old(self).spec_handlers(),
            final(self).spec_ids() == old(self).spec_ids(),
            final(self).spec_state() == old(self).spec_state(),
            convo.is_inbox() ==> r matches Err(UmbraError::UnexpectedError),
            r matches Ok(b) ==> !convo.is_inbox() && b@ == crate::convo::spec_private_send_bytes(
                convo.spec_convo_id(),
                tag,
                message@,
            ),
    {
        let wire = match convo.send(tag, message) {
            Ok(b) => b,
            Err(e) => {
                return Err(e);
            },
        };
        let copy = vstd::slice::slice_to_vec(wire.as_slice());
        match self.ds.send(copy) {
            Ok(()) => Ok(wire),
            Err(e) => Err(e),
        }
    }

    /// Run one iteration of the receive loop: ask the transport for a
    /// message and, if one is there, process it. The result says whether a
    /// message was there; a failure — the transport's or a decoding layer's
    /// — is handed back for the loop to log, and never stops anything.
    pub fn process_next(&mut self) -> (r: Result<bool, UmbraError>)
        requires
            old(self).wf(),
        ensures
            final(self).wf(),
            final(self).spec_addr() == old(self).spec_addr(),
            final(self).spec_inbox() == old(self).spec_inbox(),
            final(self).spec_handlers() == old(self).spec_handlers(),
    {
        let incoming = match self.ds.recv() {
            Ok(m) => m,
            Err(e) => {
                return Err(e);
            },
        };
        match incoming {
            None => Ok(false),
            Some(bytes) => {
                match self.recv(bytes.as_slice()) {
                    Ok(()) => Ok(true),
                    Err(e) => Err(e),
                }
            },
        }
    }

    /// Process one raw inbound transport message through every layer:
    /// tagged payload, dispatch by tag, envelope, invite or conversation.
    ///
    /// A decoding failure at any layer, and the reserved public-frame tag,
    /// are reported as errors for the receive loop to log; neither touches
    /// the registry, so one bad message never affects the next. An unknown
    /// tag and a missing conversation are silent skips.
    pub fn recv(&mut self, bytes: &[u8]) -> (r: Result<(), UmbraError>)
        requires
            old(self).wf(),
        ensures
            final(self).wf(),
            final(self).spec_addr() == old(self).spec_addr(),
            final(self).spec_inbox() == old(self).spec_inbox(),
            final(self).spec_handlers() == old(self).spec_handlers(),
            match spec_recv_outcome(old(self).spec_state(), old(self).spec_inbox(), bytes@) {
                RecvOutcome::InviteRegistered(ps) => r is Ok && final(self).spec_ids()
                    == spec_register(old(self).spec_ids(), spec_private_topic(ps)),
                RecvOutcome::Malformed => (r matches Err(UmbraError::DecodingError(_)) && final(self).spec_ids() == old(self).spec_ids()),
                RecvOutcome::Unimplemented => (r matches Err(UmbraError::UnimplementedError)
                    && final(self).spec_ids() == old(self).spec_ids()),
                _ => r is Ok && final(self).spec_ids() == old(self).spec_ids(),
            },
    {
        let payload = match TaggedPayload::decode(bytes) {
            Ok(p) => p,
            Err(e) => {
                return Err(e);
            },
        };
        if payload.tag == PAYLOAD_TAG_ENVELOPE {
            let envelope = match Envelope::decode(payload.payload_bytes.as_slice()) {
                Ok(env) => env,
                Err(e) => {
                    return Err(e);
                },
            };
            self.handle_envelope(envelope)
        } else if payload.tag == PAYLOAD_TAG_PUBLIC_FRAME {
            Err(UmbraError::UnimplementedError)
        } else {
            Ok(())
        }
    }
}

} // verus!
