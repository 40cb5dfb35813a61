//! The lightweight session API.
//!
//! A thinner companion to the orchestrator in `client`: one ephemeral
//! identity, direct sessions keyed by the peer's address, and frame-level
//! encryption — the encrypted bytes travel as the tagged payload itself,
//! with no envelope around them. The transport here is the publish/poll
//! pair, again implemented by the host application.

use vstd::prelude::*;
use crate::codec::dec_encrypted_bytes_msg;
use crate::codec::dec_frame_msg;
use crate::codec::dec_tagged_payload_msg;
use crate::codec::enc_encrypted_bytes;
use crate::codec::enc_frame;
use crate::codec::enc_tagged_payload;
use crate::content_types::enc_chat_message;
use crate::content_types::ChatMessage;
use crate::content_types::CONTENT_TAG_CHAT_MESSAGE;
use crate::crypto::decrypt_reverse;
use crate::crypto::encrypt_reverse;
use crate::crypto::hash_string;
use crate::crypto::sha3_256_hex;
use crate::error::UmbraError;
use crate::payload::ContentFrameV;
use crate::payload::Encryption;
use crate::payload::EncryptedBytes;
use crate::payload::EncryptedBytesV;
use crate::payload::EncryptionV;
use crate::payload::Frame;
use crate::payload::FrameTypeV;
use crate::payload::FrameV;
use crate::payload::TaggedPayload;
use crate::payload::TaggedPayloadV;
use crate::payload::ToFrame;
use crate::payload::ToPayload;
use crate::payload::PAYLOAD_TAG_ENVELOPE;
use crate::payload::PROTOCOL_UMBRA_V1;
use crate::topics::spec_join_pipe;
use crate::utils::generate_random_string;
use vstd::utf8::decode_utf8;
use vstd::utf8::encode_utf8;

verus! {

/// A client identifier.
pub type ClientId = String;

/// A transport topic.
pub type ContentTopic = String;

/// Publishing half of the transport, implemented by the host application.
pub trait Publish {
    /// Hand one payload to the transport under a topic.
    fn publish(&mut self, topic: ContentTopic, value: TaggedPayload);
}

/// Polling half of the transport, implemented by the host application.
pub trait Poll {
    /// Fetch the messages waiting for a client under a topic.
    fn poll(&mut self, client_id: &str, topic: &str) -> Vec<Vec<u8>>;
}

/// A full delivery service: both halves.
pub trait DS: Publish + Poll {

}

/// Queries over stored messages; not built yet.
pub trait Query {

}

/// Message storage; not built yet.
pub trait Store {

}

/// An in-memory message store stub.
pub struct InMemMsgStore {}

impl Query for InMemMsgStore {

}

impl Store for InMemMsgStore {

}

// ------------------------------------------------------------------
// Identities
// ------------------------------------------------------------------

/// An identity; its address is the identifier peers route by.
pub struct Identity {
    id: String,
}

impl Identity {
    /// The identity's address.
    pub closed spec fn spec_address(&self) -> Seq<char> {
        self.id@
    }

    /// A fresh identity under a random 16-character alphanumeric address.
    pub fn new_ephemeral() -> (r: Self)
        ensures
            r.spec_address().len() == 16,
    {
        Identity { id: generate_random_string(16) }
    }

    /// An identity under the given address.
    fn named(addr: String) -> (r: Self)
        ensures
            r.spec_address() == addr@,
    {
        Identity { id: addr }
    }

    pub fn address(&self) -> (r: &str)
        ensures
            r@ == self.spec_address(),
    {
        self.id.as_str()
    }
}

impl Clone for Identity {
    fn clone(&self) -> (r: Self)
        ensures
            r == *self,
    {
        Identity { id: self.id.clone() }
    }
}

// ------------------------------------------------------------------
// Topics and identifiers of this layer
// ------------------------------------------------------------------

/// The session layer's inbox topic of an address.
pub open spec fn spec_session_inbox(addr: Seq<char>) -> Seq<char> {
    "inbox/"@ + addr
}

fn topic_inbox(participant: &str) -> (r: String)
    ensures
        r@ == spec_session_inbox(participant@),
{
    let mut topic = String::from_str("inbox/");
    topic.append(participant);
    topic
}

/// Derive a deterministic conversation identifier: the participants joined
/// with `|`, hashed.
pub fn gen_conversation_id(participants: &[String]) -> (r: String)
    ensures
        r@ == sha3_256_hex(encode_utf8(spec_join_pipe(participants.deep_view()))),
{
    let ghost dv = participants.deep_view();
    let mut joined = String::new();
    let mut i: usize = 0;
    while i < participants.len()
        invariant
            i <= participants@.len(),
            dv == participants.deep_view(),
            dv.len() == participants@.len(),
            forall|k: int| 0 <= k < participants@.len() ==> dv[k] == participants@[k]@,
            i == 0 ==> joined@ == Seq::<char>::empty(),
            i > 0 ==> joined@ == spec_join_pipe(dv.take(i as int)),
        decreases participants@.len() - i,
    {
        if i > 0 {
            joined.append("|");
            proof {
                reveal_strlit("|");
                assert("|"@ =~= seq!['|']);
            }
        }
        let p = vstd::slice::slice_index_get(participants, i);
        joined.append(p.as_str());
        proof {
            if i == 0 {
                assert(dv.take(1) =~= seq![dv[0]]);
                assert(joined@ =~= spec_join_pipe(dv.take(1)));
            } else {
                crate::topics::lemma_join_pipe_snoc(dv, i as int);
                assert(joined@ =~= spec_join_pipe(dv.take(i + 1)));
            }
        }
        i = i + 1;
    }
    proof {
        if participants@.len() == 0 {
            assert(spec_join_pipe(dv.take(0)) =~= Seq::<char>::empty());
            assert(joined@ =~= spec_join_pipe(dv));
        } else {
            assert(dv.take(participants@.len() as int) =~= dv);
        }
    }
    hash_string(joined.as_str())
}

// ------------------------------------------------------------------
// Sessions
// ------------------------------------------------------------------

/// A direct session with one peer.
pub struct ConversationSession {
    id: String,
    owner: Identity,
    participants: Identity,
}

/// The frame a chat message lifts to, with no reliability slot.
pub open spec fn spec_chat_frame(m: crate::content_types::ChatMessageV) -> FrameV {
    FrameV {
        reliability_info: None,
        frame_type: FrameTypeV::Content(
            ContentFrameV {
                domain: 0,
                tag: CONTENT_TAG_CHAT_MESSAGE,
                bytes: enc_chat_message(m),
            },
        ),
    }
}

/// Frame-level encryption of this layer: the encoded frame, reversed,
/// under the reversal variant.
pub open spec fn spec_session_encrypt(f: FrameV) -> EncryptedBytesV {
    EncryptedBytesV { encryption: Some(EncryptionV::Reversed(enc_frame(f).reverse())) }
}

impl ConversationSession {
    /// The session's own identifier.
    pub closed spec fn spec_id(&self) -> Seq<char> {
        self.id@
    }

    /// The peer's address.
    pub closed spec fn spec_participant(&self) -> Seq<char> {
        self.participants.id@
    }

    /// The owner's address.
    pub closed spec fn spec_owner(&self) -> Seq<char> {
        self.owner.id@
    }

    fn new(id: String, owner: Identity, participants: Identity) -> (r: Self)
        ensures
            r.spec_id() == id@,
            r.spec_owner() == owner.spec_address(),
            r.spec_participant() == participants.spec_address(),
    {
        ConversationSession { id, owner, participants }
    }

    /// Encrypt one message for this session.
    fn encrypt(&self, msg: ChatMessage) -> (r: EncryptedBytes)
        ensures
            r@ == spec_session_encrypt(spec_chat_frame(msg@)),
    {
        let frame = msg.to_frame(None);
        let buf = frame.encode();
        let encrypted_bytes = encrypt_reverse(buf);
        EncryptedBytes { encryption: Some(Encryption::Reversed(encrypted_bytes)) }
    }

    /// Encrypt a message and publish it to the peer's inbox topic. The
    /// transport decides nothing here: publishing does not fail.
    pub fn send<D: Publish>(&self, ds: &mut D, msg: ChatMessage) -> (r: Result<(), UmbraError>)
        ensures
            r is Ok,
    {
        let enc = self.encrypt(msg);
        let topic = topic_inbox(self.participants.address());
        ds.publish(topic, enc.to_payload());
        Ok(())
    }
}

impl Clone for ConversationSession {
    fn clone(&self) -> (r: Self)
        ensures
            r == *self,
    {
        ConversationSession {
            id: self.id.clone(),
            owner: self.owner.clone(),
            participants: self.participants.clone(),
        }
    }
}

/// Encrypted bytes travel as the payload itself in this layer.
impl ToPayload for EncryptedBytes {
    open spec fn spec_payload(&self) -> TaggedPayloadV {
        TaggedPayloadV {
            protocol: PROTOCOL_UMBRA_V1,
            tag: PAYLOAD_TAG_ENVELOPE,
            payload_bytes: enc_encrypted_bytes(self@),
        }
    }

    fn to_payload(self) -> (p: TaggedPayload) {
        let payload_bytes = self.encode();
        proof {
            broadcast use vstd::std_specs::vec::axiom_spec_len;

            assert(payload_bytes@.len() == vstd::std_specs::vec::spec_vec_len(&payload_bytes));
        }
        TaggedPayload {
            protocol: PROTOCOL_UMBRA_V1,
            tag: PAYLOAD_TAG_ENVELOPE,
            payload_bytes,
        }
    }
}

// ------------------------------------------------------------------
// First-match lookups over the client's lists
// ------------------------------------------------------------------

/// First session whose peer has the given address.
pub open spec fn sessions_get(s: Seq<ConversationSession>, addr: Seq<char>) -> Option<
    ConversationSession,
>
    decreases s.len(),
{
    if s.len() == 0 {
        None
    } else if s[0].spec_participant() == addr {
        Some(s[0])
    } else {
        sessions_get(s.drop_first(), addr)
    }
}

/// First known identity under the given address.
pub open spec fn contacts_get(s: Seq<Identity>, addr: Seq<char>) -> Option<Identity>
    decreases s.len(),
{
    if s.len() == 0 {
        None
    } else if s[0].spec_address() == addr {
        Some(s[0])
    } else {
        contacts_get(s.drop_first(), addr)
    }
}

proof fn lemma_sessions_get_push(s: Seq<ConversationSession>, c: ConversationSession, addr: Seq<char>)
    ensures
        sessions_get(s.push(c), addr) == (if sessions_get(s, addr) is Some {
            sessions_get(s, addr)
        } else if c.spec_participant() == addr {
            Some(c)
        } else {
            None::<ConversationSession>
        }),
    decreases s.len(),
{
    if s.len() == 0 {
        assert(s.push(c).drop_first() =~= Seq::<ConversationSession>::empty());
        assert(s.push(c)[0] == c);
    } else {
        assert(s.push(c)[0] == s[0]);
        lemma_sessions_get_push(s.drop_first(), c, addr);
        assert(s.push(c).drop_first() =~= s.drop_first().push(c));
    }
}

proof fn lemma_contacts_get_push(s: Seq<Identity>, c: Identity, addr: Seq<char>)
    ensures
        contacts_get(s.push(c), addr) == (if contacts_get(s, addr) is Some {
            contacts_get(s, addr)
        } else if c.spec_address() == addr {
            Some(c)
        } else {
            None::<Identity>
        }),
    decreases s.len(),
{
    if s.len() == 0 {
        assert(s.push(c).drop_first() =~= Seq::<Identity>::empty());
        assert(s.push(c)[0] == c);
    } else {
        assert(s.push(c)[0] == s[0]);
        lemma_contacts_get_push(s.drop_first(), c, addr);
        assert(s.push(c).drop_first() =~= s.drop_first().push(c));
    }
}

/// Removing the first (and under distinct peers, only) session of an
/// address leaves every other lookup as it was, that address absent, and
/// the peers still pairwise distinct.
proof fn lemma_sessions_get_remove(s: Seq<ConversationSession>, i: int, addr: Seq<char>)
    requires
        0 <= i < s.len(),
        s[i].spec_participant() == addr,
        forall|j: int| 0 <= j < i ==> s[j].spec_participant() != addr,
        forall|p: int, q: int|
            0 <= p < q < s.len() ==> s[p].spec_participant() != s[q].spec_participant(),
    ensures
        sessions_get(s.remove(i), addr) is None,
        forall|o: Seq<char>| o != addr ==> sessions_get(s.remove(i), o) == sessions_get(s, o),
        forall|p: int, q: int|
            0 <= p < q < s.remove(i).len() ==> s.remove(i)[p].spec_participant() != s.remove(
                i,
            )[q].spec_participant(),
    decreases s.len(),
{
    assert forall|p: int, q: int| 0 <= p < q < s.remove(i).len() implies s.remove(
        i,
    )[p].spec_participant() != s.remove(i)[q].spec_participant() by {
        let pp: int = if p < i {
            p
        } else {
            p + 1
        };
        let qq: int = if q < i {
            q
        } else {
            q + 1
        };
        assert(s.remove(i)[p] == s[pp]);
        assert(s.remove(i)[q] == s[qq]);
    }
    if i == 0 {
        assert(s.remove(0) =~= s.drop_first());
        assert forall|j: int| 0 <= j < s.drop_first().len() implies s.drop_first()[
            j
        ].spec_participant() != addr by {
            assert(s.drop_first()[j] == s[j + 1]);
        }
        lemma_sessions_get_absent_all(s.drop_first(), addr);
        assert forall|o: Seq<char>| o != addr implies sessions_get(s.remove(0), o) == sessions_get(
            s,
            o,
        ) by {
            assert(sessions_get(s, o) == sessions_get(s.drop_first(), o));
        }
    } else {
        lemma_sessions_get_remove(s.drop_first(), i - 1, addr);
        assert(s.remove(i).drop_first() =~= s.drop_first().remove(i - 1));
        assert(s.remove(i)[0] == s[0]);
        assert forall|o: Seq<char>| o != addr implies sessions_get(s.remove(i), o) == sessions_get(
            s,
            o,
        ) by {
            if s[0].spec_participant() != o {
                assert(sessions_get(s.remove(i), o) == sessions_get(s.remove(i).drop_first(), o));
                assert(sessions_get(s, o) == sessions_get(s.drop_first(), o));
            }
        }
    }
}

// ------------------------------------------------------------------
// The session client
// ------------------------------------------------------------------

/// The session-layer client: one identity, its sessions keyed by peer
/// address, known contacts, topic subscriptions, and callback lists for
/// conversation lifecycle events.
pub struct UmbraClient<D: DS, S: Store, FC: Fn(ConversationSession), FU: Fn(String)> {
    ident: Identity,
    ds: D,
    store: S,
    handlers_on_conversation: Vec<FC>,
    handlers_on_conversation_update: Vec<FU>,
    known_contacts: Vec<Identity>,
    sessions: Vec<ConversationSession>,
    subscriptions: Vec<String>,
}

impl<D: DS, S: Store, FC: Fn(ConversationSession), FU: Fn(String)> UmbraClient<D, S, FC, FU> {
    /// The client's address.
    pub closed spec fn spec_addr(&self) -> Seq<char> {
        self.ident.id@
    }

    /// The sessions, in registration order.
    pub closed spec fn spec_sessions(&self) -> Seq<ConversationSession> {
        self.sessions@
    }

    /// The session with a peer, if any.
    pub open spec fn spec_session_for(&self, addr: Seq<char>) -> Option<ConversationSession> {
        sessions_get(self.spec_sessions(), addr)
    }

    /// The known identity under an address, if any.
    pub closed spec fn spec_contact(&self, addr: Seq<char>) -> Option<Identity> {
        contacts_get(self.known_contacts@, addr)
    }

    /// The subscribed topics.
    pub closed spec fn spec_subscriptions(&self) -> Seq<Seq<char>> {
        self.subscriptions.deep_view()
    }

    /// The registered conversation callbacks.
    pub closed spec fn spec_conversation_handlers(&self) -> Seq<FC> {
        self.handlers_on_conversation@
    }

    /// The registered update callbacks.
    pub closed spec fn spec_update_handlers(&self) -> Seq<FU> {
        self.handlers_on_conversation_update@
    }

    /// Each peer address names one session; each topic appears once.
    pub closed spec fn wf(&self) -> bool {
        &&& forall|p: int, q: int|
            0 <= p < q < self.sessions@.len() ==> self.sessions@[p].spec_participant()
                != self.sessions@[q].spec_participant()
        &&& forall|p: int, q: int|
            0 <= p < q < self.subscriptions@.len() ==> self.subscriptions@[p]@
                != self.subscriptions@[q]@
    }

    fn new(ident: Identity, ds: D, store: S) -> (r: Self)
        ensures
            r.wf(),
            r.spec_addr() == ident.spec_address(),
            r.spec_sessions() == Seq::<ConversationSession>::empty(),
            r.spec_subscriptions() == Seq::<Seq<char>>::empty(),
    {
        let r = UmbraClient {
            ident,
            ds,
            store,
            handlers_on_conversation: Vec::new(),
            handlers_on_conversation_update: Vec::new(),
            known_contacts: Vec::new(),
            sessions: Vec::new(),
            subscriptions: Vec::new(),
        };
        proof {
            assert(r.spec_subscriptions() =~= Seq::<Seq<char>>::empty());
        }
        r
    }

    /// Build a client under a fresh ephemeral identity.
    pub fn create_with_ephemeral_identity(ds: D, store: S) -> (r: Result<Self, UmbraError>)
        ensures
            r matches Ok(c) && c.wf() && c.spec_addr().len() == 16 && c.spec_sessions()
                == Seq::<ConversationSession>::empty(),
    {
        let identity = Identity::new_ephemeral();
        Ok(Self::new(identity, ds, store))
    }

    /// The client's address.
    pub fn address(&self) -> (r: &str)
        ensures
            r@ == self.spec_addr(),
    {
        self.ident.address()
    }

    /// Open a session with a peer: record the contact, subscribe to the
    /// peer's inbox topic, and register a fresh session under a random
    /// identifier, replacing any earlier session with that peer.
    pub fn create_session(&mut self, participant_addr: &str) -> (r: Result<
        &ConversationSession,
        UmbraError,
    >)
        requires
            old(self).wf(),
        ensures
            final(self).wf(),
            final(self).spec_addr() == old(self).spec_addr(),
            match r {
                Ok(s) => {
                    &&& s.spec_participant() == participant_addr@
                    &&& s.spec_owner() == old(self).spec_addr()
                    &&& s.spec_id().len() == 16
                    &&& final(self).spec_session_for(participant_addr@) == Some(*s)
                },
                Err(_) => false,
            },
            forall|o: Seq<char>| o != participant_addr@ ==> final(self).spec_session_for(o) == old(
                self,
            ).spec_session_for(o),
    {
        let convo_id = generate_random_string(16);
        let owner = self.ident.clone();
        let participant = match self.lookup_identity(participant_addr) {
            Some(p) => p,
            None => {
                return Err(UmbraError::UnexpectedError);
            },
        };
        self.subscribe_to_topic(topic_inbox(participant.address()));
        let sesh = ConversationSession::new(convo_id, owner, participant);
        match self.save_session(sesh) {
            Ok(()) => {},
            Err(e) => {
                return Err(e);
            },
        }
        match self.get_conversation(participant_addr) {
            Some(s) => Ok(s),
            None => Err(UmbraError::UnexpectedError),
        }
    }

    /// Register a session under its peer's address, replacing any session
    /// that address already named.
    pub fn save_session(&mut self, session: ConversationSession) -> (r: Result<(), UmbraError>)
        requires
            old(self).wf(),
        ensures
            final(self).wf(),
            final(self).spec_addr() == old(self).spec_addr(),
            final(self).spec_subscriptions() == old(self).spec_subscriptions(),
            r is Ok,
            final(self).spec_session_for(session.spec_participant()) == Some(session),
            forall|o: Seq<char>| o != session.spec_participant() ==> final(self).spec_session_for(
                o,
            ) == old(self).spec_session_for(o),
    {
        let ghost addr = session.spec_participant();
        let mut i: usize = 0;
        loop
            invariant
                i <= self.sessions@.len(),
                forall|j: int| 0 <= j < i ==> self.sessions@[j].spec_participant() != addr,
                addr == session.spec_participant(),
            ensures
                i <= self.sessions@.len(),
                forall|j: int| 0 <= j < i ==> self.sessions@[j].spec_participant() != addr,
                i < self.sessions@.len() ==> self.sessions@[i as int].spec_participant() == addr,
                i == self.sessions@.len() ==> forall|j: int|
                    0 <= j < self.sessions@.len() ==> self.sessions@[j].spec_participant() != addr,
            decreases self.sessions@.len() - i,
        {
            if i >= self.sessions.len() {
                break;
            }
            let peer = self.sessions[i].participants.address();
            let target = session.participants.address();
            if str_eq(peer, target) {
                break;
            }
            i = i + 1;
        }
        if i < self.sessions.len() {
            proof {
                lemma_sessions_get_remove(self.sessions@, i as int, addr);
            }
            self.sessions.remove(i);
        } else {
            proof {
                lemma_sessions_get_absent_all(self.sessions@, addr);
            }
        }
        proof {
            lemma_sessions_get_push(self.sessions@, session, addr);
            assert forall|o: Seq<char>| o != addr implies sessions_get(
                self.sessions@.push(session),
                o,
            ) == old(self).spec_session_for(o) by {
                lemma_sessions_get_push(self.sessions@, session, o);
            }
            lemma_sessions_get_found(self.sessions@, addr);
        }
        let ghost pre = self.sessions@;
        self.sessions.push(session);
        proof {
            assert forall|p: int, q: int| 0 <= p < q < self.sessions@.len() implies self.sessions@[
                p
            ].spec_participant() != self.sessions@[q].spec_participant() by {
                if q == self.sessions@.len() - 1 {
                    assert(self.sessions@[p] == pre[p]);
                    assert(self.sessions@[q] == session);
                } else {
                    assert(self.sessions@[p] == pre[p]);
                    assert(self.sessions@[q] == pre[q]);
                }
            }
        }
        Ok(())
    }

    /// Group conversations are a future variant.
    pub fn create_group(&self, _participants: &[Identity]) -> (r: Result<
        ConversationGroup,
        UmbraError,
    >)
        ensures
            r matches Err(UmbraError::UnimplementedError),
    {
        Err(UmbraError::UnimplementedError)
    }

    /// Encrypt a message for a session and publish it under the session's
    /// inbox topic.
    pub fn send_message(&mut self, convo: &ConversationSession, msg: ChatMessage) -> (r: Result<
        (),
        UmbraError,
    >)
        ensures
            r is Ok,
    {
        let topic = topic_inbox(convo.id.as_str());
        let enc = convo.encrypt(msg);
        self.ds.publish(topic, enc.to_payload());
        Ok(())
    }

    /// Drain every subscribed topic and process each waiting message.
    /// A malformed message is abandoned by itself; the drain continues.
    pub fn poll(&mut self) -> (r: Result<(), UmbraError>)
        requires
            old(self).wf(),
        ensures
            final(self).wf(),
            final(self).spec_addr() == old(self).spec_addr(),
            final(self).spec_sessions() == old(self).spec_sessions(),
            final(self).spec_subscriptions() == old(self).spec_subscriptions(),
            r is Ok,
    {
        let mut i: usize = 0;
        while i < self.subscriptions.len()
            invariant
                old(self).wf(),
                self.wf(),
                i <= self.subscriptions@.len(),
                self.spec_addr() == old(self).spec_addr(),
                self.spec_sessions() == old(self).spec_sessions(),
                self.spec_subscriptions() == old(self).spec_subscriptions(),
                self.ident == old(self).ident,
                self.sessions == old(self).sessions,
                self.subscriptions == old(self).subscriptions,
                self.known_contacts == old(self).known_contacts,
            decreases self.subscriptions@.len() - i,
        {
            let client_id = self.ident.id.clone();
            let topic = self.subscriptions[i].clone();
            let msg_bufs = self.ds.poll(client_id.as_str(), topic.as_str());
            let mut k: usize = 0;
            while k < msg_bufs.len()
                invariant
                    k <= msg_bufs@.len(),
                decreases msg_bufs@.len() - k,
            {
                let buf = msg_bufs[k].clone();
                match self.handle_incoming_message(buf) {
                    Ok(()) => {},
                    Err(_) => {},
                }
                k = k + 1;
            }
            i = i + 1;
        }
        Ok(())
    }

    /// Process one polled message: decode the tagged payload, accept only
    /// the encrypted-bytes tag, and decrypt to the inner frame. A decode
    /// failure at any layer is an error confined to this message.
    fn handle_incoming_message(&self, buf: Vec<u8>) -> (r: Result<(), UmbraError>)
        ensures
            match spec_poc_incoming(buf@) {
                Some(_) => r is Ok,
                None => r matches Err(UmbraError::DecodingError(_)),
            },
    {
        let tagged_payload = match TaggedPayload::decode(buf.as_slice()) {
            Ok(p) => p,
            Err(e) => {
                return Err(e);
            },
        };
        if tagged_payload.tag == PAYLOAD_TAG_ENVELOPE {
            let encrypted_bytes = match EncryptedBytes::decode(
                tagged_payload.payload_bytes.as_slice(),
            ) {
                Ok(eb) => eb,
                Err(e) => {
                    return Err(e);
                },
            };
            let _frame = match self.decrypt(encrypted_bytes) {
                Ok(f) => f,
                Err(e) => {
                    return Err(e);
                },
            };
            Ok(())
        } else {
            Err(UmbraError::DecodingError(String::from_str("unknown payload tag")))
        }
    }

    /// Encrypt an outbound frame under this layer's cipher slot.
    fn encrypt(&self, frame: Frame) -> (r: EncryptedBytes)
        ensures
            r@ == spec_session_encrypt(frame@),
    {
        let bytes = encrypt_reverse(frame.encode());
        EncryptedBytes { encryption: Some(Encryption::Reversed(bytes)) }
    }

    /// Decrypt inbound encrypted bytes to the inner frame. An absent slot,
    /// a mismatched algorithm variant, or a frame that does not parse is a
    /// decoding error; the process is never aborted.
    fn decrypt(&self, enc_bytes: EncryptedBytes) -> (r: Result<Frame, UmbraError>)
        ensures
            match enc_bytes@.encryption {
                Some(EncryptionV::Reversed(b)) => match dec_frame_msg(b.reverse()) {
                    Some(f) => r matches Ok(x) && x@ == f,
                    None => r matches Err(UmbraError::DecodingError(_)),
                },
                _ => r matches Err(UmbraError::DecodingError(_)),
            },
    {
        match enc_bytes.encryption {
            Some(Encryption::Reversed(rev)) => {
                let decrypted_bytes = decrypt_reverse(rev);
                Frame::decode(decrypted_bytes.as_slice())
            },
            _ => Err(
                UmbraError::DecodingError(
                    String::from_str("unsupported encryption for session frame"),
                ),
            ),
        }
    }

    /// The session with a peer, if one is registered.
    pub fn get_conversation(&self, addr: &str) -> (r: Option<&ConversationSession>)
        ensures
            match self.spec_session_for(addr@) {
                Some(s) => r matches Some(x) && *x == s,
                None => r is None,
            },
    {
        proof {
            assert(self.sessions@.skip(0) =~= self.sessions@);
        }
        let mut i: usize = 0;
        loop
            invariant
                i <= self.sessions@.len(),
                sessions_get(self.sessions@, addr@) == sessions_get(
                    self.sessions@.skip(i as int),
                    addr@,
                ),
            ensures
                match sessions_get(self.sessions@, addr@) {
                    Some(s) => i < self.sessions@.len() && self.sessions@[i as int] == s,
                    None => i == self.sessions@.len(),
                },
            decreases self.sessions@.len() - i,
        {
            if i >= self.sessions.len() {
                proof {
                    assert(self.sessions@.skip(i as int).len() == 0);
                }
                break;
            }
            proof {
                assert(self.sessions@.skip(i as int)[0] == self.sessions@[i as int]);
            }
            let peer = self.sessions[i].participants.address();
            if str_eq(peer, addr) {
                break;
            }
            proof {
                assert(self.sessions@.skip(i as int).drop_first() =~= self.sessions@.skip(i + 1));
            }
            i = i + 1;
        }
        if i < self.sessions.len() {
            Some(&self.sessions[i])
        } else {
            None
        }
    }

    /// Every registered session, in registration order.
    pub fn list_conversations(&self) -> (r: &Vec<ConversationSession>)
        ensures
            r@ == self.spec_sessions(),
    {
        &self.sessions
    }

    /// Register a callback for newly created conversations.
    pub fn on_new_conversation(&mut self, callback: FC)
        ensures
            final(self).spec_conversation_handlers() == old(
                self,
            ).spec_conversation_handlers().push(callback),
    {
        self.handlers_on_conversation.push(callback);
    }

    /// Register a callback for conversation updates.
    pub fn on_conversation_update(&mut self, callback: FU)
        ensures
            final(self).spec_update_handlers() == old(self).spec_update_handlers().push(callback),
    {
        self.handlers_on_conversation_update.push(callback);
    }

    /// Resolve an address to an identity. Registration lookup is not built
    /// yet: the identity is the address, recorded among the contacts.
    fn lookup_identity(&mut self, addr: &str) -> (r: Option<Identity>)
        ensures
            r matches Some(x) && x.spec_address() == addr@,
            final(self).spec_contact(addr@) == Some(r.unwrap()),
            final(self).ident == old(self).ident,
            final(self).sessions == old(self).sessions,
            final(self).subscriptions == old(self).subscriptions,
    {
        let ident = Identity::named(String::from_str(addr));
        let out = ident.clone();
        proof {
            lemma_contacts_get_push(self.known_contacts@, ident, addr@);
            lemma_contacts_get_addr(self.known_contacts@, addr@);
        }
        match self.find_contact(addr) {
            Some(existing) => Some(existing),
            None => {
                self.known_contacts.push(ident);
                Some(out)
            },
        }
    }

    /// The known identity under an address, cloned out.
    fn find_contact(&self, addr: &str) -> (r: Option<Identity>)
        ensures
            match contacts_get(self.known_contacts@, addr@) {
                Some(c) => r == Some(c),
                None => r is None,
            },
    {
        proof {
            assert(self.known_contacts@.skip(0) =~= self.known_contacts@);
        }
        let mut i: usize = 0;
        loop
            invariant
                i <= self.known_contacts@.len(),
                contacts_get(self.known_contacts@, addr@) == contacts_get(
                    self.known_contacts@.skip(i as int),
                    addr@,
                ),
            ensures
                match contacts_get(self.known_contacts@, addr@) {
                    Some(c) => i < self.known_contacts@.len() && self.known_contacts@[i as int]
                        == c,
                    None => i == self.known_contacts@.len(),
                },
            decreases self.known_contacts@.len() - i,
        {
            if i >= self.known_contacts.len() {
                proof {
                    assert(self.known_contacts@.skip(i as int).len() == 0);
                }
                break;
            }
            proof {
                assert(self.known_contacts@.skip(i as int)[0] == self.known_contacts@[i as int]);
            }
            let known = self.known_contacts[i].address();
            if str_eq(known, addr) {
                break;
            }
            proof {
                assert(self.known_contacts@.skip(i as int).drop_first() =~= self.known_contacts@.skip(
                    i + 1,
                ));
            }
            i = i + 1;
        }
        if i < self.known_contacts.len() {
            Some(self.known_contacts[i].clone())
        } else {
            None
        }
    }

    /// Subscribe to a topic, once.
    fn subscribe_to_topic(&mut self, topic: ContentTopic)
        requires
            old(self).wf(),
        ensures
            final(self).wf(),
            final(self).spec_subscriptions() == (if old(self).spec_subscriptions().contains(
                topic@,
            ) {
                old(self).spec_subscriptions()
            } else {
                old(self).spec_subscriptions().push(topic@)
            }),
            final(self).ident == old(self).ident,
            final(self).sessions == old(self).sessions,
            final(self).known_contacts == old(self).known_contacts,
    {
        let ghost subs = self.subscriptions.deep_view();
        let mut i: usize = 0;
        loop
            invariant
                i <= self.subscriptions@.len(),
                subs == self.subscriptions.deep_view(),
                subs.len() == self.subscriptions@.len(),
                forall|k: int| 0 <= k < self.subscriptions@.len() ==> subs[k]
                    == self.subscriptions@[k]@,
                forall|j: int| 0 <= j < i ==> subs[j] != topic@,
            ensures
                i <= self.subscriptions@.len(),
                forall|j: int| 0 <= j < i ==> subs[j] != topic@,
                i < self.subscriptions@.len() ==> subs[i as int] == topic@,
                i == self.subscriptions@.len() ==> !subs.contains(topic@),
            decreases self.subscriptions@.len() - i,
        {
            if i >= self.subscriptions.len() {
                proof {
                    assert forall|j: int| 0 <= j < subs.len() implies subs[j] != topic@ by {}
                    assert(!subs.contains(topic@));
                }
                break;
            }
            let existing = self.subscriptions[i].as_str();
            if str_eq(existing, topic.as_str()) {
                break;
            }
            i = i + 1;
        }
        if i >= self.subscriptions.len() {
            let ghost pre = self.subscriptions.deep_view();
            self.subscriptions.push(topic);
            proof {
                assert(self.subscriptions.deep_view() =~= pre.push(topic@));
                assert forall|p: int, q: int|
                    0 <= p < q < self.subscriptions@.len() implies self.subscriptions@[p]@
                    != self.subscriptions@[q]@ by {
                    if q == self.subscriptions@.len() - 1 {
                        assert(pre[p] == self.subscriptions@[p]@);
                    }
                }
            }
        } else {
            proof {
                assert(subs[i as int] == topic@);
                assert(subs.contains(topic@));
            }
        }
    }
}

/// What is found among the contacts carries the address it was found by.
proof fn lemma_contacts_get_addr(s: Seq<Identity>, addr: Seq<char>)
    ensures
        contacts_get(s, addr) matches Some(c) ==> c.spec_address() == addr,
    decreases s.len(),
{
    if s.len() > 0 {
        lemma_contacts_get_addr(s.drop_first(), addr);
    }
}

/// When no prefix element matches and the scan is done, the address is
/// absent altogether.
proof fn lemma_sessions_get_absent_all(s: Seq<ConversationSession>, addr: Seq<char>)
    requires
        forall|j: int| 0 <= j < s.len() ==> s[j].spec_participant() != addr,
    ensures
        sessions_get(s, addr) is None,
    decreases s.len(),
{
    if s.len() > 0 {
        lemma_sessions_get_absent_all(s.drop_first(), addr);
    }
}

/// A found session sits at some index.
proof fn lemma_sessions_get_found(s: Seq<ConversationSession>, addr: Seq<char>)
    ensures
        (sessions_get(s, addr) is None) ==> forall|j: int|
            0 <= j < s.len() ==> s[j].spec_participant() != addr,
    decreases s.len(),
{
    if s.len() > 0 {
        lemma_sessions_get_found(s.drop_first(), addr);
        if sessions_get(s, addr) is None {
            assert forall|j: int| 0 <= j < s.len() implies s[j].spec_participant() != addr by {
                if j > 0 {
                    assert(s.drop_first()[j - 1] == s[j]);
                }
            }
        }
    }
}

/// What one polled session-layer message decodes to, if anything: the
/// payload must carry the encrypted-bytes tag and decrypt to a frame.
pub open spec fn spec_poc_incoming(s: Seq<u8>) -> Option<FrameV> {
    match dec_tagged_payload_msg(s) {
        Some(tp) => {
            if tp.tag == PAYLOAD_TAG_ENVELOPE {
                match dec_encrypted_bytes_msg(tp.payload_bytes) {
                    Some(eb) => match eb.encryption {
                        Some(EncryptionV::Reversed(b)) => dec_frame_msg(b.reverse()),
                        _ => None,
                    },
                    None => None,
                }
            } else {
                None
            }
        },
        None => None,
    }
}

/// Law: what a session publishes for a chat message is decoded back to
/// exactly that message's frame by the session receive path. The length
/// bound only asks that every layer's length prefix fit its `u64` field.
pub proof fn lemma_session_publish_round_trip(m: crate::content_types::ChatMessageV)
    requires
        encode_utf8(m.text).len() + 35 <= u64::MAX,
    ensures
        ({
            let frame = spec_chat_frame(m);
            let payload = TaggedPayloadV {
                protocol: PROTOCOL_UMBRA_V1,
                tag: PAYLOAD_TAG_ENVELOPE,
                payload_bytes: enc_encrypted_bytes(spec_session_encrypt(frame)),
            };
            spec_poc_incoming(enc_tagged_payload(payload)) == Some(frame)
        }),
{
    vstd::bytes::lemma_auto_spec_u32_to_from_le_bytes();
    vstd::bytes::lemma_auto_spec_u64_to_from_le_bytes();
    let frame = spec_chat_frame(m);
    assert(frame.wf());
    let ef = enc_frame(frame);
    assert(ef.len() == encode_utf8(m.text).len() + 26);
    let encrypted = spec_session_encrypt(frame);
    assert(ef.reverse().len() == ef.len());
    assert(encrypted.wf());
    let payload = TaggedPayloadV {
        protocol: PROTOCOL_UMBRA_V1,
        tag: PAYLOAD_TAG_ENVELOPE,
        payload_bytes: enc_encrypted_bytes(encrypted),
    };
    assert(payload.wf());
    crate::codec::lemma_tagged_payload_round_trip(payload);
    crate::codec::lemma_encrypted_bytes_round_trip(encrypted);
    crate::crypto::lemma_reverse_involutive(ef);
    crate::codec::lemma_frame_round_trip(frame);
}

/// A group conversation; a future variant, nothing is built on it.
pub struct ConversationGroup {}

/// Compare two strings for equality by their views.
fn str_eq(a: &str, b: &str) -> (r: bool)
    ensures
        r == (a@ == b@),
{
    let ab = a.as_bytes();
    let bb = b.as_bytes();
    if ab.len() != bb.len() {
        return false;
    }
    let mut i: usize = 0;
    while i < ab.len()
        invariant
            i <= ab@.len(),
            ab@.len() == bb@.len(),
            ab@ == encode_utf8(a@),
            bb@ == encode_utf8(b@),
            forall|j: int| 0 <= j < i ==> ab@[j] == bb@[j],
        decreases ab@.len() - i,
    {
        let x = *vstd::slice::slice_index_get(ab, i);
        let y = *vstd::slice::slice_index_get(bb, i);
        if x != y {
            return false;
        }
        i = i + 1;
    }
    proof {
        assert(ab@ =~= bb@);
        broadcast use vstd::utf8::encode_utf8_decode_utf8;

        assert(decode_utf8(encode_utf8(a@)) == a@);
        assert(decode_utf8(encode_utf8(b@)) == b@);
    }
    true
}

} // verus!
