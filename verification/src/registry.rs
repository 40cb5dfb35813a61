//! The conversation registry.
//!
//! It maps conversation identifiers to live conversations. Its single write
//! operation is insert-if-absent: registering an already known identifier
//! changes nothing, which is what makes invite delivery idempotent. The
//! registry's invariant is that identifiers are pairwise distinct, so a
//! registered pair has exactly one conversation.

use vstd::prelude::*;
use crate::convo::Conversation;
use crate::convo::InboxConversation;
use crate::convo::PrivateConversation;
use crate::topics::spec_private_topic;
use crate::topics::topic_private_convo;

verus! {

/// First conversation registered under the identifier, if any.
pub open spec fn seq_get(s: Seq<Conversation>, id: Seq<char>) -> Option<Conversation>
    decreases s.len(),
{
    if s.len() == 0 {
        None
    } else if s[0].spec_convo_id() == id {
        Some(s[0])
    } else {
        seq_get(s.drop_first(), id)
    }
}

/// Registering an identifier: insert-if-absent over the identifier list.
pub open spec fn spec_register(ids: Seq<Seq<char>>, id: Seq<char>) -> Seq<Seq<char>> {
    if ids.contains(id) {
        ids
    } else {
        ids.push(id)
    }
}

/// Law: delivering the same registration twice leaves exactly what one
/// delivery leaves, and the identifier is registered afterwards.
pub proof fn lemma_register_idempotent(ids: Seq<Seq<char>>, id: Seq<char>)
    ensures
        spec_register(spec_register(ids, id), id) == spec_register(ids, id),
        spec_register(ids, id).contains(id),
{
    if !ids.contains(id) {
        assert(ids.push(id)[ids.len() as int] == id);
        assert(ids.push(id).contains(id));
    }
}

/// The identifiers of a conversation list.
pub open spec fn ids_of(s: Seq<Conversation>) -> Seq<Seq<char>> {
    Seq::new(s.len(), |i: int| s[i].spec_convo_id())
}

/// An identifier is found exactly when it is among the identifiers, and
/// what is found carries that identifier.
proof fn lemma_seq_get_has(s: Seq<Conversation>, id: Seq<char>)
    ensures
        (seq_get(s, id) is Some) <==> ids_of(s).contains(id),
        seq_get(s, id) matches Some(c) ==> c.spec_convo_id() == id,
    decreases s.len(),
{
    if s.len() == 0 {
    } else if s[0].spec_convo_id() == id {
        assert(ids_of(s)[0] == id);
        assert(ids_of(s).contains(id));
    } else {
        lemma_seq_get_has(s.drop_first(), id);
        assert(ids_of(s.drop_first()) =~= ids_of(s).drop_first());
        if ids_of(s).contains(id) {
            let i = choose|i: int| 0 <= i < ids_of(s).len() && ids_of(s)[i] == id;
            assert(i != 0);
            assert(ids_of(s).drop_first()[i - 1] == id);
            assert(ids_of(s.drop_first()).contains(id));
        }
        if ids_of(s.drop_first()).contains(id) {
            let i = choose|i: int|
                0 <= i < ids_of(s.drop_first()).len() && ids_of(s.drop_first())[i] == id;
            assert(ids_of(s)[i + 1] == id);
        }
    }
}

/// Appending a conversation leaves earlier identifiers found as before;
/// an absent identifier is then found at the new entry.
proof fn lemma_seq_get_push(s: Seq<Conversation>, c: Conversation, id: Seq<char>)
    ensures
        seq_get(s.push(c), id) == (if seq_get(s, id) is Some {
            seq_get(s, id)
        } else if c.spec_convo_id() == id {
            Some(c)
        } else {
            None::<Conversation>
        }),
    decreases s.len(),
{
    if s.len() == 0 {
        assert(s.push(c).drop_first() =~= Seq::<Conversation>::empty());
        assert(s.push(c)[0] == c);
    } else {
        assert(s.push(c)[0] == s[0]);
        lemma_seq_get_push(s.drop_first(), c, id);
        assert(s.push(c).drop_first() =~= s.drop_first().push(c));
    }
}

/// The registry: conversation identifiers to live conversations.
pub struct UmbraState {
    convos: Vec<Conversation>,
}

impl UmbraState {
    /// The registered identifiers, in registration order.
    pub closed spec fn spec_ids(&self) -> Seq<Seq<char>> {
        ids_of(self.convos@)
    }

    /// The conversation registered under an identifier.
    pub closed spec fn spec_get(&self, id: Seq<char>) -> Option<Conversation> {
        seq_get(self.convos@, id)
    }

    /// Whether an identifier is registered.
    pub open spec fn spec_has(&self, id: Seq<char>) -> bool {
        self.spec_ids().contains(id)
    }

    /// Identifiers are pairwise distinct: each names one conversation.
    pub closed spec fn wf(&self) -> bool {
        forall|i: int, j: int|
            0 <= i < j < self.convos@.len() ==> self.convos@[i].spec_convo_id()
                != self.convos@[j].spec_convo_id()
    }

    /// What is registered carries the identifier it is registered under.
    pub proof fn lemma_get_has(&self, id: Seq<char>)
        ensures
            (self.spec_get(id) is Some) <==> self.spec_has(id),
            self.spec_get(id) matches Some(c) ==> c.spec_convo_id() == id,
    {
        lemma_seq_get_has(self.convos@, id);
    }

    pub fn new() -> (r: Self)
        ensures
            r.wf(),
            r.spec_ids() == Seq::<Seq<char>>::empty(),
    {
        let r = UmbraState { convos: Vec::new() };
        proof {
            assert(r.spec_ids() =~= Seq::<Seq<char>>::empty());
        }
        r
    }

    /// Look up a conversation by its identifier.
    pub fn get_conversation(&self, addr: String) -> (r: Option<Conversation>)
        ensures
            match self.spec_get(addr@) {
                Some(c) => (r matches Some(x) && x.spec_convo_id() == c.spec_convo_id()
                    && x.is_inbox() == c.is_inbox()),
                None => r is None,
            },
            r matches Some(x) ==> x.spec_convo_id() == addr@,
    {
        proof {
            self.lemma_get_has(addr@);
            assert(self.convos@.skip(0) =~= self.convos@);
        }
        let mut i: usize = 0;
        loop
            invariant
                i <= self.convos@.len(),
                seq_get(self.convos@, addr@) == seq_get(self.convos@.skip(i as int), addr@),
            ensures
                match seq_get(self.convos@, addr@) {
                    Some(c) => (i < self.convos@.len() && self.convos@[i as int] == c
                        && c.spec_convo_id() == addr@),
                    None => i == self.convos@.len(),
                },
            decreases self.convos@.len() - i,
        {
            if i >= self.convos.len() {
                proof {
                    assert(self.convos@.skip(i as int).len() == 0);
                }
                break;
            }
            let cid = self.convos[i].convo_id();
            proof {
                assert(self.convos@.skip(i as int)[0] == self.convos@[i as int]);
            }
            if cid == addr {
                proof {
                    lemma_seq_get_has(self.convos@, addr@);
                }
                break;
            }
            proof {
                assert(self.convos@.skip(i as int).drop_first() =~= self.convos@.skip(i + 1));
            }
            i = i + 1;
        }
        if i < self.convos.len() {
            let c = self.convos[i].clone();
            Some(c)
        } else {
            None
        }
    }

    /// Register the private conversation over the given addresses,
    /// if and only if its identifier is not registered yet, and hand back
    /// the conversation registered under that identifier. Receiving the
    /// same registration again neither duplicates nor resets it.
    pub fn create_conversation(&mut self, addrs: Vec<String>) -> (r: Option<Conversation>)
        requires
            old(self).wf(),
        ensures
            final(self).wf(),
            final(self).spec_ids() == spec_register(
                old(self).spec_ids(),
                spec_private_topic(addrs.deep_view()),
            ),
            forall|o: Seq<char>| o != spec_private_topic(addrs.deep_view())
                ==> final(self).spec_get(o) == old(self).spec_get(o),
            old(self).spec_has(spec_private_topic(addrs.deep_view())) ==> *final(self) == *old(
                self,
            ),
            !old(self).spec_has(spec_private_topic(addrs.deep_view())) ==> (final(self).spec_get(
                spec_private_topic(addrs.deep_view()),
            ) matches Some(c) && c.spec_convo_id() == spec_private_topic(addrs.deep_view())
                && !c.is_inbox()),
            r matches Some(c) && c.spec_convo_id() == spec_private_topic(addrs.deep_view())
                && c.is_inbox() == final(self).spec_get(
                spec_private_topic(addrs.deep_view()),
            ).unwrap().is_inbox(),
    {
        let ghost id = spec_private_topic(addrs.deep_view());
        let topic = topic_private_convo(addrs);
        proof {
            self.lemma_get_has(id);
        }
        match self.get_conversation(topic.clone()) {
            Some(c) => {
                proof {
                    assert(final(self).spec_ids() =~= spec_register(old(self).spec_ids(), id));
                }
                Some(c)
            },
            None => {
                let convo = Conversation::Private(PrivateConversation::new(topic));
                let out = convo.clone();
                proof {
                    lemma_seq_get_push(self.convos@, convo, id);
                }
                self.convos.push(convo);
                proof {
                    let pre = old(self).convos@;
                    let post = self.convos@;
                    assert(post =~= pre.push(convo));
                    assert(self.spec_ids() =~= pre.push(convo).map(
                        |i: int, c: Conversation| c.spec_convo_id(),
                    )) by {
                        assert forall|k: int| 0 <= k < post.len() implies ids_of(post)[k]
                            == post[k].spec_convo_id() by {}
                        assert(ids_of(post) =~= post.map(
                            |i: int, c: Conversation| c.spec_convo_id(),
                        ));
                    }
                    assert(self.spec_ids() =~= old(self).spec_ids().push(id));
                    assert forall|i: int, j: int| 0 <= i < j < post.len() implies post[
                        i
                    ].spec_convo_id() != post[j].spec_convo_id() by {
                        if j == post.len() - 1 {
                            assert(ids_of(pre)[i] == pre[i].spec_convo_id());
                            assert(!ids_of(pre).contains(id));
                        }
                    }
                    assert forall|o: Seq<char>| o != id implies self.spec_get(o) == old(
                        self,
                    ).spec_get(o) by {
                        lemma_seq_get_push(pre, convo, o);
                    }
                }
                Some(out)
            },
        }
    }

    /// Register the inbox conversation under the given topic, if and only
    /// if that topic is not registered yet.
    pub fn ensure_inbox(&mut self, topic: String)
        requires
            old(self).wf(),
        ensures
            final(self).wf(),
            final(self).spec_ids() == spec_register(old(self).spec_ids(), topic@),
            forall|o: Seq<char>| o != topic@ ==> final(self).spec_get(o) == old(self).spec_get(o),
            old(self).spec_has(topic@) ==> *final(self) == *old(self),
            !old(self).spec_has(topic@) ==> (final(self).spec_get(topic@) matches Some(c)
                && c.spec_convo_id() == topic@ && c.is_inbox()),
    {
        let ghost id = topic@;
        proof {
            self.lemma_get_has(id);
        }
        match self.get_conversation(topic.clone()) {
            Some(_) => {
                proof {
                    assert(self.spec_ids() =~= spec_register(old(self).spec_ids(), id));
                }
            },
            None => {
                let convo = Conversation::Inbox(InboxConversation::new(topic));
                proof {
                    lemma_seq_get_push(self.convos@, convo, id);
                }
                self.convos.push(convo);
                proof {
                    let pre = old(self).convos@;
                    let post = self.convos@;
                    assert(post =~= pre.push(convo));
                    assert forall|k: int| 0 <= k < post.len() implies ids_of(post)[k] == post[
                        k
                    ].spec_convo_id() by {}
                    assert(self.spec_ids() =~= old(self).spec_ids().push(id));
                    assert forall|i: int, j: int| 0 <= i < j < post.len() implies post[
                        i
                    ].spec_convo_id() != post[j].spec_convo_id() by {
                        if j == post.len() - 1 {
                            assert(ids_of(pre)[i] == pre[i].spec_convo_id());
                            assert(!ids_of(pre).contains(id));
                        }
                    }
                    assert forall|o: Seq<char>| o != id implies self.spec_get(o) == old(
                        self,
                    ).spec_get(o) by {
                        lemma_seq_get_push(pre, convo, o);
                    }
                }
            },
        }
    }
}

} // verus!
