//! Conversation identifiers.
//!
//! A private conversation's identifier is computed independently by both
//! peers: the participant addresses are sorted lexicographically (by their
//! UTF-8 bytes), joined with `|`, and namespaced under `/private/`. An
//! inbox identifier is the address under `/inbox/`. Determinism of these
//! identifiers replaces any negotiation round.

use vstd::prelude::*;
use vstd::multiset::Multiset;
use vstd::relations::sorted_by;
use vstd::relations::total_ordering;
use vstd::seq_lib::lemma_multiset_commutative;
use vstd::seq_lib::lemma_sorted_unique;
use vstd::utf8::decode_utf8;
use vstd::utf8::encode_utf8;
use vstd::utf8::encode_utf8_decode_utf8;

verus! {

// ------------------------------------------------------------------
// Lexicographic order on byte sequences and strings
// ------------------------------------------------------------------

/// Lexicographic order over byte sequences.
pub open spec fn bytes_le(a: Seq<u8>, b: Seq<u8>) -> bool
    decreases a.len(),
{
    if a.len() == 0 {
        true
    } else if b.len() == 0 {
        false
    } else if a[0] < b[0] {
        true
    } else if a[0] > b[0] {
        false
    } else {
        bytes_le(a.drop_first(), b.drop_first())
    }
}

/// Strings are ordered by the lexicographic order of their UTF-8 bytes.
pub open spec fn str_le(a: Seq<char>, b: Seq<char>) -> bool {
    bytes_le(encode_utf8(a), encode_utf8(b))
}

/// The string order as a relation value, for sorting.
pub open spec fn str_leq_fn() -> spec_fn(Seq<char>, Seq<char>) -> bool {
    |a: Seq<char>, b: Seq<char>| str_le(a, b)
}

proof fn lemma_bytes_le_refl(a: Seq<u8>)
    ensures
        bytes_le(a, a),
    decreases a.len(),
{
    if a.len() > 0 {
        lemma_bytes_le_refl(a.drop_first());
    }
}

proof fn lemma_bytes_le_total(a: Seq<u8>, b: Seq<u8>)
    ensures
        bytes_le(a, b) || bytes_le(b, a),
    decreases a.len(),
{
    if a.len() > 0 && b.len() > 0 && a[0] == b[0] {
        lemma_bytes_le_total(a.drop_first(), b.drop_first());
    }
}

proof fn lemma_bytes_le_antisym(a: Seq<u8>, b: Seq<u8>)
    requires
        bytes_le(a, b),
        bytes_le(b, a),
    ensures
        a == b,
    decreases a.len(),
{
    if a.len() == 0 {
        assert(b.len() == 0);
        assert(a =~= b);
    } else {
        assert(b.len() > 0);
        assert(a[0] == b[0]);
        lemma_bytes_le_antisym(a.drop_first(), b.drop_first());
        assert(a.len() == b.len());
        assert forall|i: int| 0 <= i < a.len() implies a[i] == b[i] by {
            if i > 0 {
                assert(a.drop_first()[i - 1] == b.drop_first()[i - 1]);
            }
        }
        assert(a =~= b);
    }
}

proof fn lemma_bytes_le_trans(a: Seq<u8>, b: Seq<u8>, c: Seq<u8>)
    requires
        bytes_le(a, b),
        bytes_le(b, c),
    ensures
        bytes_le(a, c),
    decreases a.len(),
{
    if a.len() > 0 {
        assert(b.len() > 0);
        assert(c.len() > 0);
        if a[0] == b[0] && b[0] == c[0] {
            lemma_bytes_le_trans(a.drop_first(), b.drop_first(), c.drop_first());
        }
    }
}

/// The string order is a total ordering: reflexive, antisymmetric,
/// transitive, and total.
pub proof fn lemma_str_le_total_ordering()
    ensures
        total_ordering(str_leq_fn()),
{
    broadcast use encode_utf8_decode_utf8;

    let r = str_leq_fn();
    assert forall|x: Seq<char>| #[trigger] r(x, x) by {
        lemma_bytes_le_refl(encode_utf8(x));
    }
    assert forall|x: Seq<char>, y: Seq<char>| #[trigger] r(x, y) && #[trigger] r(y, x) implies x
        == y by {
        lemma_bytes_le_antisym(encode_utf8(x), encode_utf8(y));
        assert(decode_utf8(encode_utf8(x)) == decode_utf8(encode_utf8(y)));
    }
    assert forall|x: Seq<char>, y: Seq<char>, z: Seq<char>|
        #[trigger] r(x, y) && #[trigger] r(y, z) implies r(x, z) by {
        lemma_bytes_le_trans(encode_utf8(x), encode_utf8(y), encode_utf8(z));
    }
    assert forall|x: Seq<char>, y: Seq<char>| #[trigger] r(x, y) || #[trigger] r(y, x) by {
        lemma_bytes_le_total(encode_utf8(x), encode_utf8(y));
    }
}

/// When two byte sequences agree on a prefix, their order is decided by
/// the suffixes after it.
proof fn lemma_bytes_le_skip(a: Seq<u8>, b: Seq<u8>, i: int)
    requires
        0 <= i <= a.len(),
        i <= b.len(),
        forall|j: int| 0 <= j < i ==> a[j] == b[j],
    ensures
        bytes_le(a, b) == bytes_le(a.skip(i), b.skip(i)),
    decreases i,
{
    if i == 0 {
        assert(a.skip(0) =~= a);
        assert(b.skip(0) =~= b);
    } else {
        assert(a.len() > 0 && b.len() > 0 && a[0] == b[0]);
        lemma_bytes_le_skip(a.drop_first(), b.drop_first(), i - 1);
        assert(a.drop_first().skip(i - 1) =~= a.skip(i));
        assert(b.drop_first().skip(i - 1) =~= b.skip(i));
    }
}

/// Decide the string order executably, comparing UTF-8 bytes.
pub fn str_le_exec(a: &str, b: &str) -> (r: bool)
    ensures
        r == str_le(a@, b@),
{
    let ab = a.as_bytes();
    let bb = b.as_bytes();
    let mut i: usize = 0;
    loop
        invariant
            i <= ab@.len(),
            i <= bb@.len(),
            forall|j: int| 0 <= j < i ==> ab@[j] == bb@[j],
            ab@ == encode_utf8(a@),
            bb@ == encode_utf8(b@),
        decreases ab@.len() - i,
    {
        if i >= ab.len() {
            proof {
                lemma_bytes_le_skip(ab@, bb@, i as int);
                assert(ab@.skip(i as int).len() == 0);
            }
            return true;
        }
        if i >= bb.len() {
            proof {
                lemma_bytes_le_skip(ab@, bb@, i as int);
                assert(ab@.skip(i as int).len() > 0);
                assert(bb@.skip(i as int).len() == 0);
            }
            return false;
        }
        let x = *vstd::slice::slice_index_get(ab, i);
        let y = *vstd::slice::slice_index_get(bb, i);
        if x < y {
            proof {
                lemma_bytes_le_skip(ab@, bb@, i as int);
                assert(ab@.skip(i as int)[0] == x);
                assert(bb@.skip(i as int)[0] == y);
            }
            return true;
        }
        if x > y {
            proof {
                lemma_bytes_le_skip(ab@, bb@, i as int);
                assert(ab@.skip(i as int)[0] == x);
                assert(bb@.skip(i as int)[0] == y);
            }
            return false;
        }
        i = i + 1;
    }
}

// ------------------------------------------------------------------
// Sorting participant addresses
// ------------------------------------------------------------------

/// Inserting an element anywhere adds it to the sequence's multiset.
proof fn lemma_to_multiset_insert<A>(s: Seq<A>, j: int, x: A)
    requires
        0 <= j <= s.len(),
    ensures
        s.insert(j, x).to_multiset() == s.to_multiset().insert(x),
{
    broadcast use vstd::seq_lib::group_to_multiset_ensures;

    let single = seq![x];
    assert(single =~= Seq::<A>::empty().push(x));
    assert(single.to_multiset() =~= Seq::<A>::empty().to_multiset().insert(x));
    assert forall|y: A| Seq::<A>::empty().to_multiset().count(y) == 0 by {
        assert(!Seq::<A>::empty().contains(y));
    }
    assert(Seq::<A>::empty().to_multiset() =~= Multiset::<A>::empty());
    assert(s.insert(j, x) =~= s.take(j) + (single + s.skip(j)));
    lemma_multiset_commutative(s.take(j), single + s.skip(j));
    lemma_multiset_commutative(single, s.skip(j));
    assert(s =~= s.take(j) + s.skip(j));
    lemma_multiset_commutative(s.take(j), s.skip(j));
    assert(s.insert(j, x).to_multiset() =~= s.to_multiset().insert(x));
}

/// Insert one address into an already sorted list, keeping it sorted.
fn insert_sorted(out: &mut Vec<String>, s: String)
    requires
        sorted_by(old(out).deep_view(), str_leq_fn()),
    ensures
        sorted_by(final(out).deep_view(), str_leq_fn()),
        final(out).deep_view().to_multiset() == old(out).deep_view().to_multiset().insert(s@),
{
    proof {
        lemma_str_le_total_ordering();
    }
    let ghost dv = out.deep_view();
    let mut j: usize = 0;
    loop
        invariant
            j <= out@.len(),
            out.deep_view() == dv,
            dv.len() == out@.len(),
            forall|k: int| 0 <= k < out@.len() ==> dv[k] == out@[k]@,
            sorted_by(dv, str_leq_fn()),
            forall|k: int| 0 <= k < j ==> str_le(#[trigger] dv[k], s@),
        ensures
            j <= out@.len(),
            forall|k: int| 0 <= k < j ==> str_le(#[trigger] dv[k], s@),
            forall|k: int| j <= k < out@.len() ==> str_le(s@, #[trigger] dv[k]),
        decreases out@.len() - j,
    {
        if j >= out.len() {
            break;
        }
        if !str_le_exec(out[j].as_str(), s.as_str()) {
            proof {
                lemma_bytes_le_total(encode_utf8(dv[j as int]), encode_utf8(s@));
                assert(str_le(s@, dv[j as int]));
                assert forall|k: int| j <= k < out@.len() implies str_le(
                    s@,
                    #[trigger] dv[k],
                ) by {
                    if k > j {
                        assert(str_leq_fn()(dv[j as int], dv[k]));
                        assert(str_le(dv[j as int], dv[k]));
                        lemma_bytes_le_trans(
                            encode_utf8(s@),
                            encode_utf8(dv[j as int]),
                            encode_utf8(dv[k]),
                        );
                    }
                }
            }
            break;
        }
        j = j + 1;
    }
    let ghost pre = out.deep_view();
    out.insert(j, s);
    proof {
        assert(out.deep_view() =~= pre.insert(j as int, s@));
        lemma_to_multiset_insert(pre, j as int, s@);
        let newv = out.deep_view();
        assert forall|p: int, q: int| 0 <= p < q < newv.len() implies str_leq_fn()(
            newv[p],
            newv[q],
        ) by {
            lemma_str_le_total_ordering();
            if q < j {
                assert(str_leq_fn()(pre[p], pre[q]));
            } else if p < j && q == j {
                assert(str_le(pre[p], s@));
            } else if p < j && q > j {
                assert(str_leq_fn()(pre[p], pre[q - 1]));
            } else if p == j {
                assert(str_le(s@, pre[q - 1]));
            } else {
                assert(str_leq_fn()(pre[p - 1], pre[q - 1]));
            }
        }
    }
}

/// Sort the participant addresses into the canonical order.
pub fn sorted_participants(participants: Vec<String>) -> (r: Vec<String>)
    ensures
        r.deep_view() == participants.deep_view().sort_by(str_leq_fn()),
{
    let ghost target = participants.deep_view().sort_by(str_leq_fn());
    let mut out: Vec<String> = Vec::new();
    proof {
        broadcast use vstd::seq_lib::group_to_multiset_ensures;

        assert(out.deep_view() =~= Seq::<Seq<char>>::empty());
        assert(participants.deep_view().take(0) =~= Seq::<Seq<char>>::empty());
    }
    let mut i: usize = 0;
    while i < participants.len()
        invariant
            i <= participants@.len(),
            participants.deep_view().len() == participants@.len(),
            forall|k: int| 0 <= k < participants@.len() ==> participants.deep_view()[k]
                == participants@[k]@,
            sorted_by(out.deep_view(), str_leq_fn()),
            out.deep_view().to_multiset() == participants.deep_view().take(
                i as int,
            ).to_multiset(),
        decreases participants@.len() - i,
    {
        let s = participants[i].clone();
        let ghost pre = out.deep_view();
        insert_sorted(&mut out, s);
        proof {
            broadcast use vstd::seq_lib::group_to_multiset_ensures;

            let dv = participants.deep_view();
            assert(dv.take(i + 1) =~= dv.take(i as int).push(dv[i as int]));
            assert(dv.take(i + 1).to_multiset() =~= dv.take(i as int).to_multiset().insert(
                dv[i as int],
            ));
        }
        i = i + 1;
    }
    proof {
        lemma_str_le_total_ordering();
        let dv = participants.deep_view();
        assert(dv.take(participants@.len() as int) =~= dv);
        dv.lemma_sort_by_ensures(str_leq_fn());
        lemma_sorted_unique(out.deep_view(), target, str_leq_fn());
        assert(out.deep_view() =~= target);
    }
    out
}

// ------------------------------------------------------------------
// Topic strings
// ------------------------------------------------------------------

/// Join addresses with the `|` separator.
pub open spec fn spec_join_pipe(v: Seq<Seq<char>>) -> Seq<char>
    decreases v.len(),
{
    if v.len() == 0 {
        Seq::empty()
    } else if v.len() == 1 {
        v[0]
    } else {
        v[0] + seq!['|'] + spec_join_pipe(v.drop_first())
    }
}

/// The deterministic identifier of the private conversation over the given
/// addresses: the sorted addresses joined with `|` under `/private/`.
pub open spec fn spec_private_topic(addrs: Seq<Seq<char>>) -> Seq<char> {
    "/private/"@ + spec_join_pipe(addrs.sort_by(str_leq_fn()))
}

/// The deterministic inbox identifier of an address.
pub open spec fn spec_inbox_topic(addr: Seq<char>) -> Seq<char> {
    "/inbox/"@ + addr
}

/// Joining one more address appends a separator and the address.
pub proof fn lemma_join_pipe_snoc(v: Seq<Seq<char>>, i: int)
    requires
        1 <= i < v.len(),
    ensures
        spec_join_pipe(v.take(i + 1)) == spec_join_pipe(v.take(i)) + seq!['|'] + v[i],
    decreases i,
{
    if i == 1 {
        assert(v.take(2).drop_first() =~= seq![v[1]]);
        assert(v.take(1) =~= seq![v[0]]);
        assert(v.take(2).len() == 2);
        assert(v.take(2)[0] == v[0]);
        assert(spec_join_pipe(seq![v[1]]) == v[1]);
        assert(spec_join_pipe(v.take(2)) == v.take(2)[0] + seq!['|'] + spec_join_pipe(
            v.take(2).drop_first(),
        ));
        assert(spec_join_pipe(v.take(1)) == v[0]);
        assert(spec_join_pipe(v.take(2)) =~= spec_join_pipe(v.take(1)) + seq!['|'] + v[1]);
    } else {
        let w = v.drop_first();
        lemma_join_pipe_snoc(w, i - 1);
        assert(v.take(i + 1).drop_first() =~= w.take(i));
        assert(v.take(i).drop_first() =~= w.take(i - 1));
        assert(v.take(i + 1).len() == i + 1);
        assert(spec_join_pipe(v.take(i + 1)) == v[0] + seq!['|'] + spec_join_pipe(w.take(i)));
        assert(spec_join_pipe(v.take(i)) == v[0] + seq!['|'] + spec_join_pipe(w.take(i - 1)));
        assert(spec_join_pipe(v.take(i + 1)) =~= spec_join_pipe(v.take(i)) + seq!['|'] + v[i]);
    }
}

/// Compute the private conversation identifier of the given participants.
pub fn topic_private_convo(addrs: Vec<String>) -> (r: String)
    ensures
        r@ == spec_private_topic(addrs.deep_view()),
{
    let sorted = sorted_participants(addrs);
    let ghost sv = sorted.deep_view();
    let mut topic = String::from_str("/private/");
    let mut i: usize = 0;
    while i < sorted.len()
        invariant
            i <= sorted@.len(),
            sv == sorted.deep_view(),
            sv.len() == sorted@.len(),
            forall|k: int| 0 <= k < sorted@.len() ==> sv[k] == sorted@[k]@,
            i == 0 ==> topic@ == "/private/"@,
            i > 0 ==> topic@ == "/private/"@ + spec_join_pipe(sv.take(i as int)),
        decreases sorted@.len() - i,
    {
        if i > 0 {
            topic.append("|");
            proof {
                reveal_strlit("|");
                assert("|"@ =~= seq!['|']);
            }
        }
        topic.append(sorted[i].as_str());
        proof {
            if i == 0 {
                assert(sv.take(1) =~= seq![sv[0]]);
                assert(spec_join_pipe(sv.take(1)) == sv[0]);
            } else {
                lemma_join_pipe_snoc(sv, i as int);
            }
            assert(topic@ =~= "/private/"@ + spec_join_pipe(sv.take(i + 1)));
        }
        i = i + 1;
    }
    proof {
        if sorted@.len() == 0 {
            assert(spec_join_pipe(sv.take(0)) =~= Seq::<char>::empty());
            assert(topic@ =~= "/private/"@ + spec_join_pipe(sv));
        } else {
            assert(sv.take(sorted@.len() as int) =~= sv);
        }
    }
    topic
}

/// Compute the inbox identifier of an address.
pub fn topic_inbox_convo(addr: &str) -> (r: String)
    ensures
        r@ == spec_inbox_topic(addr@),
{
    let mut topic = String::from_str("/inbox/");
    topic.append(addr);
    topic
}

// ------------------------------------------------------------------
// Law: the private identifier is symmetric in the two addresses.
// ------------------------------------------------------------------

/// Sorting leaves an already sorted address list unchanged.
proof fn lemma_sort_of_sorted(v: Seq<Seq<char>>)
    requires
        sorted_by(v, str_leq_fn()),
    ensures
        v.sort_by(str_leq_fn()) == v,
{
    lemma_str_le_total_ordering();
    v.lemma_sort_by_ensures(str_leq_fn());
    lemma_sorted_unique(v.sort_by(str_leq_fn()), v, str_leq_fn());
}

/// Sorting a second time changes nothing.
pub proof fn lemma_sort_idempotent(v: Seq<Seq<char>>)
    ensures
        v.sort_by(str_leq_fn()).sort_by(str_leq_fn()) == v.sort_by(str_leq_fn()),
{
    lemma_str_le_total_ordering();
    v.lemma_sort_by_ensures(str_leq_fn());
    lemma_sort_of_sorted(v.sort_by(str_leq_fn()));
}

/// The sorted order of two addresses is one of the two listings.
pub proof fn lemma_sort_pair(a: Seq<char>, b: Seq<char>)
    ensures
        seq![a, b].sort_by(str_leq_fn()) == seq![a, b] || seq![a, b].sort_by(str_leq_fn())
            == seq![b, a],
{
    broadcast use vstd::seq_lib::group_to_multiset_ensures;

    lemma_str_le_total_ordering();
    let leq = str_leq_fn();
    let v = seq![a, b];
    v.lemma_sort_by_ensures(leq);
    lemma_bytes_le_total(encode_utf8(a), encode_utf8(b));
    if str_le(a, b) {
        assert(leq(a, b));
        assert forall|i: int, j: int| 0 <= i < j < v.len() implies leq(v[i], v[j]) by {
            assert(i == 0 && j == 1);
        }
        lemma_sorted_unique(v.sort_by(leq), v, leq);
    } else {
        assert(str_le(b, a));
        assert(leq(b, a));
        let w = seq![b, a];
        assert forall|i: int, j: int| 0 <= i < j < w.len() implies leq(w[i], w[j]) by {
            assert(i == 0 && j == 1);
        }
        assert(v =~= Seq::<Seq<char>>::empty().push(a).push(b));
        assert(w =~= Seq::<Seq<char>>::empty().push(b).push(a));
        assert(Seq::<Seq<char>>::empty().push(a).to_multiset() =~= Seq::<
            Seq<char>,
        >::empty().to_multiset().insert(a));
        assert(Seq::<Seq<char>>::empty().push(b).to_multiset() =~= Seq::<
            Seq<char>,
        >::empty().to_multiset().insert(b));
        assert(v.to_multiset() =~= w.to_multiset());
        lemma_sorted_unique(v.sort_by(leq), w, leq);
    }
}

/// A private identifier can never equal an inbox identifier: the
/// namespaces differ.
pub proof fn lemma_topics_disjoint(addrs: Seq<Seq<char>>, addr: Seq<char>)
    ensures
        spec_private_topic(addrs) != spec_inbox_topic(addr),
{
    reveal_strlit("/private/");
    reveal_strlit("/inbox/");
    assert(spec_private_topic(addrs)[1] == 'p');
    assert(spec_inbox_topic(addr)[1] == 'i');
}

/// Law: both peers of a pair compute the same private conversation
/// identifier, whichever way round they list the two addresses.
pub proof fn lemma_conversation_id_symmetric(a: Seq<char>, b: Seq<char>)
    ensures
        spec_private_topic(seq![a, b]) == spec_private_topic(seq![b, a]),
{
    broadcast use vstd::seq_lib::group_to_multiset_ensures;

    lemma_str_le_total_ordering();
    let leq = str_leq_fn();
    let ab = seq![a, b];
    let ba = seq![b, a];
    ab.lemma_sort_by_ensures(leq);
    ba.lemma_sort_by_ensures(leq);
    assert(ab =~= Seq::<Seq<char>>::empty().push(a).push(b));
    assert(ba =~= Seq::<Seq<char>>::empty().push(b).push(a));
    assert(Seq::<Seq<char>>::empty().push(a).to_multiset() =~= Seq::<
        Seq<char>,
    >::empty().to_multiset().insert(a));
    assert(ab.to_multiset() =~= ba.to_multiset());
    lemma_sorted_unique(ab.sort_by(leq), ba.sort_by(leq), leq);
    assert(ab.sort_by(leq) =~= ba.sort_by(leq));
}

} // verus!
