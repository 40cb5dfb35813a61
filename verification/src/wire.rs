//! Byte-level primitives of the wire format.
//!
//! Every field of the schema is laid down by one of four primitives: a
//! little-endian `u32`, a little-endian `u64`, a length-prefixed byte string,
//! or a length-prefixed UTF-8 string. Lists carry a `u64` element count in
//! front. Each primitive comes with a specification-level encoder, a
//! specification-level decoder over the remaining suffix, executable
//! counterparts proved against them, and a round-trip lemma.

use vstd::prelude::*;
use vstd::bytes::*;
use vstd::utf8::*;
use crate::error::UmbraError;

verus! {

// ------------------------------------------------------------------
// Specification-level encoders
// ------------------------------------------------------------------

pub open spec fn enc_u8(x: u8) -> Seq<u8> {
    seq![x]
}

pub open spec fn enc_u32(x: u32) -> Seq<u8> {
    spec_u32_to_le_bytes(x)
}

pub open spec fn enc_u64(x: u64) -> Seq<u8> {
    spec_u64_to_le_bytes(x)
}

/// A byte string fits on the wire when its length fits the `u64` prefix.
pub open spec fn bytes_wf(b: Seq<u8>) -> bool {
    b.len() <= u64::MAX
}

pub open spec fn enc_bytes(b: Seq<u8>) -> Seq<u8> {
    enc_u64(b.len() as u64) + b
}

/// A character string fits on the wire when its UTF-8 form does.
pub open spec fn str_wf(s: Seq<char>) -> bool {
    bytes_wf(encode_utf8(s))
}

pub open spec fn enc_str(s: Seq<char>) -> Seq<u8> {
    enc_bytes(encode_utf8(s))
}

pub open spec fn enc_str_list_items(v: Seq<Seq<char>>) -> Seq<u8>
    decreases v.len(),
{
    if v.len() == 0 {
        Seq::empty()
    } else {
        enc_str(v[0]) + enc_str_list_items(v.drop_first())
    }
}

pub open spec fn str_list_wf(v: Seq<Seq<char>>) -> bool {
    &&& v.len() <= u64::MAX
    &&& forall|i: int| 0 <= i < v.len() ==> str_wf(#[trigger] v[i])
}

pub open spec fn enc_str_list(v: Seq<Seq<char>>) -> Seq<u8> {
    enc_u64(v.len() as u64) + enc_str_list_items(v)
}

// ------------------------------------------------------------------
// Specification-level decoders
//
// A decoder takes the bytes not yet consumed and yields the decoded value
// together with the suffix that remains, or nothing when the bytes are
// malformed.
// ------------------------------------------------------------------

pub open spec fn dec_u8(s: Seq<u8>) -> Option<(u8, Seq<u8>)> {
    if s.len() >= 1 {
        Some((s[0], s.skip(1)))
    } else {
        None
    }
}

pub open spec fn dec_u32(s: Seq<u8>) -> Option<(u32, Seq<u8>)> {
    if s.len() >= 4 {
        Some((spec_u32_from_le_bytes(s.take(4)), s.skip(4)))
    } else {
        None
    }
}

pub open spec fn dec_u64(s: Seq<u8>) -> Option<(u64, Seq<u8>)> {
    if s.len() >= 8 {
        Some((spec_u64_from_le_bytes(s.take(8)), s.skip(8)))
    } else {
        None
    }
}

pub open spec fn dec_bytes(s: Seq<u8>) -> Option<(Seq<u8>, Seq<u8>)> {
    match dec_u64(s) {
        Some((n, r)) => {
            if n <= r.len() {
                Some((r.take(n as int), r.skip(n as int)))
            } else {
                None
            }
        },
        None => None,
    }
}

pub open spec fn dec_str(s: Seq<u8>) -> Option<(Seq<char>, Seq<u8>)> {
    match dec_bytes(s) {
        Some((b, r)) => {
            if valid_utf8(b) {
                Some((decode_utf8(b), r))
            } else {
                None
            }
        },
        None => None,
    }
}

/// Prefixes already-decoded items onto the outcome of decoding the rest.
pub open spec fn prepend_items(
    pre: Seq<Seq<char>>,
    o: Option<(Seq<Seq<char>>, Seq<u8>)>,
) -> Option<(Seq<Seq<char>>, Seq<u8>)> {
    match o {
        Some((v, rem)) => Some((pre + v, rem)),
        None => None,
    }
}

pub open spec fn dec_str_list_items(s: Seq<u8>, n: nat) -> Option<(Seq<Seq<char>>, Seq<u8>)>
    decreases n,
{
    if n == 0 {
        Some((Seq::empty(), s))
    } else {
        match dec_str(s) {
            Some((x, r)) => prepend_items(seq![x], dec_str_list_items(r, (n - 1) as nat)),
            None => None,
        }
    }
}

pub open spec fn dec_str_list(s: Seq<u8>) -> Option<(Seq<Seq<char>>, Seq<u8>)> {
    match dec_u64(s) {
        Some((n, r)) => dec_str_list_items(r, n as nat),
        None => None,
    }
}

/// UTF-8 encoding distributes over concatenation.
pub proof fn lemma_encode_utf8_app(a: Seq<char>, b: Seq<char>)
    ensures
        encode_utf8(a + b) == encode_utf8(a) + encode_utf8(b),
    decreases a.len(),
{
    if a.len() == 0 {
        assert(a + b =~= b);
        assert(encode_utf8(a) + encode_utf8(b) =~= encode_utf8(b));
    } else {
        assert((a + b)[0] == a[0]);
        assert((a + b).drop_first() =~= a.drop_first() + b);
        lemma_encode_utf8_app(a.drop_first(), b);
        assert(encode_utf8(a + b) =~= encode_utf8(a) + encode_utf8(b));
    }
}

// ------------------------------------------------------------------
// Round-trip lemmas: decoding an encoding in front of any suffix yields
// the encoded value and that suffix.
// ------------------------------------------------------------------

pub proof fn lemma_u8_round_trip(x: u8, rest: Seq<u8>)
    ensures
        dec_u8(enc_u8(x) + rest) == Some((x, rest)),
{
    let s = enc_u8(x) + rest;
    assert(s[0] == x);
    assert(s.skip(1) =~= rest);
}

pub proof fn lemma_u32_round_trip(x: u32, rest: Seq<u8>)
    ensures
        dec_u32(enc_u32(x) + rest) == Some((x, rest)),
{
    lemma_auto_spec_u32_to_from_le_bytes();
    let s = enc_u32(x) + rest;
    assert(s.take(4) =~= enc_u32(x));
    assert(s.skip(4) =~= rest);
}

pub proof fn lemma_u64_round_trip(x: u64, rest: Seq<u8>)
    ensures
        dec_u64(enc_u64(x) + rest) == Some((x, rest)),
{
    lemma_auto_spec_u64_to_from_le_bytes();
    let s = enc_u64(x) + rest;
    assert(s.take(8) =~= enc_u64(x));
    assert(s.skip(8) =~= rest);
}

pub proof fn lemma_bytes_round_trip(b: Seq<u8>, rest: Seq<u8>)
    requires
        bytes_wf(b),
    ensures
        dec_bytes(enc_bytes(b) + rest) == Some((b, rest)),
{
    let s = enc_bytes(b) + rest;
    assert(s =~= enc_u64(b.len() as u64) + (b + rest));
    lemma_u64_round_trip(b.len() as u64, b + rest);
    let r = b + rest;
    assert(r.take(b.len() as int) =~= b);
    assert(r.skip(b.len() as int) =~= rest);
}

pub proof fn lemma_str_round_trip(t: Seq<char>, rest: Seq<u8>)
    requires
        str_wf(t),
    ensures
        dec_str(enc_str(t) + rest) == Some((t, rest)),
{
    broadcast use encode_utf8_valid_utf8;
    broadcast use encode_utf8_decode_utf8;

    lemma_bytes_round_trip(encode_utf8(t), rest);
}

pub proof fn lemma_str_list_items_round_trip(v: Seq<Seq<char>>, rest: Seq<u8>)
    requires
        forall|i: int| 0 <= i < v.len() ==> str_wf(#[trigger] v[i]),
    ensures
        dec_str_list_items(enc_str_list_items(v) + rest, v.len()) == Some((v, rest)),
    decreases v.len(),
{
    if v.len() == 0 {
        assert(enc_str_list_items(v) + rest =~= rest);
    } else {
        let tail = v.drop_first();
        let s = enc_str_list_items(v) + rest;
        assert(s =~= enc_str(v[0]) + (enc_str_list_items(tail) + rest));
        lemma_str_round_trip(v[0], enc_str_list_items(tail) + rest);
        lemma_str_list_items_round_trip(tail, rest);
        assert(seq![v[0]] + tail =~= v);
    }
}

pub proof fn lemma_str_list_round_trip(v: Seq<Seq<char>>, rest: Seq<u8>)
    requires
        str_list_wf(v),
    ensures
        dec_str_list(enc_str_list(v) + rest) == Some((v, rest)),
{
    let s = enc_str_list(v) + rest;
    assert(s =~= enc_u64(v.len() as u64) + (enc_str_list_items(v) + rest));
    lemma_u64_round_trip(v.len() as u64, enc_str_list_items(v) + rest);
    lemma_str_list_items_round_trip(v, rest);
}

// ------------------------------------------------------------------
// Executable encoders: each appends one field to an output buffer.
// ------------------------------------------------------------------

pub fn write_u8(buf: &mut Vec<u8>, x: u8)
    ensures
        final(buf)@ == old(buf)@ + enc_u8(x),
{
    buf.push(x);
    proof {
        assert(buf@ =~= old(buf)@ + enc_u8(x));
    }
}

pub fn write_u32(buf: &mut Vec<u8>, x: u32)
    ensures
        final(buf)@ == old(buf)@ + enc_u32(x),
{
    let mut b = u32_to_le_bytes(x);
    buf.append(&mut b);
}

pub fn write_u64(buf: &mut Vec<u8>, x: u64)
    ensures
        final(buf)@ == old(buf)@ + enc_u64(x),
{
    let mut b = u64_to_le_bytes(x);
    buf.append(&mut b);
}

pub fn write_bytes(buf: &mut Vec<u8>, b: &[u8])
    ensures
        final(buf)@ == old(buf)@ + enc_bytes(b@),
        bytes_wf(b@),
{
    let n = b.len();
    write_u64(buf, n as u64);
    let mut c = vstd::slice::slice_to_vec(b);
    buf.append(&mut c);
    proof {
        assert(buf@ =~= old(buf)@ + enc_bytes(b@));
    }
}

pub fn write_str(buf: &mut Vec<u8>, s: &str)
    ensures
        final(buf)@ == old(buf)@ + enc_str(s@),
        str_wf(s@),
{
    let b = s.as_bytes();
    write_bytes(buf, b);
}

pub fn write_str_list(buf: &mut Vec<u8>, v: &Vec<String>)
    ensures
        final(buf)@ == old(buf)@ + enc_str_list(v.deep_view()),
        str_list_wf(v.deep_view()),
{
    let ghost dv = v.deep_view();
    proof {
        assert(dv.len() == v@.len());
        assert(forall|j: int| 0 <= j < v@.len() ==> dv[j] == v@[j]@);
    }
    write_u64(buf, v.len() as u64);
    let mut i: usize = 0;
    while i < v.len()
        invariant
            0 <= i <= v@.len(),
            dv == v.deep_view(),
            dv.len() == v@.len(),
            forall|j: int| 0 <= j < v@.len() ==> dv[j] == v@[j]@,
            buf@ == old(buf)@ + enc_u64(v@.len() as u64) + enc_str_list_items(dv.take(i as int)),
            forall|j: int| 0 <= j < i ==> str_wf(#[trigger] dv[j]),
        decreases v@.len() - i,
    {
        write_str(buf, v[i].as_str());
        proof {
            lemma_enc_str_list_items_snoc(dv, i as int);
            assert(buf@ =~= old(buf)@ + enc_u64(v@.len() as u64) + enc_str_list_items(
                dv.take(i + 1),
            ));
        }
        i = i + 1;
    }
    proof {
        assert(dv.take(v@.len() as int) =~= dv);
        assert(buf@ =~= old(buf)@ + enc_str_list(dv));
    }
}

/// The encoded run of a single element.
proof fn lemma_enc_str_list_items_singleton(x: Seq<char>)
    ensures
        enc_str_list_items(seq![x]) == enc_str(x),
{
    let v = seq![x];
    assert(v.drop_first() =~= Seq::<Seq<char>>::empty());
    assert(enc_str_list_items(v.drop_first()) =~= Seq::<u8>::empty());
    assert(enc_str_list_items(v) =~= enc_str(x));
}

/// Encoding distributes over concatenation of item lists.
pub proof fn lemma_enc_str_list_items_app(a: Seq<Seq<char>>, b: Seq<Seq<char>>)
    ensures
        enc_str_list_items(a + b) == enc_str_list_items(a) + enc_str_list_items(b),
    decreases a.len(),
{
    if a.len() == 0 {
        assert(a + b =~= b);
        assert(enc_str_list_items(a) =~= Seq::<u8>::empty());
        assert(enc_str_list_items(a) + enc_str_list_items(b) =~= enc_str_list_items(b));
    } else {
        assert((a + b).drop_first() =~= a.drop_first() + b);
        assert((a + b)[0] == a[0]);
        assert((a + b).len() > 0);
        lemma_enc_str_list_items_app(a.drop_first(), b);
        assert(enc_str_list_items(a + b) == enc_str(a[0]) + enc_str_list_items(
            a.drop_first() + b,
        ));
        assert(enc_str_list_items(a + b) =~= enc_str_list_items(a) + enc_str_list_items(b));
    }
}

/// Taking one more element extends the encoded item run by that element.
proof fn lemma_enc_str_list_items_snoc(v: Seq<Seq<char>>, i: int)
    requires
        0 <= i < v.len(),
    ensures
        enc_str_list_items(v.take(i + 1)) == enc_str_list_items(v.take(i)) + enc_str(v[i]),
{
    assert(v.take(i + 1) =~= v.take(i) + seq![v[i]]);
    lemma_enc_str_list_items_app(v.take(i), seq![v[i]]);
    lemma_enc_str_list_items_singleton(v[i]);
}

// ------------------------------------------------------------------
// Executable decoders: each reads one field at a position and returns the
// value with the position after it, exactly as the specification decoder
// does on the suffix starting there.
// ------------------------------------------------------------------

pub fn read_u8(s: &[u8], pos: usize) -> (r: Result<(u8, usize), UmbraError>)
    requires
        pos <= s@.len(),
    ensures
        match dec_u8(s@.skip(pos as int)) {
            Some((v, rem)) => (r matches Ok((x, end)) && x == v && pos <= end <= s@.len()
                && s@.skip(end as int) == rem),
            None => r matches Err(UmbraError::DecodingError(_)),
        },
{
    if s.len() - pos >= 1 {
        let x = *vstd::slice::slice_index_get(s, pos);
        proof {
            assert(s@.skip(pos as int)[0] == s@[pos as int]);
            assert(s@.skip(pos + 1) =~= s@.skip(pos as int).skip(1));
        }
        Ok((x, pos + 1))
    } else {
        Err(UmbraError::DecodingError(cut_short()))
    }
}

pub fn read_u32(s: &[u8], pos: usize) -> (r: Result<(u32, usize), UmbraError>)
    requires
        pos <= s@.len(),
    ensures
        match dec_u32(s@.skip(pos as int)) {
            Some((v, rem)) => (r matches Ok((x, end)) && x == v && pos <= end <= s@.len()
                && s@.skip(end as int) == rem),
            None => r matches Err(UmbraError::DecodingError(_)),
        },
{
    if s.len() - pos >= 4 {
        let sub = vstd::slice::slice_subrange(s, pos, pos + 4);
        let x = u32_from_le_bytes(sub);
        proof {
            assert(sub@ =~= s@.skip(pos as int).take(4));
            assert(s@.skip(pos + 4) =~= s@.skip(pos as int).skip(4));
        }
        Ok((x, pos + 4))
    } else {
        Err(UmbraError::DecodingError(cut_short()))
    }
}

pub fn read_u64(s: &[u8], pos: usize) -> (r: Result<(u64, usize), UmbraError>)
    requires
        pos <= s@.len(),
    ensures
        match dec_u64(s@.skip(pos as int)) {
            Some((v, rem)) => (r matches Ok((x, end)) && x == v && pos <= end <= s@.len()
                && s@.skip(end as int) == rem),
            None => r matches Err(UmbraError::DecodingError(_)),
        },
{
    if s.len() - pos >= 8 {
        let sub = vstd::slice::slice_subrange(s, pos, pos + 8);
        let x = u64_from_le_bytes(sub);
        proof {
            assert(sub@ =~= s@.skip(pos as int).take(8));
            assert(s@.skip(pos + 8) =~= s@.skip(pos as int).skip(8));
        }
        Ok((x, pos + 8))
    } else {
        Err(UmbraError::DecodingError(cut_short()))
    }
}

pub fn read_bytes(s: &[u8], pos: usize) -> (r: Result<(Vec<u8>, usize), UmbraError>)
    requires
        pos <= s@.len(),
    ensures
        match dec_bytes(s@.skip(pos as int)) {
            Some((v, rem)) => (r matches Ok((x, end)) && x@ == v && pos <= end <= s@.len()
                && s@.skip(end as int) == rem),
            None => r matches Err(UmbraError::DecodingError(_)),
        },
{
    let (n, p1) = match read_u64(s, pos) {
        Ok(t) => t,
        Err(e) => {
            return Err(e);
        },
    };
    if n > (s.len() - p1) as u64 {
        return Err(UmbraError::DecodingError(cut_short()));
    }
    let k = n as usize;
    let sub = vstd::slice::slice_subrange(s, p1, p1 + k);
    let v = vstd::slice::slice_to_vec(sub);
    proof {
        let tail = s@.skip(pos as int);
        let nn = dec_u64(tail).unwrap().0;
        let rem1 = dec_u64(tail).unwrap().1;
        assert(rem1 == s@.skip(p1 as int));
        assert(v@ =~= rem1.take(nn as int));
        assert(s@.skip(p1 + k) =~= rem1.skip(nn as int));
    }
    Ok((v, p1 + k))
}

pub fn read_str(s: &[u8], pos: usize) -> (r: Result<(String, usize), UmbraError>)
    requires
        pos <= s@.len(),
    ensures
        match dec_str(s@.skip(pos as int)) {
            Some((v, rem)) => (r matches Ok((x, end)) && x@ == v && pos <= end <= s@.len()
                && s@.skip(end as int) == rem),
            None => r matches Err(UmbraError::DecodingError(_)),
        },
{
    let (b, p1) = match read_bytes(s, pos) {
        Ok(t) => t,
        Err(e) => {
            return Err(e);
        },
    };
    match bytes_to_string(b) {
        Some(t) => Ok((t, p1)),
        None => Err(UmbraError::DecodingError(cut_short())),
    }
}

pub fn read_str_list(s: &[u8], pos: usize) -> (r: Result<(Vec<String>, usize), UmbraError>)
    requires
        pos <= s@.len(),
    ensures
        match dec_str_list(s@.skip(pos as int)) {
            Some((v, rem)) => (r matches Ok((x, end)) && x.deep_view() == v && pos <= end
                <= s@.len() && s@.skip(end as int) == rem),
            None => r matches Err(UmbraError::DecodingError(_)),
        },
{
    let (n, p1) = match read_u64(s, pos) {
        Ok(t) => t,
        Err(e) => {
            return Err(e);
        },
    };
    let mut out: Vec<String> = Vec::new();
    let mut p = p1;
    let mut i: u64 = 0;
    proof {
        assert(out.deep_view() =~= Seq::<Seq<char>>::empty());
    }
    loop
        invariant
            i <= n,
            pos <= p1 <= p <= s@.len(),
            out.deep_view().len() == i,
            dec_str_list(s@.skip(pos as int)) == dec_str_list_items(
                s@.skip(p1 as int),
                n as nat,
            ),
            dec_str_list_items(s@.skip(p1 as int), n as nat) == prepend_items(
                out.deep_view(),
                dec_str_list_items(s@.skip(p as int), (n - i) as nat),
            ),
        ensures
            match dec_str_list_items(s@.skip(p1 as int), n as nat) {
                Some((v, rem)) => out.deep_view() == v && p1 <= p <= s@.len() && s@.skip(
                    p as int,
                ) == rem,
                None => false,
            },
        decreases n - i,
    {
        if i == n {
            proof {
                let o = dec_str_list_items(s@.skip(p as int), 0);
                assert(o == Some::<(Seq<Seq<char>>, Seq<u8>)>((Seq::empty(), s@.skip(p as int))));
                assert(out.deep_view() + Seq::<Seq<char>>::empty() =~= out.deep_view());
            }
            break;
        }
        let (t, p2) = match read_str(s, p) {
            Ok(t) => t,
            Err(e) => {
                proof {
                    assert(dec_str_list_items(s@.skip(p as int), (n - i) as nat) is None);
                }
                return Err(e);
            },
        };
        let ghost pre = out.deep_view();
        out.push(t);
        proof {
            let x = dec_str(s@.skip(p as int)).unwrap().0;
            let r1 = dec_str(s@.skip(p as int)).unwrap().1;
            assert(out.deep_view() =~= pre.push(x));
            assert(r1 == s@.skip(p2 as int));
            let inner = dec_str_list_items(r1, (n - i - 1) as nat);
            assert(dec_str_list_items(s@.skip(p as int), (n - i) as nat) == prepend_items(
                seq![x],
                inner,
            ));
            if inner is Some {
                let xs = inner.unwrap().0;
                assert(pre + (seq![x] + xs) =~= pre.push(x) + xs);
            }
            assert(prepend_items(pre, prepend_items(seq![x], inner)) == prepend_items(
                pre.push(x),
                inner,
            ));
        }
        p = p2;
        i = i + 1;
    }
    Ok((out, p))
}

// ------------------------------------------------------------------
// Trusted boundary
// ------------------------------------------------------------------

/// Relies on `String::from_utf8`: it returns a string over exactly the given
/// bytes when they are valid UTF-8, and refuses them otherwise.
#[verifier::external_body]
fn bytes_to_string(v: Vec<u8>) -> (r: Option<String>)
    ensures
        match r {
            Some(t) => valid_utf8(v@) && t@ == decode_utf8(v@),
            None => !valid_utf8(v@),
        },
{
    match String::from_utf8(v) {
        Ok(t) => Some(t),
        Err(_) => None,
    }
}

/// The message carried by every truncation or corruption error of this layer.
fn cut_short() -> String {
    String::from_str("malformed wire bytes")
}

} // verus!
