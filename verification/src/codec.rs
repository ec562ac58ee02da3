//! Envelope codec: the byte format of an authenticated bundle of protocol
//! messages.
//!
//! A bundle is the sender's verification key followed by a counted list of
//! messages; every integer is four bytes little-endian, every string is a
//! counted list of unicode scalar values. The authenticated-encryption layer
//! that the wallet provider wraps around these bytes is outside the core;
//! this module fixes what the bytes say, and proves that decoding inverts
//! encoding.

use vstd::prelude::*;
use vstd::string::StrSliceExecFns;
use crate::a2a::{A2AMessage, A2AMessageView, Forward, CreateKey, KeyCreated, views_of};
use crate::error::{AgentError, ErrorKind};

verus! {

/// One more than the largest count the format can carry.
pub open spec fn count_limit() -> int {
    0x1_0000_0000
}

/// Little-endian bytes of a 32-bit integer.
pub open spec fn enc_u32(x: u32) -> Seq<u8> {
    seq![
        (x % 256) as u8,
        ((x / 256) % 256) as u8,
        ((x / 65536) % 256) as u8,
        ((x / 16777216) % 256) as u8,
    ]
}

/// The integer the first four bytes of `b` spell, little-endian.
pub open spec fn le_val(b: Seq<u8>) -> int
    recommends
        b.len() >= 4,
{
    b[0] + 256 * b[1] + 65536 * b[2] + 16777216 * b[3]
}

/// Four bytes per character, in order.
pub open spec fn enc_chars(s: Seq<char>) -> Seq<u8>
    decreases s.len(),
{
    if s.len() == 0 {
        Seq::empty()
    } else {
        enc_u32(s[0] as u32) + enc_chars(s.skip(1))
    }
}

/// A counted string: character count, then the characters.
pub open spec fn enc_str(s: Seq<char>) -> Seq<u8>
    recommends
        s.len() < count_limit(),
{
    enc_u32(s.len() as u32) + enc_chars(s)
}

/// A counted byte field: byte count, then the raw bytes.
pub open spec fn enc_byte_field(b: Seq<u8>) -> Seq<u8>
    recommends
        b.len() < count_limit(),
{
    enc_u32(b.len() as u32) + b
}

/// One message: a tag byte, then the fields.
pub open spec fn enc_msg(m: A2AMessageView) -> Seq<u8> {
    match m {
        A2AMessageView::Forward { fwd, msg } => seq![1u8] + enc_str(fwd) + enc_byte_field(msg),
        A2AMessageView::CreateKey { for_did, for_did_verkey } => seq![2u8] + enc_str(for_did)
            + enc_str(for_did_verkey),
        A2AMessageView::KeyCreated { with_pairwise_did, with_pairwise_did_verkey } => seq![3u8]
            + enc_str(with_pairwise_did) + enc_str(with_pairwise_did_verkey),
    }
}

/// Messages in order, no separators.
pub open spec fn enc_msgs(ms: Seq<A2AMessageView>) -> Seq<u8>
    decreases ms.len(),
{
    if ms.len() == 0 {
        Seq::empty()
    } else {
        enc_msg(ms[0]) + enc_msgs(ms.skip(1))
    }
}

/// A whole bundle: sender key, message count, messages.
pub open spec fn enc_bundle(sender_verkey: Seq<char>, ms: Seq<A2AMessageView>) -> Seq<u8> {
    enc_str(sender_verkey) + enc_u32(ms.len() as u32) + enc_msgs(ms)
}

/// The string fits the format's counters.
pub open spec fn str_fits(s: Seq<char>) -> bool {
    s.len() < count_limit()
}

/// Every field of the message fits the format's counters.
pub open spec fn msg_fits(m: A2AMessageView) -> bool {
    match m {
        A2AMessageView::Forward { fwd, msg } => str_fits(fwd) && msg.len() < count_limit(),
        A2AMessageView::CreateKey { for_did, for_did_verkey } => str_fits(for_did)
            && str_fits(for_did_verkey),
        A2AMessageView::KeyCreated { with_pairwise_did, with_pairwise_did_verkey } => str_fits(
            with_pairwise_did,
        ) && str_fits(with_pairwise_did_verkey),
    }
}

/// The whole bundle fits the format's counters.
pub open spec fn bundle_fits(sender_verkey: Seq<char>, ms: Seq<A2AMessageView>) -> bool {
    str_fits(sender_verkey) && ms.len() < count_limit() && forall|i: int|
        0 <= i < ms.len() ==> msg_fits(#[trigger] ms[i])
}

/// Read a 32-bit integer off the front; what is left follows.
pub open spec fn dec_u32(b: Seq<u8>) -> Option<(u32, Seq<u8>)> {
    if b.len() >= 4 {
        Some((le_val(b) as u32, b.skip(4)))
    } else {
        None
    }
}

/// Read `n` characters off the front.
pub open spec fn dec_chars(b: Seq<u8>, n: nat) -> Option<(Seq<char>, Seq<u8>)>
    decreases n,
{
    if n == 0 {
        Some((Seq::empty(), b))
    } else {
        match dec_u32(b) {
            Option::None => Option::None,
            Option::Some((x, rest)) => if vstd::utf8::is_scalar(x) {
                match dec_chars(rest, (n - 1) as nat) {
                    Option::None => Option::None,
                    Option::Some((cs, tail)) => Option::Some((seq![x as char] + cs, tail)),
                }
            } else {
                Option::None
            },
        }
    }
}

/// Read a counted string off the front.
pub open spec fn dec_str(b: Seq<u8>) -> Option<(Seq<char>, Seq<u8>)> {
    match dec_u32(b) {
        Option::None => Option::None,
        Option::Some((n, rest)) => dec_chars(rest, n as nat),
    }
}

/// Read a counted byte field off the front.
pub open spec fn dec_byte_field(b: Seq<u8>) -> Option<(Seq<u8>, Seq<u8>)> {
    match dec_u32(b) {
        Option::None => Option::None,
        Option::Some((n, rest)) => if rest.len() >= n {
            Option::Some((rest.take(n as int), rest.skip(n as int)))
        } else {
            Option::None
        },
    }
}

/// Read one tagged message off the front.
pub open spec fn dec_msg(b: Seq<u8>) -> Option<(A2AMessageView, Seq<u8>)> {
    if b.len() < 1 {
        Option::None
    } else if b[0] == 1u8 {
        match dec_str(b.skip(1)) {
            Option::None => Option::None,
            Option::Some((fwd, r1)) => match dec_byte_field(r1) {
                Option::None => Option::None,
                Option::Some((msg, r2)) => Option::Some(
                    (A2AMessageView::Forward { fwd, msg }, r2),
                ),
            },
        }
    } else if b[0] == 2u8 {
        match dec_str(b.skip(1)) {
            Option::None => Option::None,
            Option::Some((for_did, r1)) => match dec_str(r1) {
                Option::None => Option::None,
                Option::Some((for_did_verkey, r2)) => Option::Some(
                    (A2AMessageView::CreateKey { for_did, for_did_verkey }, r2),
                ),
            },
        }
    } else if b[0] == 3u8 {
        match dec_str(b.skip(1)) {
            Option::None => Option::None,
            Option::Some((with_pairwise_did, r1)) => match dec_str(r1) {
                Option::None => Option::None,
                Option::Some((with_pairwise_did_verkey, r2)) => Option::Some(
                    (
                        A2AMessageView::KeyCreated {
                            with_pairwise_did,
                            with_pairwise_did_verkey,
                        },
                        r2,
                    ),
                ),
            },
        }
    } else {
        Option::None
    }
}

/// Read `n` messages off the front.
pub open spec fn dec_msgs(b: Seq<u8>, n: nat) -> Option<(Seq<A2AMessageView>, Seq<u8>)>
    decreases n,
{
    if n == 0 {
        Option::Some((Seq::empty(), b))
    } else {
        match dec_msg(b) {
            Option::None => Option::None,
            Option::Some((m, rest)) => match dec_msgs(rest, (n - 1) as nat) {
                Option::None => Option::None,
                Option::Some((ms, tail)) => Option::Some((seq![m] + ms, tail)),
            },
        }
    }
}

/// What a whole byte string says, if it is a well-formed bundle consumed to
/// its last byte.
pub open spec fn dec_bundle(b: Seq<u8>) -> Option<(Seq<char>, Seq<A2AMessageView>)> {
    match dec_str(b) {
        Option::None => Option::None,
        Option::Some((sender_verkey, r1)) => match dec_u32(r1) {
            Option::None => Option::None,
            Option::Some((n, r2)) => match dec_msgs(r2, n as nat) {
                Option::None => Option::None,
                Option::Some((ms, tail)) => if tail.len() == 0 {
                    Option::Some((sender_verkey, ms))
                } else {
                    Option::None
                },
            },
        },
    }
}

proof fn lemma_le_val_enc_u32(x: u32)
    ensures
        le_val(enc_u32(x)) == x,
{
    assert(x % 256 + 256 * ((x / 256) % 256) + 65536 * ((x / 65536) % 256) + 16777216 * ((x
        / 16777216) % 256) == x) by (bit_vector);
}

proof fn lemma_dec_enc_u32(x: u32, rest: Seq<u8>)
    ensures
        dec_u32(enc_u32(x) + rest) == Option::Some((x, rest)),
{
    let b = enc_u32(x) + rest;
    lemma_le_val_enc_u32(x);
    assert(b[0] == enc_u32(x)[0] && b[1] == enc_u32(x)[1] && b[2] == enc_u32(x)[2] && b[3]
        == enc_u32(x)[3]);
    assert(le_val(b) == x);
    assert(b.skip(4) =~= rest);
}

proof fn lemma_dec_enc_chars(s: Seq<char>, rest: Seq<u8>)
    ensures
        dec_chars(enc_chars(s) + rest, s.len()) == Option::Some((s, rest)),
    decreases s.len(),
{
    if s.len() == 0 {
        assert(enc_chars(s) + rest =~= rest);
        assert(s =~= Seq::<char>::empty());
    } else {
        let c = s[0];
        vstd::utf8::char_is_scalar(c);
        let x = c as u32;
        vstd::utf8::char_u32_cast(c, x);
        let tail_bytes = enc_chars(s.skip(1)) + rest;
        assert(enc_chars(s) + rest =~= enc_u32(x) + tail_bytes);
        lemma_dec_enc_u32(x, tail_bytes);
        lemma_dec_enc_chars(s.skip(1), rest);
        assert(seq![c] + s.skip(1) =~= s);
    }
}

proof fn lemma_dec_enc_str(s: Seq<char>, rest: Seq<u8>)
    requires
        str_fits(s),
    ensures
        dec_str(enc_str(s) + rest) == Option::Some((s, rest)),
{
    let n = s.len() as u32;
    assert(enc_str(s) + rest =~= enc_u32(n) + (enc_chars(s) + rest));
    lemma_dec_enc_u32(n, enc_chars(s) + rest);
    assert(n as nat == s.len());
    lemma_dec_enc_chars(s, rest);
}

proof fn lemma_dec_enc_byte_field(d: Seq<u8>, rest: Seq<u8>)
    requires
        d.len() < count_limit(),
    ensures
        dec_byte_field(enc_byte_field(d) + rest) == Option::Some((d, rest)),
{
    let n = d.len() as u32;
    assert(enc_byte_field(d) + rest =~= enc_u32(n) + (d + rest));
    lemma_dec_enc_u32(n, d + rest);
    assert((d + rest).take(n as int) =~= d);
    assert((d + rest).skip(n as int) =~= rest);
}

#[verifier::rlimit(50)]
proof fn lemma_dec_enc_msg(m: A2AMessageView, rest: Seq<u8>)
    requires
        msg_fits(m),
    ensures
        dec_msg(enc_msg(m) + rest) == Option::Some((m, rest)),
{
    match m {
        A2AMessageView::Forward { fwd, msg } => {
            let b = enc_msg(m) + rest;
            assert(b[0] == 1u8);
            assert(b.skip(1) =~= enc_str(fwd) + (enc_byte_field(msg) + rest));
            lemma_dec_enc_str(fwd, enc_byte_field(msg) + rest);
            lemma_dec_enc_byte_field(msg, rest);
        },
        A2AMessageView::CreateKey { for_did, for_did_verkey } => {
            let b = enc_msg(m) + rest;
            assert(b[0] == 2u8);
            assert(b.skip(1) =~= enc_str(for_did) + (enc_str(for_did_verkey) + rest));
            lemma_dec_enc_str(for_did, enc_str(for_did_verkey) + rest);
            lemma_dec_enc_str(for_did_verkey, rest);
        },
        A2AMessageView::KeyCreated { with_pairwise_did, with_pairwise_did_verkey } => {
            let b = enc_msg(m) + rest;
            assert(b[0] == 3u8);
            assert(b.skip(1) =~= enc_str(with_pairwise_did) + (enc_str(with_pairwise_did_verkey)
                + rest));
            lemma_dec_enc_str(with_pairwise_did, enc_str(with_pairwise_did_verkey) + rest);
            lemma_dec_enc_str(with_pairwise_did_verkey, rest);
        },
    }
}

#[verifier::rlimit(100)]
#[verifier::spinoff_prover]
proof fn lemma_dec_enc_msgs(ms: Seq<A2AMessageView>, rest: Seq<u8>)
    requires
        forall|i: int| 0 <= i < ms.len() ==> msg_fits(#[trigger] ms[i]),
    ensures
        dec_msgs(enc_msgs(ms) + rest, ms.len()) == Option::Some((ms, rest)),
    decreases ms.len(),
{
    if ms.len() == 0 {
        assert(enc_msgs(ms) + rest =~= rest);
        assert(ms =~= Seq::<A2AMessageView>::empty());
    } else {
        let tail_bytes = enc_msgs(ms.skip(1)) + rest;
        assert(enc_msgs(ms) + rest =~= enc_msg(ms[0]) + tail_bytes);
        lemma_dec_enc_msg(ms[0], tail_bytes);
        assert(forall|i: int| 0 <= i < ms.skip(1).len() ==> msg_fits(#[trigger] ms.skip(1)[i]));
        lemma_dec_enc_msgs(ms.skip(1), rest);
        assert(seq![ms[0]] + ms.skip(1) =~= ms);
    }
}

/// Law: decoding inverts encoding. A bundle of any sender key and message
/// sequence that fits the format's counters decodes back to exactly that
/// sender key and that message sequence.
pub proof fn lemma_bundle_round_trip(sender_verkey: Seq<char>, ms: Seq<A2AMessageView>)
    requires
        bundle_fits(sender_verkey, ms),
    ensures
        dec_bundle(enc_bundle(sender_verkey, ms)) == Option::Some((sender_verkey, ms)),
{
    let n = ms.len() as u32;
    let after_str = enc_u32(n) + enc_msgs(ms);
    assert(enc_bundle(sender_verkey, ms) =~= enc_str(sender_verkey) + after_str);
    lemma_dec_enc_str(sender_verkey, after_str);
    let empty_rest = Seq::<u8>::empty();
    assert(after_str =~= enc_u32(n) + (enc_msgs(ms) + empty_rest));
    lemma_dec_enc_u32(n, enc_msgs(ms) + empty_rest);
    lemma_dec_enc_msgs(ms, empty_rest);
}

proof fn lemma_enc_chars_concat(a: Seq<char>, b: Seq<char>)
    ensures
        enc_chars(a + b) == enc_chars(a) + enc_chars(b),
    decreases a.len(),
{
    if a.len() == 0 {
        assert(a + b =~= b);
        assert(enc_chars(a) + enc_chars(b) =~= enc_chars(b));
    } else {
        assert((a + b).len() != 0);
        assert((a + b)[0] == a[0]);
        assert((a + b).skip(1) =~= a.skip(1) + b);
        lemma_enc_chars_concat(a.skip(1), b);
        assert(enc_u32(a[0] as u32) + (enc_chars(a.skip(1)) + enc_chars(b)) =~= (enc_u32(
            a[0] as u32,
        ) + enc_chars(a.skip(1))) + enc_chars(b));
    }
}

proof fn lemma_enc_chars_one(c: char)
    ensures
        enc_chars(seq![c]) == enc_u32(c as u32),
{
    let s1 = seq![c];
    assert(s1.len() == 1);
    assert(s1[0] == c);
    assert(s1.skip(1) =~= Seq::<char>::empty());
    assert(enc_chars(s1) == enc_u32(c as u32) + enc_chars(s1.skip(1)));
    assert(enc_chars(Seq::<char>::empty()) =~= Seq::<u8>::empty());
    assert(enc_u32(c as u32) + Seq::<u8>::empty() =~= enc_u32(c as u32));
}

proof fn lemma_enc_msgs_concat(a: Seq<A2AMessageView>, b: Seq<A2AMessageView>)
    ensures
        enc_msgs(a + b) == enc_msgs(a) + enc_msgs(b),
    decreases a.len(),
{
    if a.len() == 0 {
        assert(a + b =~= b);
        assert(enc_msgs(a) + enc_msgs(b) =~= enc_msgs(b));
    } else {
        assert((a + b).len() != 0);
        assert((a + b)[0] == a[0]);
        assert((a + b).skip(1) =~= a.skip(1) + b);
        lemma_enc_msgs_concat(a.skip(1), b);
        assert(enc_msg(a[0]) + (enc_msgs(a.skip(1)) + enc_msgs(b)) =~= (enc_msg(a[0]) + enc_msgs(
            a.skip(1),
        )) + enc_msgs(b));
    }
}

proof fn lemma_enc_msgs_one(m: A2AMessageView)
    ensures
        enc_msgs(seq![m]) == enc_msg(m),
{
    let s1 = seq![m];
    assert(s1.len() == 1);
    assert(s1[0] == m);
    assert(s1.skip(1) =~= Seq::<A2AMessageView>::empty());
    assert(enc_msgs(s1) == enc_msg(m) + enc_msgs(s1.skip(1)));
    assert(enc_msgs(Seq::<A2AMessageView>::empty()) =~= Seq::<u8>::empty());
    assert(enc_msg(m) + Seq::<u8>::empty() =~= enc_msg(m));
}

fn push_u32(out: &mut Vec<u8>, x: u32)
    ensures
        final(out)@ == old(out)@ + enc_u32(x),
{
    out.push((x % 256) as u8);
    out.push(((x / 256) % 256) as u8);
    out.push(((x / 65536) % 256) as u8);
    out.push(((x / 16777216) % 256) as u8);
    proof {
        assert(out@ =~= old(out)@ + enc_u32(x));
    }
}

fn push_str(out: &mut Vec<u8>, s: &String)
    requires
        str_fits(s@),
    ensures
        final(out)@ == old(out)@ + enc_str(s@),
{
    let n = s.as_str().unicode_len();
    push_u32(out, n as u32);
    let mut i: usize = 0;
    while i < n
        invariant
            n == s@.len(),
            str_fits(s@),
            i <= n,
            out@ == old(out)@ + enc_u32(s@.len() as u32) + enc_chars(s@.take(i as int)),
        decreases n - i,
    {
        let c = s.as_str().get_char(i);
        push_u32(out, c as u32);
        proof {
            lemma_enc_chars_concat(s@.take(i as int), seq![c]);
            lemma_enc_chars_one(c);
            assert(s@.take(i as int + 1) =~= s@.take(i as int) + seq![c]);
            assert(out@ =~= old(out)@ + enc_u32(s@.len() as u32) + enc_chars(
                s@.take(i as int + 1),
            ));
        }
        i = i + 1;
    }
    proof {
        assert(s@.take(n as int) =~= s@);
        assert(old(out)@ + enc_u32(s@.len() as u32) + enc_chars(s@) =~= old(out)@ + enc_str(s@));
    }
}

fn push_byte_field(out: &mut Vec<u8>, d: &Vec<u8>)
    requires
        d@.len() < count_limit(),
    ensures
        final(out)@ == old(out)@ + enc_byte_field(d@),
{
    push_u32(out, d.len() as u32);
    let mut i: usize = 0;
    while i < d.len()
        invariant
            d@.len() < count_limit(),
            i <= d@.len(),
            out@ == old(out)@ + enc_u32(d@.len() as u32) + d@.take(i as int),
        decreases d@.len() - i,
    {
        out.push(d[i]);
        proof {
            assert(d@.take(i as int + 1) =~= d@.take(i as int).push(d@[i as int]));
            assert(out@ =~= old(out)@ + enc_u32(d@.len() as u32) + d@.take(i as int + 1));
        }
        i = i + 1;
    }
    proof {
        assert(d@.take(d@.len() as int) =~= d@);
        assert(old(out)@ + enc_u32(d@.len() as u32) + d@ =~= old(out)@ + enc_byte_field(d@));
    }
}

fn push_msg(out: &mut Vec<u8>, m: &A2AMessage)
    requires
        msg_fits(m@),
    ensures
        final(out)@ == old(out)@ + enc_msg(m@),
{
    match m {
        A2AMessage::Forward(f) => {
            out.push(1u8);
            push_str(out, &f.fwd);
            push_byte_field(out, &f.msg);
            proof {
                assert(out@ =~= old(out)@ + enc_msg(m@));
            }
        },
        A2AMessage::CreateKey(c) => {
            out.push(2u8);
            push_str(out, &c.for_did);
            push_str(out, &c.for_did_verkey);
            proof {
                assert(out@ =~= old(out)@ + enc_msg(m@));
            }
        },
        A2AMessage::KeyCreated(k) => {
            out.push(3u8);
            push_str(out, &k.with_pairwise_did);
            push_str(out, &k.with_pairwise_did_verkey);
            proof {
                assert(out@ =~= old(out)@ + enc_msg(m@));
            }
        },
    }
}

/// Encode an authenticated bundle: the sender's verification key and the
/// messages, in order. The provider's authenticated encryption is applied
/// around these bytes outside the core.
pub fn bundle_authenticated(sender_verkey: &String, msgs: &Vec<A2AMessage>) -> (r: Vec<u8>)
    requires
        bundle_fits(sender_verkey@, views_of(msgs@)),
    ensures
        r@ == enc_bundle(sender_verkey@, views_of(msgs@)),
{
    let ghost vs = views_of(msgs@);
    let mut out: Vec<u8> = Vec::new();
    push_str(&mut out, sender_verkey);
    push_u32(&mut out, msgs.len() as u32);
    let mut i: usize = 0;
    while i < msgs.len()
        invariant
            vs == views_of(msgs@),
            vs.len() == msgs@.len(),
            bundle_fits(sender_verkey@, vs),
            i <= msgs@.len(),
            out@ == enc_str(sender_verkey@) + enc_u32(vs.len() as u32) + enc_msgs(
                vs.take(i as int),
            ),
        decreases msgs@.len() - i,
    {
        proof {
            assert(vs[i as int] == msgs@[i as int]@);
        }
        push_msg(&mut out, &msgs[i]);
        proof {
            lemma_enc_msgs_concat(vs.take(i as int), seq![vs[i as int]]);
            lemma_enc_msgs_one(vs[i as int]);
            assert(vs.take(i as int + 1) =~= vs.take(i as int) + seq![vs[i as int]]);
            assert(out@ =~= enc_str(sender_verkey@) + enc_u32(vs.len() as u32) + enc_msgs(
                vs.take(i as int + 1),
            ));
        }
        i = i + 1;
    }
    proof {
        assert(vs.take(vs.len() as int) =~= vs);
        assert(out@ =~= enc_bundle(sender_verkey@, vs));
    }
    out
}

/// Relies on char::from_u32: it returns `Some` exactly for unicode scalar
/// values (neither a surrogate nor above the largest code point), and the
/// character handed back has exactly the given value.
#[verifier::external_body]
fn char_from_u32(x: u32) -> (r: Option<char>)
    ensures
        r is Some <==> vstd::utf8::is_scalar(x),
        r matches Some(c) ==> c as u32 == x,
{
    char::from_u32(x)
}

/// Relies on String::push: it appends the given character to the end of the
/// string.
#[verifier::external_body]
fn string_push(s: &mut String, c: char)
    ensures
        final(s)@ == old(s)@.push(c),
{
    s.push(c);
}

fn read_u32(b: &Vec<u8>, i: usize) -> (r: Option<(u32, usize)>)
    requires
        i <= b@.len(),
    ensures
        match r {
            Option::Some((x, j)) => j == i + 4 && j <= b@.len() && dec_u32(b@.skip(i as int))
                == Option::Some((x, b@.skip(j as int))),
            Option::None => dec_u32(b@.skip(i as int)) is None,
        },
{
    if b.len() - i < 4 {
        return None;
    }
    let x0 = b[i] as u32;
    let x1 = b[i + 1] as u32;
    let x2 = b[i + 2] as u32;
    let x3 = b[i + 3] as u32;
    let x = x0 + 256 * x1 + 65536 * x2 + 16777216 * x3;
    proof {
        let s = b@.skip(i as int);
        assert(s.len() >= 4);
        assert(s[0] == b@[i as int] && s[1] == b@[i as int + 1] && s[2] == b@[i as int + 2] && s[3]
            == b@[i as int + 3]);
        assert(le_val(s) == x);
        assert(s.skip(4) =~= b@.skip(i as int + 4));
    }
    Some((x, i + 4))
}

fn read_str(b: &Vec<u8>, i: usize) -> (r: Option<(String, usize)>)
    requires
        i <= b@.len(),
    ensures
        match r {
            Option::Some((s, j)) => j <= b@.len() && dec_str(b@.skip(i as int)) == Option::Some(
                (s@, b@.skip(j as int)),
            ),
            Option::None => dec_str(b@.skip(i as int)) is None,
        },
{
    let (n, start) = match read_u32(b, i) {
        Option::None => {
            return None;
        },
        Option::Some(v) => v,
    };
    let mut s = String::new();
    let mut pos: usize = start;
    let mut k: u32 = 0;
    while k < n
        invariant
            k <= n,
            pos <= b@.len(),
            dec_str(b@.skip(i as int)) == (match dec_chars(b@.skip(pos as int), (n - k) as nat) {
                Option::None => Option::None::<(Seq<char>, Seq<u8>)>,
                Option::Some((cs, tail)) => Option::Some((s@ + cs, tail)),
            }),
        decreases n - k,
    {
        let (x, pos2) = match read_u32(b, pos) {
            Option::None => {
                return None;
            },
            Option::Some(v) => v,
        };
        let c = match char_from_u32(x) {
            Option::None => {
                return None;
            },
            Option::Some(c) => c,
        };
        proof {
            let cur = b@.skip(pos as int);
            assert(c as u32 == x);
            vstd::utf8::char_u32_cast(c, x);
            assert(x as char == c);
            assert(dec_u32(cur) == Option::Some((x, b@.skip(pos2 as int))));
            assert(dec_chars(cur, (n - k) as nat) == (
            match dec_chars(b@.skip(pos2 as int), (n - k - 1) as nat) {
                Option::None => Option::None::<(Seq<char>, Seq<u8>)>,
                Option::Some((cs, tail)) => Option::Some((seq![c] + cs, tail)),
            }));
        }
        string_push(&mut s, c);
        proof {
            assert forall|cs: Seq<char>| true implies s@ + cs == (s@.drop_last() + (seq![c]
                + cs)) by {
                assert(s@ + cs =~= s@.drop_last() + (seq![c] + cs));
            }
        }
        pos = pos2;
        k = k + 1;
    }
    proof {
        assert(dec_chars(b@.skip(pos as int), 0) == Option::Some(
            (Seq::<char>::empty(), b@.skip(pos as int)),
        ));
        assert(s@ + Seq::<char>::empty() =~= s@);
    }
    Some((s, pos))
}

fn read_byte_field(b: &Vec<u8>, i: usize) -> (r: Option<(Vec<u8>, usize)>)
    requires
        i <= b@.len(),
    ensures
        match r {
            Option::Some((d, j)) => j <= b@.len() && dec_byte_field(b@.skip(i as int))
                == Option::Some((d@, b@.skip(j as int))),
            Option::None => dec_byte_field(b@.skip(i as int)) is None,
        },
{
    let (n, start) = match read_u32(b, i) {
        Option::None => {
            return None;
        },
        Option::Some(v) => v,
    };
    let ghost rest = b@.skip(start as int);
    if ((b.len() - start) as u64) < (n as u64) {
        proof {
            assert(rest.len() < n);
        }
        return None;
    }
    let count = n as usize;
    proof {
        assert(count == n);
        assert(start + count <= b@.len());
    }
    let mut d: Vec<u8> = Vec::new();
    let mut k: usize = 0;
    while k < count
        invariant
            count == n,
            k <= count,
            start + count <= b@.len(),
            rest == b@.skip(start as int),
            d@ == rest.take(k as int),
        decreases count - k,
    {
        let bl = b.len();
        proof {
            assert(start + k < bl);
        }
        d.push(b[start + k]);
        proof {
            assert(rest.take(k as int + 1) =~= rest.take(k as int).push(rest[k as int]));
            assert(rest[k as int] == b@[start as int + k as int]);
        }
        k = k + 1;
    }
    proof {
        assert(rest.skip(n as int) =~= b@.skip(start as int + n as int));
    }
    Some((d, start + count))
}

fn read_msg(b: &Vec<u8>, i: usize) -> (r: Option<(A2AMessage, usize)>)
    requires
        i <= b@.len(),
    ensures
        match r {
            Option::Some((m, j)) => j <= b@.len() && dec_msg(b@.skip(i as int)) == Option::Some(
                (m@, b@.skip(j as int)),
            ),
            Option::None => dec_msg(b@.skip(i as int)) is None,
        },
{
    if b.len() - i < 1 {
        return None;
    }
    let tag = b[i];
    proof {
        assert(b@.skip(i as int)[0] == tag);
        assert(b@.skip(i as int).skip(1) =~= b@.skip(i as int + 1));
    }
    if tag == 1u8 {
        let (fwd, j1) = match read_str(b, i + 1) {
            Option::None => {
                return None;
            },
            Option::Some(v) => v,
        };
        let (msg, j2) = match read_byte_field(b, j1) {
            Option::None => {
                return None;
            },
            Option::Some(v) => v,
        };
        Some((A2AMessage::Forward(Forward { fwd, msg }), j2))
    } else if tag == 2u8 {
        let (for_did, j1) = match read_str(b, i + 1) {
            Option::None => {
                return None;
            },
            Option::Some(v) => v,
        };
        let (for_did_verkey, j2) = match read_str(b, j1) {
            Option::None => {
                return None;
            },
            Option::Some(v) => v,
        };
        Some((A2AMessage::CreateKey(CreateKey { for_did, for_did_verkey }), j2))
    } else if tag == 3u8 {
        let (with_pairwise_did, j1) = match read_str(b, i + 1) {
            Option::None => {
                return None;
            },
            Option::Some(v) => v,
        };
        let (with_pairwise_did_verkey, j2) = match read_str(b, j1) {
            Option::None => {
                return None;
            },
            Option::Some(v) => v,
        };
        Some((A2AMessage::KeyCreated(KeyCreated { with_pairwise_did, with_pairwise_did_verkey }), j2))
    } else {
        None
    }
}

/// Decode an authenticated bundle back into the sender's verification key
/// and the messages it carries. Fails with a crypto-class error exactly when
/// the bytes are not a well-formed bundle consumed to the last byte.
pub fn unbundle_authenticated(bytes: &Vec<u8>) -> (r: Result<(String, Vec<A2AMessage>), AgentError>)
    ensures
        match r {
            Ok((sender_verkey, msgs)) => dec_bundle(bytes@) == Option::Some(
                (sender_verkey@, views_of(msgs@)),
            ),
            Err(e) => dec_bundle(bytes@) is None && e.kind == ErrorKind::Crypto,
        },
{
    proof {
        assert(bytes@.skip(0) =~= bytes@);
    }
    let (sender_verkey, p1) = match read_str(bytes, 0) {
        Option::None => {
            return Err(malformed());
        },
        Option::Some(v) => v,
    };
    let (n, start) = match read_u32(bytes, p1) {
        Option::None => {
            return Err(malformed());
        },
        Option::Some(v) => v,
    };
    let mut msgs: Vec<A2AMessage> = Vec::new();
    let mut pos: usize = start;
    let mut k: u32 = 0;
    while k < n
        invariant
            k <= n,
            pos <= bytes@.len(),
            dec_bundle(bytes@) == (match dec_msgs(bytes@.skip(pos as int), (n - k) as nat) {
                Option::None => Option::None::<(Seq<char>, Seq<A2AMessageView>)>,
                Option::Some((ms, tail)) => if tail.len() == 0 {
                    Option::Some((sender_verkey@, views_of(msgs@) + ms))
                } else {
                    Option::None::<(Seq<char>, Seq<A2AMessageView>)>
                },
            }),
        decreases n - k,
    {
        let (m, pos2) = match read_msg(bytes, pos) {
            Option::None => {
                return Err(malformed());
            },
            Option::Some(v) => v,
        };
        proof {
            let cur = bytes@.skip(pos as int);
            assert(dec_msgs(cur, (n - k) as nat) == (
            match dec_msgs(bytes@.skip(pos2 as int), (n - k - 1) as nat) {
                Option::None => Option::None::<(Seq<A2AMessageView>, Seq<u8>)>,
                Option::Some((ms, tail)) => Option::Some((seq![m@] + ms, tail)),
            }));
        }
        msgs.push(m);
        proof {
            assert forall|ms: Seq<A2AMessageView>| true implies views_of(msgs@) + ms == (views_of(
                msgs@.drop_last(),
            ) + (seq![msgs@.last()@] + ms)) by {
                assert(views_of(msgs@) =~= views_of(msgs@.drop_last()).push(msgs@.last()@));
                assert(views_of(msgs@) + ms =~= views_of(msgs@.drop_last()) + (seq![
                    msgs@.last()@,
                ] + ms));
            }
        }
        pos = pos2;
        k = k + 1;
    }
    if pos != bytes.len() {
        proof {
            assert(bytes@.skip(pos as int).len() != 0);
            assert(dec_msgs(bytes@.skip(pos as int), 0) == Option::Some(
                (Seq::<A2AMessageView>::empty(), bytes@.skip(pos as int)),
            ));
        }
        return Err(malformed());
    }
    proof {
        assert(bytes@.skip(pos as int).len() == 0);
        assert(dec_msgs(bytes@.skip(pos as int), 0) == Option::Some(
            (Seq::<A2AMessageView>::empty(), bytes@.skip(pos as int)),
        ));
        assert(views_of(msgs@) + Seq::<A2AMessageView>::empty() =~= views_of(msgs@));
    }
    Ok((sender_verkey, msgs))
}

fn malformed() -> (r: AgentError)
    ensures
        r.kind == ErrorKind::Crypto,
{
    AgentError::new(ErrorKind::Crypto, "Malformed message bundle.", String::new())
}

} // verus!
