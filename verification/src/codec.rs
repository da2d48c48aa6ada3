//! Byte-level encodings the engine owns: big-endian integers,
//! length-prefixed fields, and the welcome token format.

use vstd::prelude::*;
use vstd::utf8::{decode_utf8, encode_utf8, encode_utf8_decode_utf8, encode_utf8_valid_utf8, valid_utf8};

use crate::errors::EngineError;
use crate::session::{names_of, CipherMessage, Welcome};

verus! {

/// The eight big-endian bytes of a 64-bit integer.
pub open spec fn u64_be(n: u64) -> Seq<u8> {
    seq![
        (n >> 56) as u8,
        (n >> 48) as u8,
        (n >> 40) as u8,
        (n >> 32) as u8,
        (n >> 24) as u8,
        (n >> 16) as u8,
        (n >> 8) as u8,
        n as u8,
    ]
}

/// Append the big-endian bytes of `n`.
pub fn push_u64_be(out: &mut Vec<u8>, n: u64)
    ensures
        final(out)@ == old(out)@ + u64_be(n),
{
    out.push((n >> 56) as u8);
    out.push((n >> 48) as u8);
    out.push((n >> 40) as u8);
    out.push((n >> 32) as u8);
    out.push((n >> 24) as u8);
    out.push((n >> 16) as u8);
    out.push((n >> 8) as u8);
    out.push(n as u8);
    assert(final(out)@ =~= old(out)@ + u64_be(n));
}

/// The 64-bit integer read back from eight big-endian bytes.
pub open spec fn u64_from_be(b: Seq<u8>) -> u64
    recommends
        b.len() == 8,
{
    (
        (b[0] as u64) << 56 | (b[1] as u64) << 48 | (b[2] as u64) << 40 | (b[3] as u64) << 32
            | (b[4] as u64) << 24 | (b[5] as u64) << 16 | (b[6] as u64) << 8 | (b[7] as u64)
    ) as u64
}

/// Reading back the big-endian bytes of `n` yields `n`.
pub proof fn lemma_u64_be_roundtrip(n: u64)
    ensures
        u64_from_be(u64_be(n)) == n,
{
    assert(u64_from_be(u64_be(n)) == n) by (bit_vector)
        requires
            true,
    ;
}

/// A field as it stands in a length-prefixed encoding: eight bytes of
/// length, then the bytes themselves.
pub open spec fn length_prefixed(b: Seq<u8>) -> Seq<u8> {
    u64_be(b.len() as u64) + b
}

/// Append a length-prefixed field.
pub fn push_field(out: &mut Vec<u8>, b: &[u8])
    ensures
        final(out)@ == old(out)@ + length_prefixed(b@),
{
    push_u64_be(out, b.len() as u64);
    let mut i: usize = 0;
    while i < b.len()
        invariant
            i <= b.len(),
            out@ == old(out)@ + u64_be(b@.len() as u64) + b@.take(i as int),
        decreases b.len() - i,
    {
        out.push(b[i]);
        i = i + 1;
        assert(out@ =~= old(out)@ + u64_be(b@.len() as u64) + b@.take(i as int));
    }
    assert(b@.take(b@.len() as int) =~= b@);
    assert(final(out)@ =~= old(out)@ + length_prefixed(b@));
}

/// Whether two texts hold the same characters.
pub fn str_eq(a: &str, b: &str) -> (r: bool)
    ensures
        r == (a@ == b@),
{
    broadcast use encode_utf8_decode_utf8;

    let ab = a.as_bytes();
    let bb = b.as_bytes();
    if ab.len() != bb.len() {
        proof {
            if a@ == b@ {
                assert(ab@.len() == bb@.len());
            }
        }
        return false;
    }
    let mut i: usize = 0;
    while i < ab.len()
        invariant
            i <= ab@.len(),
            ab@.len() == bb@.len(),
            ab@ == encode_utf8(a@),
            bb@ == encode_utf8(b@),
            forall|j: int| 0 <= j < i ==> ab@[j] == bb@[j],
        decreases ab@.len() - i,
    {
        if ab[i] != bb[i] {
            proof {
                if a@ == b@ {
                    assert(ab@[i as int] == bb@[i as int]);
                }
            }
            return false;
        }
        i = i + 1;
    }
    proof {
        assert(ab@ =~= bb@);
        assert(decode_utf8(encode_utf8(a@)) == a@);
        assert(decode_utf8(encode_utf8(b@)) == b@);
    }
    true
}

/// Relies on `String::from_utf8`: accepts exactly the valid UTF-8
/// byte sequences and decodes them.
#[verifier::external_body]
pub(crate) fn bytes_to_string(b: Vec<u8>) -> (r: Option<String>)
    ensures
        r matches Some(s) ==> valid_utf8(b@) && s@ == decode_utf8(b@),
        r is None ==> !valid_utf8(b@),
{
    String::from_utf8(b).ok()
}

/// Reading a 64-bit integer: its eight big-endian bytes, then the rest.
pub open spec fn parse_u64(b: Seq<u8>) -> Option<(u64, Seq<u8>)> {
    if b.len() < 8 {
        None
    } else {
        Some((u64_from_be(b.take(8)), b.skip(8)))
    }
}

/// Reading a length-prefixed field: its length, its bytes, the rest.
pub open spec fn parse_field(b: Seq<u8>) -> Option<(Seq<u8>, Seq<u8>)> {
    match parse_u64(b) {
        None => None,
        Some((n, rest)) => if rest.len() < n {
            None
        } else {
            Some((rest.take(n as int), rest.skip(n as int)))
        },
    }
}

/// Reading a length-prefixed UTF-8 text.
pub open spec fn parse_string(b: Seq<u8>) -> Option<(Seq<char>, Seq<u8>)> {
    match parse_field(b) {
        None => None,
        Some((f, rest)) => if valid_utf8(f) {
            Some((decode_utf8(f), rest))
        } else {
            None
        },
    }
}

/// Reading `count` length-prefixed UTF-8 texts.
pub open spec fn parse_names(b: Seq<u8>, count: int) -> Option<(Seq<Seq<char>>, Seq<u8>)>
    decreases count,
{
    if count <= 0 {
        Some((Seq::empty(), b))
    } else {
        match parse_string(b) {
            None => None,
            Some((s, rest)) => match parse_names(rest, count - 1) {
                None => None,
                Some((names, rest2)) => Some((seq![s] + names, rest2)),
            },
        }
    }
}

/// Mathematical image of a welcome token.
pub struct WelcomeModel {
    pub group_id: Seq<char>,
    pub epoch: u64,
    pub target_ref: Seq<u8>,
    pub kem_output: Seq<u8>,
    pub sealed_secret: Seq<u8>,
    pub roster: Seq<Seq<char>>,
}

/// The image of a concrete welcome token.
pub open spec fn welcome_model_of(w: Welcome) -> WelcomeModel {
    WelcomeModel {
        group_id: w.group_id@,
        epoch: w.epoch,
        target_ref: w.target_ref@,
        kem_output: w.kem_output@,
        sealed_secret: w.sealed_secret@,
        roster: names_of(w.roster@),
    }
}

/// The encoding of a list of names, each length-prefixed UTF-8.
pub open spec fn names_bytes(ns: Seq<Seq<char>>) -> Seq<u8>
    decreases ns.len(),
{
    if ns.len() == 0 {
        Seq::empty()
    } else {
        length_prefixed(encode_utf8(ns.first())) + names_bytes(ns.drop_first())
    }
}

/// The byte encoding of a welcome token.
pub open spec fn welcome_bytes(m: WelcomeModel) -> Seq<u8> {
    length_prefixed(encode_utf8(m.group_id)) + u64_be(m.epoch) + length_prefixed(m.target_ref)
        + length_prefixed(m.kem_output) + length_prefixed(m.sealed_secret) + u64_be(
        m.roster.len() as u64,
    ) + names_bytes(m.roster)
}

/// Reading the whole of a welcome token; nothing may follow it.
pub open spec fn parse_welcome(b: Seq<u8>) -> Option<WelcomeModel> {
    match parse_string(b) {
        None => None,
        Some((group_id, r1)) => match parse_u64(r1) {
            None => None,
            Some((epoch, r2)) => match parse_field(r2) {
                None => None,
                Some((target_ref, r3)) => match parse_field(r3) {
                    None => None,
                    Some((kem_output, r4)) => match parse_field(r4) {
                        None => None,
                        Some((sealed_secret, r5)) => match parse_u64(r5) {
                            None => None,
                            Some((count, r6)) => match parse_names(r6, count as int) {
                                None => None,
                                Some((roster, r7)) => if r7.len() == 0 {
                                    Some(
                                        WelcomeModel {
                                            group_id,
                                            epoch,
                                            target_ref,
                                            kem_output,
                                            sealed_secret,
                                            roster,
                                        },
                                    )
                                } else {
                                    None
                                },
                            },
                        },
                    },
                },
            },
        },
    }
}

/// Appending a name to a list appends its encoding.
pub proof fn lemma_names_bytes_push(ns: Seq<Seq<char>>, x: Seq<char>)
    ensures
        names_bytes(ns.push(x)) == names_bytes(ns) + length_prefixed(encode_utf8(x)),
    decreases ns.len(),
{
    if ns.len() == 0 {
        assert(ns.push(x).drop_first() =~= ns);
        assert(ns.push(x).first() == x);
        assert(names_bytes(ns.push(x)) =~= names_bytes(ns) + length_prefixed(encode_utf8(x)));
    } else {
        assert(ns.push(x).drop_first() =~= ns.drop_first().push(x));
        assert(ns.push(x).first() == ns.first());
        lemma_names_bytes_push(ns.drop_first(), x);
        assert(names_bytes(ns.push(x)) == length_prefixed(encode_utf8(ns.first())) + names_bytes(
            ns.drop_first().push(x),
        ));
        assert(names_bytes(ns) == length_prefixed(encode_utf8(ns.first())) + names_bytes(
            ns.drop_first(),
        ));
        assert(names_bytes(ns.push(x)) =~= names_bytes(ns) + length_prefixed(encode_utf8(x)));
    }
}

/// A big-endian integer at the head of a stream reads back as itself.
pub proof fn lemma_parse_u64_roundtrip(n: u64, rest: Seq<u8>)
    ensures
        parse_u64(u64_be(n) + rest) == Some((n, rest)),
{
    let b = u64_be(n) + rest;
    assert(b.take(8) =~= u64_be(n));
    lemma_u64_be_roundtrip(n);
    assert(b.skip(8) =~= rest);
}

/// A length-prefixed field at the head of a stream reads back as
/// itself.
#[verifier::rlimit(100)]
pub proof fn lemma_parse_field_roundtrip(x: Seq<u8>, rest: Seq<u8>)
    requires
        x.len() <= u64::MAX,
    ensures
        parse_field(length_prefixed(x) + rest) == Some((x, rest)),
{
    let b = length_prefixed(x) + rest;
    assert(b =~= u64_be(x.len() as u64) + (x + rest));
    lemma_parse_u64_roundtrip(x.len() as u64, x + rest);
    assert((x + rest).take(x.len() as int) =~= x);
    assert((x + rest).skip(x.len() as int) =~= rest);
}

/// A length-prefixed text at the head of a stream reads back as
/// itself.
#[verifier::rlimit(100)]
pub proof fn lemma_parse_string_roundtrip(s: Seq<char>, rest: Seq<u8>)
    requires
        encode_utf8(s).len() <= u64::MAX,
    ensures
        parse_string(length_prefixed(encode_utf8(s)) + rest) == Some((s, rest)),
{
    broadcast use encode_utf8_valid_utf8, encode_utf8_decode_utf8;

    lemma_parse_field_roundtrip(encode_utf8(s), rest);
}

/// An encoded list of names at the head of a stream reads back as
/// itself.
#[verifier::rlimit(100)]
pub proof fn lemma_parse_names_roundtrip(ns: Seq<Seq<char>>, rest: Seq<u8>)
    requires
        forall|i: int| 0 <= i < ns.len() ==> #[trigger] encode_utf8(ns[i]).len() <= u64::MAX,
    ensures
        parse_names(names_bytes(ns) + rest, ns.len() as int) == Some((ns, rest)),
    decreases ns.len(),
{
    if ns.len() == 0 {
        assert(names_bytes(ns) + rest =~= rest);
        assert(Seq::<Seq<char>>::empty() =~= ns);
    } else {
        assert(encode_utf8(ns.first()).len() <= u64::MAX) by {
            assert(ns.first() == ns[0]);
        }
        assert forall|i: int| 0 <= i < ns.drop_first().len() implies #[trigger] encode_utf8(
            ns.drop_first()[i],
        ).len() <= u64::MAX by {
            assert(ns.drop_first()[i] == ns[i + 1]);
        }
        assert(names_bytes(ns) + rest =~= length_prefixed(encode_utf8(ns.first())) + (names_bytes(
            ns.drop_first(),
        ) + rest));
        lemma_parse_string_roundtrip(ns.first(), names_bytes(ns.drop_first()) + rest);
        lemma_parse_names_roundtrip(ns.drop_first(), rest);
        assert(seq![ns.first()] + ns.drop_first() =~= ns);
    }
}

/// Decoding is the inverse of encoding: every welcome token reads
/// back exactly as it was written.
#[verifier::rlimit(100)]
#[verifier::spinoff_prover]
pub proof fn lemma_welcome_roundtrip_head(m: WelcomeModel)
    requires
        encode_utf8(m.group_id).len() <= u64::MAX,
        m.target_ref.len() <= u64::MAX,
    ensures
        ({
            let tail3 = length_prefixed(m.kem_output) + length_prefixed(m.sealed_secret) + u64_be(
                m.roster.len() as u64,
            ) + names_bytes(m.roster);
            &&& parse_string(welcome_bytes(m)) matches Some(h1)
            &&& h1.0 == m.group_id
            &&& parse_u64(h1.1) matches Some(h2)
            &&& h2.0 == m.epoch
            &&& parse_field(h2.1) matches Some(h3)
            &&& h3.0 == m.target_ref
            &&& h3.1 == tail3
        }),
{
    let a1 = encode_utf8(m.group_id);
    let tail1 = u64_be(m.epoch) + length_prefixed(m.target_ref) + length_prefixed(m.kem_output)
        + length_prefixed(m.sealed_secret) + u64_be(m.roster.len() as u64) + names_bytes(m.roster);
    assert(welcome_bytes(m) =~= length_prefixed(a1) + tail1);
    lemma_parse_string_roundtrip(m.group_id, tail1);
    let tail2 = length_prefixed(m.target_ref) + length_prefixed(m.kem_output) + length_prefixed(
        m.sealed_secret,
    ) + u64_be(m.roster.len() as u64) + names_bytes(m.roster);
    assert(tail1 =~= u64_be(m.epoch) + tail2);
    lemma_parse_u64_roundtrip(m.epoch, tail2);
    let tail3 = length_prefixed(m.kem_output) + length_prefixed(m.sealed_secret) + u64_be(
        m.roster.len() as u64,
    ) + names_bytes(m.roster);
    assert(tail2 =~= length_prefixed(m.target_ref) + tail3);
    lemma_parse_field_roundtrip(m.target_ref, tail3);
}

/// Decoding is the inverse of encoding: every welcome token reads
/// back exactly as it was written.
#[verifier::rlimit(100)]
#[verifier::spinoff_prover]
pub proof fn lemma_welcome_roundtrip(m: WelcomeModel)
    requires
        encode_utf8(m.group_id).len() <= u64::MAX,
        m.target_ref.len() <= u64::MAX,
        m.kem_output.len() <= u64::MAX,
        m.sealed_secret.len() <= u64::MAX,
        m.roster.len() <= u64::MAX,
        forall|i: int| 0 <= i < m.roster.len() ==> #[trigger] encode_utf8(
            m.roster[i],
        ).len() <= u64::MAX,
    ensures
        parse_welcome(welcome_bytes(m)) == Some(m),
{
    lemma_welcome_roundtrip_head(m);
    let tail3 = length_prefixed(m.kem_output) + length_prefixed(m.sealed_secret) + u64_be(
        m.roster.len() as u64,
    ) + names_bytes(m.roster);
    let tail4 = length_prefixed(m.sealed_secret) + u64_be(m.roster.len() as u64) + names_bytes(
        m.roster,
    );
    assert(tail3 =~= length_prefixed(m.kem_output) + tail4);
    lemma_parse_field_roundtrip(m.kem_output, tail4);
    let tail5 = u64_be(m.roster.len() as u64) + names_bytes(m.roster);
    assert(tail4 =~= length_prefixed(m.sealed_secret) + tail5);
    lemma_parse_field_roundtrip(m.sealed_secret, tail5);
    lemma_parse_u64_roundtrip(m.roster.len() as u64, names_bytes(m.roster));
    assert(names_bytes(m.roster) =~= names_bytes(m.roster) + Seq::<u8>::empty());
    lemma_parse_names_roundtrip(m.roster, Seq::<u8>::empty());
}

/// Read a big-endian 64-bit integer at `pos`.
fn read_u64(b: &[u8], pos: usize) -> (r: Option<(u64, usize)>)
    requires
        pos <= b@.len(),
    ensures
        r matches Some(p) ==> p.1 == pos + 8 && p.1 <= b@.len() && parse_u64(b@.skip(pos as int))
            == Some((p.0, b@.skip(p.1 as int))),
        r is None ==> parse_u64(b@.skip(pos as int)) is None,
{
    if b.len() - pos < 8 {
        return None;
    }
    let n = (b[pos] as u64) << 56 | (b[pos + 1] as u64) << 48 | (b[pos + 2] as u64) << 40 | (b[pos
        + 3] as u64) << 32 | (b[pos + 4] as u64) << 24 | (b[pos + 5] as u64) << 16 | (b[pos
        + 6] as u64) << 8 | (b[pos + 7] as u64);
    proof {
        let t = b@.skip(pos as int);
        assert(t.take(8) =~= seq![
            b@[pos as int],
            b@[pos + 1],
            b@[pos + 2],
            b@[pos + 3],
            b@[pos + 4],
            b@[pos + 5],
            b@[pos + 6],
            b@[pos + 7],
        ]);
        assert(t.skip(8) =~= b@.skip(pos + 8));
    }
    Some((n, pos + 8))
}

/// Read a length-prefixed field at `pos`.
fn read_field(b: &[u8], pos: usize) -> (r: Option<(Vec<u8>, usize)>)
    requires
        pos <= b@.len(),
    ensures
        r matches Some(p) ==> p.1 <= b@.len() && parse_field(b@.skip(pos as int)) == Some(
            (p.0@, b@.skip(p.1 as int)),
        ),
        r is None ==> parse_field(b@.skip(pos as int)) is None,
{
    let (n, p) = match read_u64(b, pos) {
        Some(v) => v,
        None => {
            return None;
        },
    };
    let blen = b.len();
    if n > (blen - p) as u64 {
        return None;
    }
    let len = n as usize;
    let mut field: Vec<u8> = Vec::new();
    let mut i: usize = 0;
    while i < len
        invariant
            i <= len,
            p + len <= blen,
            blen == b@.len(),
            field@ == b@.subrange(p as int, p + i),
        decreases len - i,
    {
        field.push(b[p + i]);
        i = i + 1;
        assert(field@ =~= b@.subrange(p as int, p + i));
    }
    proof {
        assert(b@.skip(p as int).take(n as int) =~= b@.subrange(p as int, p + len));
        assert(b@.skip(p as int).skip(n as int) =~= b@.skip(p + len));
    }
    Some((field, p + len))
}

/// Read a length-prefixed UTF-8 text at `pos`.
fn read_string(b: &[u8], pos: usize) -> (r: Option<(String, usize)>)
    requires
        pos <= b@.len(),
    ensures
        r matches Some(p) ==> p.1 <= b@.len() && parse_string(b@.skip(pos as int)) == Some(
            (p.0@, b@.skip(p.1 as int)),
        ),
        r is None ==> parse_string(b@.skip(pos as int)) is None,
{
    let (field, p) = match read_field(b, pos) {
        Some(v) => v,
        None => {
            return None;
        },
    };
    match bytes_to_string(field) {
        Some(st) => Some((st, p)),
        None => None,
    }
}

/// Read `count` length-prefixed UTF-8 texts at `pos`.
fn read_names(b: &[u8], pos: usize, count: u64) -> (r: Option<(Vec<String>, usize)>)
    requires
        pos <= b@.len(),
    ensures
        r matches Some(p) ==> p.1 <= b@.len() && parse_names(b@.skip(pos as int), count as int)
            == Some((names_of(p.0@), b@.skip(p.1 as int))),
        r is None ==> parse_names(b@.skip(pos as int), count as int) is None,
    decreases count,
{
    if count == 0 {
        let v: Vec<String> = Vec::new();
        assert(names_of(v@) =~= Seq::<Seq<char>>::empty());
        return Some((v, pos));
    }
    let (st, p) = match read_string(b, pos) {
        Some(v) => v,
        None => {
            return None;
        },
    };
    let (mut names, p2) = match read_names(b, p, count - 1) {
        Some(v) => v,
        None => {
            return None;
        },
    };
    let ghost tail = names@;
    names.insert(0, st);
    assert(names_of(names@) =~= seq![st@] + names_of(tail));
    Some((names, p2))
}

/// Encode a welcome token as bytes.
pub fn encode_welcome(w: &Welcome) -> (r: Vec<u8>)
    ensures
        r@ == welcome_bytes(welcome_model_of(*w)),
{
    let mut out: Vec<u8> = Vec::new();
    push_field(&mut out, w.group_id.as_str().as_bytes());
    push_u64_be(&mut out, w.epoch);
    push_field(&mut out, w.target_ref.as_slice());
    push_field(&mut out, w.kem_output.as_slice());
    push_field(&mut out, w.sealed_secret.as_slice());
    push_u64_be(&mut out, w.roster.len() as u64);
    let ghost head = out@;
    let mut i: usize = 0;
    while i < w.roster.len()
        invariant
            i <= w.roster@.len(),
            out@ == head + names_bytes(names_of(w.roster@.take(i as int))),
        decreases w.roster@.len() - i,
    {
        let ghost prev_names = names_of(w.roster@.take(i as int));
        push_field(&mut out, w.roster[i].as_str().as_bytes());
        i = i + 1;
        proof {
            lemma_names_bytes_push(prev_names, w.roster@[i - 1]@);
            assert(names_of(w.roster@.take(i as int)) =~= prev_names.push(w.roster@[i - 1]@));
        }
    }
    proof {
        assert(w.roster@.take(w.roster@.len() as int) =~= w.roster@);
        assert(out@ =~= welcome_bytes(welcome_model_of(*w)));
    }
    out
}

/// Decode a welcome token.  Exactly the byte sequences the encoding
/// produces are accepted; everything else fails as unparsable.
pub fn decode_welcome(b: &[u8]) -> (r: Result<Welcome, EngineError>)
    ensures
        r matches Ok(w) ==> parse_welcome(b@) == Some(welcome_model_of(w)),
        r matches Err(e) ==> e == EngineError::WelcomeParse && parse_welcome(b@) is None,
{
    proof {
        assert(b@.skip(0) =~= b@);
    }
    let (group_id, p1) = match read_string(b, 0) {
        Some(v) => v,
        None => {
            return Err(EngineError::WelcomeParse);
        },
    };
    let (epoch, p2) = match read_u64(b, p1) {
        Some(v) => v,
        None => {
            return Err(EngineError::WelcomeParse);
        },
    };
    let (target_ref, p3) = match read_field(b, p2) {
        Some(v) => v,
        None => {
            return Err(EngineError::WelcomeParse);
        },
    };
    let (kem_output, p4) = match read_field(b, p3) {
        Some(v) => v,
        None => {
            return Err(EngineError::WelcomeParse);
        },
    };
    let (sealed_secret, p5) = match read_field(b, p4) {
        Some(v) => v,
        None => {
            return Err(EngineError::WelcomeParse);
        },
    };
    let (count, p6) = match read_u64(b, p5) {
        Some(v) => v,
        None => {
            return Err(EngineError::WelcomeParse);
        },
    };
    let (roster, p7) = match read_names(b, p6, count) {
        Some(v) => v,
        None => {
            return Err(EngineError::WelcomeParse);
        },
    };
    if p7 != b.len() {
        assert(b@.skip(p7 as int).len() != 0);
        return Err(EngineError::WelcomeParse);
    }
    assert(b@.skip(p7 as int).len() == 0);
    Ok(Welcome { group_id, epoch, target_ref, kem_output, sealed_secret, roster })
}

/// The byte encoding of an application ciphertext.
pub open spec fn cipher_bytes(epoch: u64, seq: u64, body: Seq<u8>) -> Seq<u8> {
    u64_be(epoch) + u64_be(seq) + length_prefixed(body)
}

/// Reading the whole of an encoded ciphertext; nothing may follow it.
pub open spec fn parse_cipher(b: Seq<u8>) -> Option<(u64, u64, Seq<u8>)> {
    match parse_u64(b) {
        None => None,
        Some((epoch, r1)) => match parse_u64(r1) {
            None => None,
            Some((seq, r2)) => match parse_field(r2) {
                None => None,
                Some((body, r3)) => if r3.len() == 0 {
                    Some((epoch, seq, body))
                } else {
                    None
                },
            },
        },
    }
}

/// Decoding is the inverse of encoding for ciphertext framing.
pub proof fn lemma_cipher_roundtrip(epoch: u64, seq: u64, body: Seq<u8>)
    requires
        body.len() <= u64::MAX,
    ensures
        parse_cipher(cipher_bytes(epoch, seq, body)) == Some((epoch, seq, body)),
{
    let tail1 = u64_be(seq) + length_prefixed(body);
    assert(cipher_bytes(epoch, seq, body) =~= u64_be(epoch) + tail1);
    lemma_parse_u64_roundtrip(epoch, tail1);
    assert(tail1 =~= u64_be(seq) + length_prefixed(body));
    lemma_parse_u64_roundtrip(seq, length_prefixed(body));
    assert(length_prefixed(body) =~= length_prefixed(body) + Seq::<u8>::empty());
    lemma_parse_field_roundtrip(body, Seq::<u8>::empty());
}

/// Encode an application ciphertext for the envelope's content field.
pub fn encode_cipher_message(cm: &CipherMessage) -> (r: Vec<u8>)
    ensures
        r@ == cipher_bytes(cm.epoch, cm.seq, cm.body@),
{
    let mut out: Vec<u8> = Vec::new();
    push_u64_be(&mut out, cm.epoch);
    push_u64_be(&mut out, cm.seq);
    push_field(&mut out, cm.body.as_slice());
    assert(out@ =~= cipher_bytes(cm.epoch, cm.seq, cm.body@));
    out
}

/// Decode an application ciphertext.  Exactly the byte sequences the
/// encoding produces are accepted; everything else fails as a
/// decryption failure, never silently.
pub fn decode_cipher_message(b: &[u8]) -> (r: Result<CipherMessage, EngineError>)
    ensures
        r matches Ok(cm) ==> parse_cipher(b@) == Some((cm.epoch, cm.seq, cm.body@)),
        r matches Err(e) ==> e == EngineError::DecryptFailure && parse_cipher(b@) is None,
{
    proof {
        assert(b@.skip(0) =~= b@);
    }
    let (epoch, p1) = match read_u64(b, 0) {
        Some(v) => v,
        None => {
            return Err(EngineError::DecryptFailure);
        },
    };
    let (seq, p2) = match read_u64(b, p1) {
        Some(v) => v,
        None => {
            return Err(EngineError::DecryptFailure);
        },
    };
    let (body, p3) = match read_field(b, p2) {
        Some(v) => v,
        None => {
            return Err(EngineError::DecryptFailure);
        },
    };
    if p3 != b.len() {
        assert(b@.skip(p3 as int).len() != 0);
        return Err(EngineError::DecryptFailure);
    }
    assert(b@.skip(p3 as int).len() == 0);
    Ok(CipherMessage { epoch, seq, body })
}

} // verus!
