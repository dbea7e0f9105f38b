//! Identity derivation.
//!
//! A person's synthetic identifier is a version-5 name-based UUID under the
//! URL namespace, derived from a stable seed (a primary email or an external
//! username); a pseudonymous fallback handle is derived from the same hash,
//! base64-encoded and tagged so generated handles are recognisable.
use vstd::prelude::*;

use crate::text::concat2;

verus! {

/// The sixteen bytes of the version-5 UUID of `seed` under the URL
/// namespace. The hash itself is outside code; callers rely only on it
/// being a function of the seed.
pub uninterp spec fn uuid5_url_bytes_of(seed: Seq<u8>) -> Seq<u8>;

/// Relies on `uuid::Uuid::new_v5` with `Uuid::NAMESPACE_URL` and
/// `Uuid::as_bytes`: the name-based UUID is a pure function of the seed,
/// and a UUID is sixteen bytes.
#[verifier::external_body]
fn uuid5_url_raw(seed: &Vec<u8>) -> (r: Vec<u8>)
    ensures
        r@ == uuid5_url_bytes_of(seed@),
        r@.len() == 16,
{
    uuid::Uuid::new_v5(&uuid::Uuid::NAMESPACE_URL, seed.as_slice()).as_bytes().to_vec()
}

/// The base64 encoding of `bytes` in the URL-safe alphabet, with padding.
pub uninterp spec fn b64_url_of(bytes: Seq<u8>) -> Seq<u8>;

/// Relies on `base64::engine::general_purpose::URL_SAFE` and
/// `base64::Engine::encode`: the encoding is a pure function of the input.
#[verifier::external_body]
fn b64_url(bytes: &Vec<u8>) -> (r: Vec<u8>)
    ensures
        r@ == b64_url_of(bytes@),
{
    base64::Engine::encode(&base64::engine::general_purpose::URL_SAFE, bytes.as_slice())
        .into_bytes()
}

/// The lower-case hex digit of a nibble.
pub open spec fn hex_digit(n: u8) -> u8 {
    if n < 10 {
        (48 + n) as u8
    } else {
        (87 + n) as u8
    }
}

/// The two lower-case hex digits of a byte.
pub open spec fn hex_byte(b: u8) -> Seq<u8> {
    seq![hex_digit(b / 16), hex_digit(b % 16)]
}

/// The lower-case hex digits of a byte string.
pub open spec fn hex_seq(s: Seq<u8>) -> Seq<u8>
    decreases s.len(),
{
    if s.len() == 0 {
        Seq::empty()
    } else {
        hex_byte(s[0]) + hex_seq(s.drop_first())
    }
}

/// `hex_seq` distributes over appending one byte.
pub proof fn lemma_hex_seq_push(s: Seq<u8>, x: u8)
    ensures
        hex_seq(s.push(x)) == hex_seq(s) + hex_byte(x),
    decreases s.len(),
{
    if s.len() == 0 {
        assert(s.push(x)[0] == x);
        assert(s.push(x).drop_first() =~= Seq::<u8>::empty());
        assert(hex_seq(Seq::<u8>::empty()) =~= Seq::<u8>::empty());
        assert(s =~= Seq::<u8>::empty());
        assert(hex_seq(s.push(x)) =~= hex_seq(s) + hex_byte(x));
    } else {
        assert(s.push(x).drop_first() =~= s.drop_first().push(x));
        lemma_hex_seq_push(s.drop_first(), x);
        assert(hex_seq(s.push(x)) =~= hex_seq(s) + hex_byte(x));
    }
}

/// `hex_seq` is twice as long as its input.
pub proof fn lemma_hex_seq_len(s: Seq<u8>)
    ensures
        hex_seq(s).len() == 2 * s.len(),
    decreases s.len(),
{
    if s.len() > 0 {
        lemma_hex_seq_len(s.drop_first());
    }
}

/// A hyphen, as a byte string.
pub open spec fn dash_m() -> Seq<u8> {
    seq![45u8]
}

/// The standard hyphenated text form of a sixteen-byte UUID: five groups of
/// lower-case hex digits, 8-4-4-4-12, separated by hyphens.
pub open spec fn uuid_hyphenated(b: Seq<u8>) -> Seq<u8> {
    hex_seq(b.subrange(0, 4)) + dash_m() + hex_seq(b.subrange(4, 6)) + dash_m() + hex_seq(
        b.subrange(6, 8),
    ) + dash_m() + hex_seq(b.subrange(8, 10)) + dash_m() + hex_seq(b.subrange(10, 16))
}

/// The lower-case hex digits of `b[from..to]`.
fn hex_bytes(b: &Vec<u8>, from: usize, to: usize) -> (r: Vec<u8>)
    requires
        from <= to <= b@.len(),
    ensures
        r@ == hex_seq(b@.subrange(from as int, to as int)),
{
    let mut r: Vec<u8> = Vec::new();
    let mut i: usize = from;
    proof {
        assert(b@.subrange(from as int, from as int) =~= Seq::empty());
    }
    while i < to
        invariant
            from <= i <= to <= b@.len(),
            r@ == hex_seq(b@.subrange(from as int, i as int)),
        decreases to - i,
    {
        let x = b[i];
        let hi = x / 16;
        let lo = x % 16;
        if hi < 10 {
            r.push(48 + hi);
        } else {
            r.push(87 + hi);
        }
        if lo < 10 {
            r.push(48 + lo);
        } else {
            r.push(87 + lo);
        }
        proof {
            assert(b@.subrange(from as int, i + 1) =~= b@.subrange(from as int, i as int).push(
                b@[i as int],
            ));
            lemma_hex_seq_push(b@.subrange(from as int, i as int), b@[i as int]);
            assert(r@ =~= hex_seq(b@.subrange(from as int, i as int)) + hex_byte(b@[i as int]));
        }
        i += 1;
    }
    r
}

/// The identity of a seed: the hyphenated text of its version-5 UUID under
/// the URL namespace. Deterministic and total; equal seeds always give
/// equal identifiers.
pub fn derive_id(seed: &Vec<u8>) -> (r: Vec<u8>)
    ensures
        r@ == uuid_hyphenated(uuid5_url_bytes_of(seed@)),
        r@.len() == 36,
{
    let raw = uuid5_url_raw(seed);
    let g1 = hex_bytes(&raw, 0, 4);
    let g2 = hex_bytes(&raw, 4, 6);
    let g3 = hex_bytes(&raw, 6, 8);
    let g4 = hex_bytes(&raw, 8, 10);
    let g5 = hex_bytes(&raw, 10, 16);
    let mut dash: Vec<u8> = Vec::new();
    dash.push(45);
    proof {
        assert(dash@ =~= dash_m());
    }
    let mut r = concat2(&g1, &dash);
    r = concat2(&r, &g2);
    r = concat2(&r, &dash);
    r = concat2(&r, &g3);
    r = concat2(&r, &dash);
    r = concat2(&r, &g4);
    r = concat2(&r, &dash);
    r = concat2(&r, &g5);
    proof {
        assert(r@ =~= uuid_hyphenated(uuid5_url_bytes_of(seed@)));
        lemma_hex_seq_len(raw@.subrange(0, 4));
        lemma_hex_seq_len(raw@.subrange(4, 6));
        lemma_hex_seq_len(raw@.subrange(6, 8));
        lemma_hex_seq_len(raw@.subrange(8, 10));
        lemma_hex_seq_len(raw@.subrange(10, 16));
    }
    r
}

/// The model of a derived identity.
pub open spec fn derive_id_m(seed: Seq<u8>) -> Seq<u8> {
    uuid_hyphenated(uuid5_url_bytes_of(seed))
}

/// The fixed tag in front of every generated handle: the bytes of `"r--"`.
pub open spec fn generated_tag_m() -> Seq<u8> {
    seq![114u8, 45u8, 45u8]
}

/// The separator hashed between email and entropy: the byte of `"#"`.
pub open spec fn seed_sep_m() -> Seq<u8> {
    seq![35u8]
}

/// The model of a generated fallback handle.
pub open spec fn generate_username_m(value: Seq<u8>, entropy: Seq<u8>) -> Seq<u8> {
    generated_tag_m() + b64_url_of(uuid5_url_bytes_of(value + seed_sep_m() + entropy))
}

/// A stable pseudonymous handle for someone with no usable username in any
/// source: the hash of `value + "#" + entropy`, base64-encoded URL-safely
/// and tagged with a fixed prefix so generated handles stand out.
/// Deterministic in `(value, entropy)`, which keeps re-runs idempotent.
pub fn generate_username(value: &Vec<u8>, entropy: &Vec<u8>) -> (r: Vec<u8>)
    ensures
        r@ == generate_username_m(value@, entropy@),
{
    let mut hash_sep: Vec<u8> = Vec::new();
    hash_sep.push(35);
    let mut seed = concat2(value, &hash_sep);
    seed = concat2(&seed, entropy);
    let raw = uuid5_url_raw(&seed);
    let enc = b64_url(&raw);
    let mut tag: Vec<u8> = Vec::new();
    tag.push(114);
    tag.push(45);
    tag.push(45);
    let r = concat2(&tag, &enc);
    proof {
        assert(hash_sep@ =~= seed_sep_m());
        assert(seed@ =~= value@ + seed_sep_m() + entropy@);
        assert(tag@ =~= generated_tag_m());
    }
    r
}

/// Determinism of identity derivation: equal seeds give equal identifiers,
/// across calls and across runs.
pub proof fn lemma_derive_id_deterministic(s1: Seq<u8>, s2: Seq<u8>)
    requires
        s1 == s2,
    ensures
        derive_id_m(s1) == derive_id_m(s2),
{
}

} // verus!
