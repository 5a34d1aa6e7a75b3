//! The network's key and the encryption of datagrams.
//!
//! A datagram is a nonce of twelve bytes, the ciphertext, which is as long as the
//! plaintext, and an authentication tag of sixteen bytes.

use crate::random::random_nonce;
use ring::aead::{Aad, LessSafeKey, Nonce, UnboundKey, CHACHA20_POLY1305};
use ring::digest::{digest, SHA256};
use vstd::prelude::*;
use vstd::string::*;
use vstd::utf8::{encode_utf8, is_ascii_chars_encode_utf8};

verus! {

/// The length of the nonce that opens a datagram.
pub const NONCE_LEN: usize = 12;

/// The length of the tag that closes a datagram.
pub const TAG_LEN: usize = 16;

/// The longest plaintext that ChaCha20-Poly1305 encrypts, in bytes.
pub const MAX_PLAIN_LEN: u64 = 274_877_906_880;

/// The number of bytes from which on SHA-256 takes no input.
pub const DIGEST_LIMIT: u64 = 0x2000_0000_0000_0000;

/// The SHA-256 digest of `data`.
pub uninterp spec fn sha256(data: Seq<u8>) -> Seq<u8>;

/// `ring::digest::digest` with `SHA256`: the 32 bytes of the digest of `data`.
#[verifier::external_body]
fn sha256_digest(data: &[u8]) -> (hash: [u8; 32])
    requires
        data@.len() < DIGEST_LIMIT,
    ensures
        hash@ == sha256(data@),
{
    let mut hash = [0u8; 32];
    hash.copy_from_slice(digest(&SHA256, data).as_ref());
    hash
}

/// The text whose digest is the key of a network.
pub open spec fn credentials(ssid: Seq<char>, password: Seq<char>) -> Seq<char> {
    ssid + seq![':'] + password
}

/// Whether the digest of the credentials can be taken.
pub open spec fn credentials_fit(ssid: Seq<char>, password: Seq<char>) -> bool {
    encode_utf8(credentials(ssid, password)).len() < DIGEST_LIMIT
}

/// The key of the network with this name and password.
pub open spec fn network_key(ssid: Seq<char>, password: Seq<char>) -> Seq<u8> {
    sha256(encode_utf8(credentials(ssid, password)))
}

/// Derives the key of a network from its name and password, so that all who know
/// both have the same key.
pub fn derive_key(ssid: &str, password: &str) -> (key: [u8; 32])
    requires
        credentials_fit(ssid@, password@),
    ensures
        key@ == network_key(ssid@, password@),
{
    proof {
        reveal_strlit(":");
        assert(":"@ =~= seq![':']);
    }
    let text: String = ssid.to_owned().concat(":").concat(password);
    sha256_digest(text.as_str().as_bytes())
}

/// The ciphertext and the tag of `plain` under ChaCha20-Poly1305 with this key and
/// nonce and without associated data.
pub uninterp spec fn sealed(key: Seq<u8>, nonce: Seq<u8>, plain: Seq<u8>) -> (Seq<u8>, Seq<u8>);

/// The plaintext that ChaCha20-Poly1305 gives for `data`, a ciphertext followed by
/// its tag, with this key and nonce and without associated data; `None` where the
/// tag is not that of the ciphertext.
pub uninterp spec fn opened(key: Seq<u8>, nonce: Seq<u8>, data: Seq<u8>) -> Option<Seq<u8>>;

/// `ring::aead::LessSafeKey::seal_in_place_separate_tag` with `CHACHA20_POLY1305`:
/// the ciphertext, as long as the plaintext, and the tag. Opening the two with the
/// same key and nonce gives the plaintext back. The cipher combines its input with a
/// key stream by exclusive or, so that applied to the ciphertext it gives the
/// plaintext.
#[verifier::external_body]
fn seal(key: &[u8; 32], nonce: &[u8; 12], plain: &[u8]) -> (r: (Vec<u8>, [u8; 16]))
    requires
        plain@.len() <= MAX_PLAIN_LEN,
    ensures
        (r.0@, r.1@) == sealed(key@, nonce@, plain@),
        r.0@.len() == plain@.len(),
        opened(key@, nonce@, r.0@ + r.1@) == Some(plain@),
        sealed(key@, nonce@, r.0@).0 == plain@,
{
    let key = LessSafeKey::new(UnboundKey::new(&CHACHA20_POLY1305, key).unwrap());
    let nonce = Nonce::assume_unique_for_key(*nonce);
    let mut in_out = plain.to_vec();
    let tag = key.seal_in_place_separate_tag(nonce, Aad::empty(), &mut in_out).unwrap();
    (in_out, tag.as_ref().try_into().unwrap())
}

/// `ring::aead::LessSafeKey::open_in_place` with `CHACHA20_POLY1305`: the buffer
/// that held the ciphertext and the tag. Where the call succeeds, the plaintext, of
/// the same length, has replaced the ciphertext, and the tag still stands behind
/// it; sealing that plaintext gives the input again, and the plaintext is what the
/// cipher makes of the ciphertext.
#[verifier::external_body]
fn open(key: &[u8; 32], nonce: &[u8; 12], data: &[u8]) -> (r: Option<Vec<u8>>)
    requires
        data@.len() >= TAG_LEN,
    ensures
        r is Some <==> opened(key@, nonce@, data@) is Some,
        r matches Some(buffer) ==> {
            let plain = opened(key@, nonce@, data@).unwrap();
            let split = data@.len() - TAG_LEN;
            &&& plain.len() == split
            &&& buffer@ == plain + data@.skip(split)
            &&& sealed(key@, nonce@, plain) == (data@.take(split), data@.skip(split))
            &&& sealed(key@, nonce@, data@.take(split)).0 == plain
        },
{
    let key = LessSafeKey::new(UnboundKey::new(&CHACHA20_POLY1305, key).unwrap());
    let nonce = Nonce::assume_unique_for_key(*nonce);
    let mut in_out = data.to_vec();
    key.open_in_place(nonce, Aad::empty(), &mut in_out).ok()?;
    Some(in_out)
}

/// The datagram that carries `plain` under this key and nonce.
pub open spec fn datagram(key: Seq<u8>, nonce: Seq<u8>, plain: Seq<u8>) -> Seq<u8> {
    nonce + sealed(key, nonce, plain).0 + sealed(key, nonce, plain).1
}

/// The nonce of a datagram.
pub open spec fn nonce_of(data: Seq<u8>) -> Seq<u8> {
    data.take(NONCE_LEN as int)
}

/// The tag of a datagram.
pub open spec fn tag_of(data: Seq<u8>) -> Seq<u8> {
    data.skip(data.len() - TAG_LEN)
}

/// What a datagram decrypts to: its plaintext with its tag still behind it. `None`
/// where it is too short for a nonce and a tag, or fails authentication.
pub open spec fn decrypted(key: Seq<u8>, data: Seq<u8>) -> Option<Seq<u8>> {
    if data.len() < NONCE_LEN + TAG_LEN {
        None
    } else {
        match opened(key, nonce_of(data), data.skip(NONCE_LEN as int)) {
            Some(plain) => Some(plain + tag_of(data)),
            None => None,
        }
    }
}

/// The ciphertext of a datagram.
pub open spec fn ciphertext_of(data: Seq<u8>) -> Seq<u8> {
    data.subrange(NONCE_LEN as int, data.len() - TAG_LEN)
}

/// Whether `data` is a datagram that carries `plain` under `key`: it is the one
/// built with the nonce that it starts with, from a ciphertext as long as `plain`
/// and a tag of sixteen bytes; decrypting it gives `plain` back, with the tag behind
/// it; and `plain` is what the cipher makes of the ciphertext.
pub open spec fn carries(key: Seq<u8>, data: Seq<u8>, plain: Seq<u8>) -> bool {
    &&& data.len() == NONCE_LEN + plain.len() + TAG_LEN
    &&& data == datagram(key, nonce_of(data), plain)
    &&& sealed(key, nonce_of(data), plain).0.len() == plain.len()
    &&& sealed(key, nonce_of(data), plain).1.len() == TAG_LEN
    &&& decrypted(key, data) == Some(plain + tag_of(data))
    &&& sealed(key, nonce_of(data), ciphertext_of(data)).0 == plain
}

/// Whether two datagrams differ in nothing but their tags.
pub open spec fn same_but_for_tag(a: Seq<u8>, b: Seq<u8>) -> bool {
    &&& a.len() == b.len()
    &&& a.take(a.len() - TAG_LEN) == b.take(b.len() - TAG_LEN)
}

/// A datagram that carries a plaintext is a nonce of twelve bytes, then the
/// ciphertext, as long as the plaintext, then the tag of sixteen bytes; ciphertext
/// and tag are the sealing of the plaintext under the key and that nonce.
pub proof fn law_layout(key: Seq<u8>, data: Seq<u8>, plain: Seq<u8>)
    requires
        carries(key, data, plain),
    ensures
        data.len() == plain.len() + 28,
        sealed(key, data.subrange(0, 12), plain) == (
            data.subrange(12, data.len() - 16),
            data.subrange(data.len() - 16, data.len() as int),
        ),
        data == nonce_of(data) + ciphertext_of(data) + tag_of(data),
        nonce_of(data) == data.subrange(0, 12),
        ciphertext_of(data) == data.subrange(12, data.len() - 16),
        tag_of(data) == data.subrange(data.len() - 16, data.len() as int),
{
    let (ciphertext, tag) = sealed(key, nonce_of(data), plain);
    assert(ciphertext_of(data) =~= ciphertext);
    assert(tag_of(data) =~= tag);
    assert(nonce_of(data) =~= data.subrange(0, 12));
    assert(tag =~= data.subrange(data.len() - 16, data.len() as int));
}

/// What a datagram decrypts to, by its parts: where the cipher opens the ciphertext and
/// the tag under the nonce, the plaintext and the tag; else nothing. What is too short
/// for a nonce and a tag decrypts to nothing.
pub proof fn law_decrypts(
    key: Seq<u8>,
    nonce: Seq<u8>,
    ciphertext: Seq<u8>,
    tag: Seq<u8>,
    short: Seq<u8>,
)
    requires
        nonce.len() == 12,
        tag.len() == 16,
        short.len() < 28,
    ensures
        opened(key, nonce, ciphertext + tag) matches Some(plain) ==> decrypted(
            key,
            nonce + ciphertext + tag,
        ) == Some(plain + tag),
        opened(key, nonce, ciphertext + tag) is None ==> decrypted(
            key,
            nonce + ciphertext + tag,
        ) is None,
        decrypted(key, short) is None,
{
    let data = nonce + ciphertext + tag;
    assert(nonce_of(data) =~= nonce);
    assert(data.skip(12) =~= ciphertext + tag);
    assert(tag_of(data) =~= tag);
}

/// What carries a plaintext gives it back: decrypting leaves the plaintext, with the
/// last sixteen bytes of the datagram behind it, and no datagram carries two
/// plaintexts.
pub proof fn law_carried_comes_back(key: Seq<u8>, data: Seq<u8>, plain: Seq<u8>, other: Seq<u8>)
    requires
        carries(key, data, plain),
    ensures
        decrypted(key, data) == Some(plain + data.subrange(data.len() - 16, data.len() as int)),
        carries(key, data, other) ==> other == plain,
{
    law_layout(key, data, plain);
    assert(tag_of(data) =~= data.subrange(data.len() - 16, data.len() as int));
    if carries(key, data, other) {
        law_one_tag(key, data, plain, data, other);
    }
}

/// To a nonce and a ciphertext there is one tag: of datagrams that differ in nothing
/// but their tags, at most one carries anything under a key.
pub proof fn law_one_tag(
    key: Seq<u8>,
    data: Seq<u8>,
    plain: Seq<u8>,
    altered: Seq<u8>,
    other: Seq<u8>,
)
    requires
        carries(key, data, plain),
        carries(key, altered, other),
        same_but_for_tag(data, altered),
    ensures
        altered == data,
        other == plain,
{
    let split = data.len() - TAG_LEN;
    assert(nonce_of(data) =~= data.take(split).take(NONCE_LEN as int));
    assert(nonce_of(altered) =~= altered.take(split).take(NONCE_LEN as int));
    assert(ciphertext_of(data) =~= data.take(split).skip(NONCE_LEN as int));
    assert(ciphertext_of(altered) =~= altered.take(split).skip(NONCE_LEN as int));
}

/// Encrypts `plain` under a nonce that the caller chose.
pub fn encrypt_with_nonce(key: &[u8; 32], nonce: &[u8; 12], plain: &[u8]) -> (result: Vec<u8>)
    requires
        plain@.len() <= MAX_PLAIN_LEN,
    ensures
        result@ == datagram(key@, nonce@, plain@),
        nonce_of(result@) == nonce@,
        carries(key@, result@, plain@),
{
    let (ciphertext, tag) = seal(key, nonce, plain);
    let mut result: Vec<u8> = Vec::new();
    result.extend_from_slice(nonce);
    result.extend_from_slice(&ciphertext);
    result.extend_from_slice(&tag);
    proof {
        assert(result@ =~= nonce@ + ciphertext@ + tag@);
        assert(nonce_of(result@) =~= nonce@);
        assert(result@.skip(NONCE_LEN as int) =~= ciphertext@ + tag@);
        assert(ciphertext_of(result@) =~= ciphertext@);
        assert(tag_of(result@) =~= tag@);
    }
    result
}

/// Encrypts `plain` under a fresh random nonce.
pub fn encrypt_message(key: &[u8; 32], plain: &[u8]) -> (result: Vec<u8>)
    requires
        plain@.len() <= MAX_PLAIN_LEN,
    ensures
        carries(key@, result@, plain@),
{
    let nonce = random_nonce();
    encrypt_with_nonce(key, &nonce, plain)
}

/// Authenticates and decrypts a datagram. The tag stays behind the plaintext. A
/// datagram whose tag was altered is refused.
pub fn decrypt_message(key: &[u8; 32], data: &[u8]) -> (result: Option<Vec<u8>>)
    ensures
        result is Some <==> decrypted(key@, data@) is Some,
        result matches Some(r) ==> decrypted(key@, data@) == Some(r@),
        result matches Some(r) ==> r@.len() == data@.len() - NONCE_LEN && carries(
            key@,
            data@,
            r@.take(r@.len() - TAG_LEN),
        ),
        forall|sent: Seq<u8>, plain: Seq<u8>| #[trigger]
            carries(key@, sent, plain) && same_but_for_tag(sent, data@) && sent != data@
                ==> result is None,
{
    if data.len() < NONCE_LEN + TAG_LEN {
        return None;
    }
    let (head, rest) = data.split_at(NONCE_LEN);
    let mut nonce: [u8; 12] = [0; 12];
    let mut i: usize = 0;
    while i < NONCE_LEN
        invariant
            i <= NONCE_LEN,
            head@.len() == NONCE_LEN,
            forall|j: int| 0 <= j < i ==> nonce@[j] == head@[j],
        decreases NONCE_LEN - i,
    {
        nonce[i] = head[i];
        i += 1;
    }
    proof {
        assert(nonce@ =~= nonce_of(data@));
        assert(rest@ =~= data@.skip(NONCE_LEN as int));
        assert(rest@.skip(rest@.len() - TAG_LEN) =~= tag_of(data@));
    }
    let result = open(key, &nonce, rest);
    proof {
        if result is Some {
            let buffer = result->0;
            let plain = opened(key@, nonce@, rest@).unwrap();
            let split = rest@.len() - TAG_LEN;
            assert(buffer@.take(buffer@.len() - TAG_LEN) =~= plain);
            assert(data@ =~= nonce@ + rest@.take(split) + rest@.skip(split));
            assert(ciphertext_of(data@) =~= rest@.take(split));
            assert(carries(key@, data@, plain));
            assert forall|sent: Seq<u8>, other: Seq<u8>| #[trigger]
                carries(key@, sent, other) && same_but_for_tag(sent, data@) implies sent
                == data@ by {
                law_one_tag(key@, sent, other, data@, plain);
            }
        }
    }
    result
}

/// Encoding texts one after the other encodes the text that they make up.
proof fn lemma_encode_append(a: Seq<char>, b: Seq<char>)
    ensures
        encode_utf8(a + b) == encode_utf8(a) + encode_utf8(b),
    decreases a.len(),
{
    if a.len() == 0 {
        assert(a + b =~= b);
        assert(encode_utf8(a) + encode_utf8(b) =~= encode_utf8(b));
    } else {
        assert((a + b).drop_first() =~= a.drop_first() + b);
        lemma_encode_append(a.drop_first(), b);
        assert((a + b)[0] == a[0]);
        assert(encode_utf8(a + b) =~= encode_utf8(a) + encode_utf8(b));
    }
}

/// The key of a network is the SHA-256 digest of the bytes of its name, a colon and
/// the bytes of its password. It can be taken where these are fewer than two to the
/// power of 61.
pub proof fn law_network_key(ssid: Seq<char>, password: Seq<char>)
    ensures
        network_key(ssid, password) == sha256(
            encode_utf8(ssid) + seq![0x3au8] + encode_utf8(password),
        ),
        credentials_fit(ssid, password) <==> encode_utf8(ssid).len() + 1 + encode_utf8(
            password,
        ).len() < 0x2000_0000_0000_0000,
{
    lemma_encode_append(ssid + seq![':'], password);
    lemma_encode_append(ssid, seq![':']);
    let colon = seq![':'];
    is_ascii_chars_encode_utf8(colon);
    assert(encode_utf8(colon) =~= seq![0x3au8]);
}

} // verus!
