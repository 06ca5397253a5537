//! SHA-256 content hashes of chunks and of cache keys.
//!
//! A chunk's hash binds its path, its content and the instant at which it
//! was recorded. The three parts are joined by a vertical bar so that text
//! cannot move from one part to its neighbour without changing the message.

use crate::hex::{hex_lower, is_hex_digit, lemma_hex_lower_shape, to_hex};
use crate::text::lemma_utf8_injective;
use sha2::{Digest, Sha256};
use vstd::prelude::*;
use vstd::utf8::{char_is_scalar, char_u32_cast, encode_scalar, encode_utf8};

verus! {

/// The byte that separates the parts of a chunk message: `|`.
pub const SEPARATOR: u8 = 0x7C;

/// The number of characters in a rendered SHA-256 digest.
pub const HASH_LEN: usize = 64;

/// The SHA-256 digest of `data`.
pub uninterp spec fn sha256(data: Seq<u8>) -> Seq<u8>;

/// Calls `sha2::Sha256::digest` on `data` and copies the digest out.
///
/// Trusted: the bytes returned are the SHA-256 digest of `data`, which is a
/// function of `data` alone, and there are thirty-two of them.
#[verifier::external_body]
fn sha256_digest(data: &[u8]) -> (digest: Vec<u8>)
    ensures
        digest@ == sha256(data@),
        digest@.len() == 32,
{
    Sha256::digest(data).to_vec()
}

/// The bytes that are hashed for a chunk: the UTF-8 of `path`, a separator,
/// the UTF-8 of `content`, a separator, the UTF-8 of `timestamp`.
pub open spec fn chunk_message(
    path: Seq<char>,
    content: Seq<char>,
    timestamp: Seq<char>,
) -> Seq<u8> {
    encode_utf8(path) + seq![SEPARATOR] + encode_utf8(content) + seq![SEPARATOR] + encode_utf8(
        timestamp,
    )
}

/// The hash of a chunk: the lower-case hexadecimal SHA-256 of its message.
pub open spec fn chunk_hash(
    path: Seq<char>,
    content: Seq<char>,
    timestamp: Seq<char>,
) -> Seq<char> {
    hex_lower(sha256(chunk_message(path, content, timestamp)))
}

/// The cache key of a text: the lower-case hexadecimal SHA-256 of its UTF-8.
pub open spec fn text_hash(text: Seq<char>) -> Seq<char> {
    hex_lower(sha256(encode_utf8(text)))
}

/// Whether `s` has the shape of a rendered digest: sixty-four lower-case
/// hexadecimal digits.
pub open spec fn is_hash_text(s: Seq<char>) -> bool {
    &&& s.len() == HASH_LEN
    &&& forall|i: int| 0 <= i < s.len() ==> is_hex_digit(#[trigger] s[i])
}

/// Appends the bytes of `part` to `buffer`.
fn push_bytes(buffer: &mut Vec<u8>, part: &[u8])
    ensures
        final(buffer)@ == old(buffer)@ + part@,
{
    let mut i: usize = 0;
    while i < part.len()
        invariant
            i <= part.len(),
            buffer@ == old(buffer)@ + part@.take(i as int),
        decreases part.len() - i,
    {
        buffer.push(part[i]);
        assert(part@.take(i as int + 1) =~= part@.take(i as int).push(part@[i as int]));
        i = i + 1;
    }
    assert(part@.take(i as int) =~= part@);
}

/// Hashes `data` and renders the digest.
fn digest_hex(data: &[u8]) -> (text: String)
    ensures
        text@ == hex_lower(sha256(data@)),
        is_hash_text(text@),
{
    let digest = sha256_digest(data);
    proof {
        lemma_hex_lower_shape(digest@);
    }
    to_hex(digest.as_slice())
}

/// Computes the hash that binds `content` to `path` and `timestamp`.
///
/// The result depends on the three texts alone, and is always sixty-four
/// lower-case hexadecimal digits.
pub fn compute_chunk_hash(path: &str, content: &str, timestamp: &str) -> (hash: String)
    ensures
        hash@ == chunk_hash(path@, content@, timestamp@),
        is_hash_text(hash@),
{
    let mut message: Vec<u8> = Vec::new();
    push_bytes(&mut message, path.as_bytes());
    message.push(SEPARATOR);
    push_bytes(&mut message, content.as_bytes());
    message.push(SEPARATOR);
    push_bytes(&mut message, timestamp.as_bytes());
    assert(message@ =~= chunk_message(path@, content@, timestamp@));
    digest_hex(message.as_slice())
}

/// Computes the key under which the embedding of `text` is cached.
pub fn hash_text(text: &str) -> (hash: String)
    ensures
        hash@ == text_hash(text@),
        is_hash_text(hash@),
{
    digest_hex(text.as_bytes())
}

/// Whether a text holds no vertical bar.
pub open spec fn bar_free(text: Seq<char>) -> bool {
    forall|i: int| 0 <= i < text.len() ==> text[i] != '|'
}

/// Whether a byte string holds no separator.
pub open spec fn separator_free(bytes: Seq<u8>) -> bool {
    forall|i: int| 0 <= i < bytes.len() ==> bytes[i] != SEPARATOR
}

/// No byte of the UTF-8 of a character other than the vertical bar is the
/// separator: a character below 128 is its own byte, and every byte of a
/// longer encoding is 128 or more.
proof fn lemma_scalar_has_no_separator(scalar: u32)
    requires
        scalar != 0x7C,
        scalar <= 0x10FFFF,
    ensures
        separator_free(encode_scalar(scalar)),
{
    assert(scalar <= 0x7F ==> (scalar & 0x7F) as u8 != 0x7Cu8) by (bit_vector)
        requires
            scalar != 0x7C,
    ;
    assert((0xC0u8 | ((scalar >> 6) & 0x1F) as u8) != 0x7Cu8) by (bit_vector);
    assert((0xE0u8 | ((scalar >> 12) & 0x0F) as u8) != 0x7Cu8) by (bit_vector);
    assert((0xF0u8 | ((scalar >> 18) & 0x7) as u8) != 0x7Cu8) by (bit_vector);
    assert((0x80u8 | (scalar & 0x3F) as u8) != 0x7Cu8) by (bit_vector);
    assert((0x80u8 | ((scalar >> 6) & 0x3F) as u8) != 0x7Cu8) by (bit_vector);
    assert((0x80u8 | ((scalar >> 12) & 0x3F) as u8) != 0x7Cu8) by (bit_vector);
}

/// The UTF-8 of a text without a vertical bar holds no separator.
proof fn lemma_bar_free_bytes(text: Seq<char>)
    requires
        bar_free(text),
    ensures
        separator_free(encode_utf8(text)),
    decreases text.len(),
{
    if text.len() > 0 {
        let first = text[0] as u32;
        assert(text[0] != '|');
        char_is_scalar(text[0]);
        assert(first != 0x7C) by {
            if first == 0x7C {
                char_u32_cast(text[0], first);
                char_u32_cast('|', 0x7Cu32);
            }
        }
        lemma_scalar_has_no_separator(first);
        lemma_bar_free_bytes(text.drop_first());
        let head = encode_scalar(first);
        let tail = encode_utf8(text.drop_first());
        assert forall|i: int| 0 <= i < (head + tail).len() implies (head + tail)[i]
            != SEPARATOR by {
            if i < head.len() {
                assert((head + tail)[i] == head[i]);
            } else {
                assert((head + tail)[i] == tail[i - head.len()]);
            }
        }
    }
}

/// Byte strings that are joined by a separator come apart in one way only,
/// where the part before the separator holds none.
proof fn lemma_split_at_separator(a1: Seq<u8>, r1: Seq<u8>, a2: Seq<u8>, r2: Seq<u8>)
    requires
        separator_free(a1),
        separator_free(a2),
        a1 + seq![SEPARATOR] + r1 == a2 + seq![SEPARATOR] + r2,
    ensures
        a1 == a2,
        r1 == r2,
{
    let left = a1 + seq![SEPARATOR] + r1;
    let right = a2 + seq![SEPARATOR] + r2;
    assert(left[a1.len() as int] == SEPARATOR);
    assert(right[a2.len() as int] == SEPARATOR);
    if a1.len() < a2.len() {
        assert(right[a1.len() as int] == a2[a1.len() as int]);
    } else if a2.len() < a1.len() {
        assert(left[a2.len() as int] == a1[a2.len() as int]);
    }
    assert(a1.len() == a2.len());
    assert(left.len() == right.len());
    assert forall|i: int| 0 <= i < a1.len() implies a1[i] == a2[i] by {
        assert(left[i] == a1[i]);
        assert(right[i] == a2[i]);
    }
    assert(a1 =~= a2);
    assert forall|i: int| 0 <= i < r1.len() implies r1[i] == r2[i] by {
        assert(left[a1.len() + 1 + i] == r1[i]);
        assert(right[a2.len() + 1 + i] == r2[i]);
    }
    assert(r1 =~= r2);
}

/// The separator keeps the parts of a message apart: where neither path nor
/// content holds a vertical bar, two chunks have the same message only if
/// they have the same path, the same content and the same timestamp. Text
/// cannot move from one part to its neighbour without changing the message.
pub proof fn lemma_message_tells_parts(
    path1: Seq<char>,
    content1: Seq<char>,
    timestamp1: Seq<char>,
    path2: Seq<char>,
    content2: Seq<char>,
    timestamp2: Seq<char>,
)
    requires
        bar_free(path1),
        bar_free(content1),
        bar_free(path2),
        bar_free(content2),
        chunk_message(path1, content1, timestamp1) == chunk_message(path2, content2, timestamp2),
    ensures
        path1 == path2,
        content1 == content2,
        timestamp1 == timestamp2,
{
    lemma_bar_free_bytes(path1);
    lemma_bar_free_bytes(content1);
    lemma_bar_free_bytes(path2);
    lemma_bar_free_bytes(content2);
    let rest1 = encode_utf8(content1) + seq![SEPARATOR] + encode_utf8(timestamp1);
    let rest2 = encode_utf8(content2) + seq![SEPARATOR] + encode_utf8(timestamp2);
    assert(chunk_message(path1, content1, timestamp1) =~= encode_utf8(path1) + seq![SEPARATOR]
        + rest1);
    assert(chunk_message(path2, content2, timestamp2) =~= encode_utf8(path2) + seq![SEPARATOR]
        + rest2);
    lemma_split_at_separator(encode_utf8(path1), rest1, encode_utf8(path2), rest2);
    lemma_split_at_separator(
        encode_utf8(content1),
        encode_utf8(timestamp1),
        encode_utf8(content2),
        encode_utf8(timestamp2),
    );
    lemma_utf8_injective(path1, path2);
    lemma_utf8_injective(content1, content2);
    lemma_utf8_injective(timestamp1, timestamp2);
}

} // verus!
