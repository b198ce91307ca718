//! Content hashes: the SHA-256 digest of a byte stream, written as lowercase
//! hexadecimal text.

use vstd::prelude::*;
use crate::hex::{hex_lower, to_hex};
use crate::text::{chars_of, string_of};

verus! {

/// The most bytes one hash can cover. SHA-256 appends the message length in
/// bits as a 64-bit number, so the byte length must stay below 2^61.
pub const MAX_CONTENT_LEN: u64 = 0x1fff_ffff_ffff_ffff;

/// Number of characters in the text of a content hash.
pub const HASH_TEXT_LEN: usize = 64;

/// A running SHA-256 computation of the `sha2` crate.
#[verifier::external_body]
pub struct Sha256State {
    inner: sha2::Sha256,
}

/// The bytes that a running computation has been fed so far, in order.
pub uninterp spec fn absorbed(state: Sha256State) -> Seq<u8>;

/// The SHA-256 digest of `message`, as `sha2` computes it.
pub uninterp spec fn sha256(message: Seq<u8>) -> Seq<u8>;

/// `sha2::Digest::new` for `sha2::Sha256`: a computation that has been fed
/// nothing yet.
#[verifier::external_body]
fn sha256_new() -> (state: Sha256State)
    ensures
        absorbed(state) == Seq::<u8>::empty(),
{
    Sha256State { inner: <sha2::Sha256 as sha2::Digest>::new() }
}

/// `sha2::Digest::update` for `sha2::Sha256`: feeds `data` to the computation,
/// after everything fed before. Past `MAX_CONTENT_LEN` bytes in all the
/// crate's count of bits overflows, so such a call is not allowed.
#[verifier::external_body]
fn sha256_update(state: &mut Sha256State, data: &[u8])
    requires
        absorbed(*old(state)).len() + data@.len() <= MAX_CONTENT_LEN,
    ensures
        absorbed(*final(state)) == absorbed(*old(state)) + data@,
{
    sha2::Digest::update(&mut state.inner, data)
}

/// `sha2::Digest::finalize` for `sha2::Sha256`: the 32-byte digest of all the
/// bytes fed to the computation, of which there are at most
/// `MAX_CONTENT_LEN`.
#[verifier::external_body]
fn sha256_finalize(state: Sha256State) -> (digest: [u8; 32])
    requires
        absorbed(state).len() <= MAX_CONTENT_LEN,
    ensures
        digest@ == sha256(absorbed(state)),
{
    sha2::Digest::finalize(state.inner).into()
}

/// Whether `c` is a lowercase hexadecimal digit.
pub open spec fn is_hex_char(c: char) -> bool {
    ('0' <= c && c <= '9') || ('a' <= c && c <= 'f')
}

/// Whether `text` has the shape of a content hash: 64 lowercase hexadecimal
/// digits.
pub open spec fn is_hash_text(text: Seq<char>) -> bool {
    &&& text.len() == HASH_TEXT_LEN
    &&& forall|i: int| 0 <= i < text.len() ==> is_hex_char(#[trigger] text[i])
}

/// The content hash of `content`: its SHA-256 digest in lowercase hexadecimal.
pub open spec fn content_hash(content: Seq<u8>) -> Seq<char> {
    hex_lower(sha256(content))
}

/// The hexadecimal text of 32 bytes has the shape of a content hash.
pub proof fn lemma_hex_of_digest_is_hash_text(digest: Seq<u8>)
    requires
        digest.len() == 32,
    ensures
        is_hash_text(hex_lower(digest)),
{
    let text = hex_lower(digest);
    assert forall|i: int| 0 <= i < text.len() implies is_hex_char(#[trigger] text[i]) by {}
}

/// A content hash: 64 lowercase hexadecimal digits.
#[derive(Debug, PartialEq, Eq)]
pub struct ContentHash {
    text: String,
}

impl View for ContentHash {
    type V = Seq<char>;

    closed spec fn view(&self) -> Seq<char> {
        self.text@
    }
}

impl Clone for ContentHash {
    fn clone(&self) -> (copy: ContentHash)
        ensures
            copy@ == self@,
    {
        proof {
            use_type_invariant(self);
        }
        ContentHash { text: self.text.clone() }
    }
}

impl ContentHash {
    #[verifier::type_invariant]
    spec fn well_formed(self) -> bool {
        is_hash_text(self.text@)
    }

    /// Reads a content hash from its text. Text of any other shape is refused.
    pub fn parse(text: &str) -> (hash: Option<ContentHash>)
        ensures
            hash is Some <==> is_hash_text(text@),
            hash matches Some(h) ==> h@ == text@,
    {
        let chars = chars_of(text);
        if chars.len() != HASH_TEXT_LEN {
            return None;
        }
        let mut i: usize = 0;
        while i < chars.len()
            invariant
                i <= chars.len(),
                chars@ == text@,
                forall|j: int| 0 <= j < i ==> is_hex_char(#[trigger] text@[j]),
            decreases chars.len() - i,
        {
            let c = chars[i];
            if !(('0' <= c && c <= '9') || ('a' <= c && c <= 'f')) {
                return None;
            }
            i += 1;
        }
        Some(ContentHash { text: string_of(chars.as_slice()) })
    }

    /// The text of the hash.
    pub fn as_str(&self) -> (text: &str)
        ensures
            text@ == self@,
            is_hash_text(text@),
    {
        proof {
            use_type_invariant(self);
        }
        self.text.as_str()
    }

    /// The first eight digits of the hash, with which backup files are named.
    pub fn prefix(&self) -> (digits: String)
        ensures
            digits@ == self@.take(8),
    {
        proof {
            use_type_invariant(self);
        }
        let chars = chars_of(self.text.as_str());
        let mut digits: Vec<char> = Vec::new();
        let mut i: usize = 0;
        while i < 8
            invariant
                i <= 8,
                chars@.len() == 64,
                digits@ == chars@.take(i as int),
            decreases 8 - i,
        {
            digits.push(chars[i]);
            i += 1;
        }
        string_of(digits.as_slice())
    }
}

/// Hashes a byte stream chunk by chunk, so that a file never has to be held in
/// memory whole.
pub struct ContentHasher {
    state: Sha256State,
    len: u64,
}

impl ContentHasher {
    /// The hasher's count of the bytes taken in is right, and within what
    /// SHA-256 can hash. Every hasher that `new` made and `update` fed is
    /// well formed.
    pub closed spec fn wf(self) -> bool {
        &&& self.len == absorbed(self.state).len()
        &&& self.len <= MAX_CONTENT_LEN
    }

    /// The bytes taken in so far, in order.
    pub closed spec fn content(self) -> Seq<u8> {
        absorbed(self.state)
    }

    /// A hasher that has taken in nothing.
    pub fn new() -> (hasher: ContentHasher)
        ensures
            hasher.wf(),
            hasher.content() == Seq::<u8>::empty(),
    {
        ContentHasher { state: sha256_new(), len: 0 }
    }

    /// Takes in the next chunk of the stream. A chunk that would carry the
    /// stream past `MAX_CONTENT_LEN` bytes is refused and leaves the hasher as
    /// it was.
    pub fn update(&mut self, chunk: &[u8]) -> (accepted: bool)
        requires
            old(self).wf(),
        ensures
            final(self).wf(),
            accepted == (old(self).content().len() + chunk@.len() <= MAX_CONTENT_LEN),
            accepted ==> final(self).content() == old(self).content() + chunk@,
            !accepted ==> final(self).content() == old(self).content(),
    {
        let n: usize = chunk.len();
        if n as u64 > MAX_CONTENT_LEN - self.len {
            return false;
        }
        sha256_update(&mut self.state, chunk);
        self.len = self.len + n as u64;
        true
    }

    /// The hash of everything taken in.
    pub fn finish(self) -> (hash: ContentHash)
        requires
            self.wf(),
        ensures
            hash@ == content_hash(self.content()),
    {
        let digest = sha256_finalize(self.state);
        proof {
            lemma_hex_of_digest_is_hash_text(digest@);
        }
        ContentHash { text: to_hex(digest.as_slice()) }
    }
}

/// Hashing is a function of the content alone: two hashers that have taken in
/// the same bytes, in whatever chunks, finish with the same hash.
pub proof fn lemma_same_content_same_hash(first: ContentHasher, second: ContentHasher)
    requires
        first.content() == second.content(),
    ensures
        content_hash(first.content()) == content_hash(second.content()),
{
}

/// The hash of `content`, or `None` where `content` is longer than
/// `MAX_CONTENT_LEN` bytes.
pub fn hash_bytes(content: &[u8]) -> (hash: Option<ContentHash>)
    ensures
        hash is Some <==> content@.len() <= MAX_CONTENT_LEN,
        hash matches Some(h) ==> h@ == content_hash(content@),
{
    let mut hasher = ContentHasher::new();
    if hasher.update(content) {
        Some(hasher.finish())
    } else {
        None
    }
}

} // verus!
