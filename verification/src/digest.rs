//! SHA-256, HMAC-SHA256 and hexadecimal text, as the `sha2`, `hmac` and `hex` crates
//! compute them.

use vstd::prelude::*;

verus! {

/// The SHA-256 digest of a sequence of bytes: what `sha2::Sha256` gives once it has
/// taken in these bytes.
pub uninterp spec fn sha256(data: Seq<u8>) -> Seq<u8>;

/// The HMAC-SHA256 tag of a message under a key: what `hmac::Hmac<sha2::Sha256>` gives
/// for them.
pub uninterp spec fn hmac_sha256(key: Seq<u8>, message: Seq<u8>) -> Seq<u8>;

/// A SHA-256 digest in progress (`sha2::Sha256`).
#[verifier::external_body]
pub struct Sha256Stream {
    inner: sha2::Sha256,
}

/// The bytes that a digest in progress has taken in, in order.
pub uninterp spec fn absorbed(stream: Sha256Stream) -> Seq<u8>;

impl Sha256Stream {
    /// Calls `sha2::Digest::new`: a digest that has taken in nothing.
    #[verifier::external_body]
    pub(crate) fn new() -> (stream: Sha256Stream)
        ensures
            absorbed(stream) == Seq::<u8>::empty(),
    {
        Sha256Stream { inner: <sha2::Sha256 as sha2::Digest>::new() }
    }

    /// Calls `sha2::Digest::update`: the digest takes in the bytes of `chunk` after
    /// those it has.
    #[verifier::external_body]
    pub(crate) fn update(&mut self, chunk: &[u8])
        ensures
            absorbed(*final(self)) == absorbed(*old(self)) + chunk@,
    {
        sha2::Digest::update(&mut self.inner, chunk)
    }

    /// Calls `sha2::Digest::finalize`: the digest of all that was taken in, 32 bytes.
    #[verifier::external_body]
    pub(crate) fn finalize(self) -> (digest: Vec<u8>)
        ensures
            digest@ == sha256(absorbed(self)),
            digest@.len() == 32,
    {
        sha2::Digest::finalize(self.inner).to_vec()
    }
}

/// Computes the tag of `message` under `key` with `hmac::Hmac<sha2::Sha256>`: the key is
/// set with `Mac::new_from_slice`, which takes a key of any length, the message goes in
/// with `Mac::update`, and `Mac::finalize` gives the tag.
#[verifier::external_body]
pub(crate) fn hmac_tag(key: &[u8], message: &[u8]) -> (tag: Vec<u8>)
    ensures
        tag@ == hmac_sha256(key@, message@),
{
    match <hmac::Hmac<sha2::Sha256> as hmac::Mac>::new_from_slice(key) {
        Ok(mut mac) => {
            hmac::Mac::update(&mut mac, message);
            hmac::Mac::finalize(mac).into_bytes().to_vec()
        },
        Err(_) => Vec::new(),
    }
}

/// The lower-case hexadecimal digit of a number below 16.
pub open spec fn hex_digit(n: nat) -> char
    recommends
        n < 16,
{
    if n < 10 {
        (('0' as u8) + n as u8) as char
    } else {
        (('a' as u8) + (n - 10) as u8) as char
    }
}

/// The lower-case hexadecimal text of a sequence of bytes: two digits for each byte,
/// the high half first.
pub open spec fn hex_text(data: Seq<u8>) -> Seq<char> {
    Seq::new(
        2 * data.len(),
        |i: int|
            if i % 2 == 0 {
                hex_digit((data[i / 2] / 16) as nat)
            } else {
                hex_digit((data[i / 2] % 16) as nat)
            },
    )
}

/// Calls `hex::encode`, which writes each byte as two lower-case hexadecimal digits.
#[verifier::external_body]
pub(crate) fn hex_encode(data: &[u8]) -> (text: String)
    ensures
        text@ == hex_text(data@),
{
    hex::encode(data)
}

} // verus!
