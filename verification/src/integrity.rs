//! The integrity tags of the log file: an HMAC-SHA256 tag for every line, under a key
//! that lives in memory only.

use vstd::prelude::*;
use vstd::string::*;
use vstd::utf8::encode_utf8;

use crate::digest::{hex_encode, hex_text, hmac_sha256, hmac_tag};
use crate::format::{push_text_body, with_text_body};
use crate::logger::LogEvent;
use crate::text::{decimal_text, push_decimal, same_text};

verus! {

/// The length of the key, in bytes.
pub const KEY_LEN: usize = 32;

/// Fills `len` bytes with what `rand::thread_rng` gives through `RngCore::fill_bytes`.
/// Nothing is said of the bytes but how many they are.
#[verifier::external_body]
fn random_bytes(len: usize) -> (bytes: Vec<u8>)
    ensures
        bytes@.len() == len,
{
    let mut bytes = vec![0u8; len];
    rand::RngCore::fill_bytes(&mut rand::thread_rng(), &mut bytes);
    bytes
}

/// The canonical form of an event, over which its tag is computed: the instant in
/// milliseconds, then the kind and every field as the text form writes them.
pub open spec fn canonical_line(e: LogEvent) -> Seq<char> {
    with_text_body(decimal_text(e.timestamp() as nat) + " "@, e)
}

/// The tag of a line under a key, as text: the HMAC-SHA256 tag of the line's UTF-8
/// bytes, in lower-case hexadecimal.
pub open spec fn tag_text(key: Seq<u8>, line: Seq<char>) -> Seq<char> {
    hex_text(hmac_sha256(key, encode_utf8(line)))
}

/// Whether `tag` is the tag of `line` under `key`.
pub open spec fn verifies(key: Seq<u8>, line: Seq<char>, tag: Seq<char>) -> bool {
    tag == tag_text(key, line)
}

/// The entry of the sidecar for a line: the tag, a space, and the line.
pub open spec fn sidecar_text(key: Seq<u8>, line: Seq<char>) -> Seq<char> {
    tag_text(key, line) + " "@ + line
}

/// The canonical form of an event.
pub fn canonical(event: &LogEvent) -> (line: String)
    ensures
        line@ == canonical_line(*event),
{
    let mut line = String::new();
    push_decimal(&mut line, event.get_event_timestamp());
    line.append(" ");
    assert(line@ =~= decimal_text(event.timestamp() as nat) + " "@);
    push_text_body(&mut line, event);
    line
}

/// The tag of a line under a key.
pub fn seal_line(key: &[u8], line: &str) -> (tag: String)
    ensures
        tag@ == tag_text(key@, line@),
{
    let raw = hmac_tag(key, line.as_bytes());
    hex_encode(raw.as_slice())
}

/// Whether `tag` is the tag of `line` under `key`.
pub fn verify_line(key: &[u8], line: &str, tag: &str) -> (ok: bool)
    ensures
        ok == verifies(key@, line@, tag@),
{
    let expected = seal_line(key, line);
    same_text(tag, expected.as_str())
}

/// The entry of the sidecar for a line.
pub fn sidecar_entry(key: &[u8], line: &str) -> (entry: String)
    ensures
        entry@ == sidecar_text(key@, line@),
{
    let mut entry = seal_line(key, line);
    entry.append(" ");
    entry.append(line);
    entry
}

/// The key of one agent lifetime. It is made at startup and never written anywhere.
pub struct IntegrityKey {
    bytes: Vec<u8>,
}

impl IntegrityKey {
    pub closed spec fn bytes(self) -> Seq<u8> {
        self.bytes@
    }

    /// A fresh random key of 32 bytes.
    pub fn generate() -> (k: IntegrityKey)
        ensures
            k.bytes().len() == KEY_LEN,
    {
        IntegrityKey { bytes: random_bytes(KEY_LEN) }
    }

    /// A key of the bytes given.
    pub fn from_bytes(bytes: Vec<u8>) -> (k: IntegrityKey)
        ensures
            k.bytes() == bytes@,
    {
        IntegrityKey { bytes }
    }

    /// The tag of an event: that of its canonical form.
    pub fn seal_event(&self, event: &LogEvent) -> (tag: String)
        ensures
            tag@ == tag_text(self.bytes(), canonical_line(*event)),
    {
        let line = canonical(event);
        seal_line(self.bytes.as_slice(), line.as_str())
    }

    /// The tag of a line of the log file.
    pub fn seal(&self, line: &str) -> (tag: String)
        ensures
            tag@ == tag_text(self.bytes(), line@),
    {
        seal_line(self.bytes.as_slice(), line)
    }

    /// Whether `tag` is the tag of `line` under this key.
    pub fn verify(&self, line: &str, tag: &str) -> (ok: bool)
        ensures
            ok == verifies(self.bytes(), line@, tag@),
    {
        verify_line(self.bytes.as_slice(), line, tag)
    }
}

/// A line verifies against the tag that was made for it under the same key, and against
/// no other tag.
pub proof fn law_sealed_line_verifies(key: Seq<u8>, line: Seq<char>, tag: Seq<char>)
    ensures
        verifies(key, line, tag_text(key, line)),
        tag != tag_text(key, line) ==> !verifies(key, line, tag),
{
}

} // verus!
