//! The artifact hasher: the SHA-256 digest of an executable as 64 hexadecimal digits,
//! remembered by path for the life of the process.

use vstd::prelude::*;
use vstd::string::*;

use crate::digest::{absorbed, hex_encode, hex_text, sha256, Sha256Stream};
use crate::text::{ascii_lower, lower_chars, same_text};

verus! {

/// The bytes of a sequence of chunks, one after the other.
pub open spec fn concat(chunks: Seq<Vec<u8>>) -> Seq<u8>
    decreases chunks.len(),
{
    if chunks.len() == 0 {
        Seq::empty()
    } else {
        concat(chunks.drop_last()) + chunks.last()@
    }
}

/// The digest of a file's content as text: the SHA-256 digest in lower-case hexadecimal.
pub open spec fn digest_text(content: Seq<u8>) -> Seq<char> {
    hex_text(sha256(content))
}

/// The digest, as text, of the content that the chunks make up in order. The content is
/// taken in chunk by chunk and never held as a whole.
pub fn compute_sha256_hex(chunks: &Vec<Vec<u8>>) -> (digest: String)
    ensures
        digest@ == digest_text(concat(chunks@)),
        digest@.len() == 64,
{
    let mut stream = Sha256Stream::new();
    let mut i: usize = 0;
    while i < chunks.len()
        invariant
            i <= chunks.len(),
            absorbed(stream) == concat(chunks@.take(i as int)),
        decreases chunks.len() - i,
    {
        stream.update(chunks[i].as_slice());
        proof {
            let next = chunks@.take(i + 1);
            assert(next.drop_last() == chunks@.take(i as int));
            assert(next.last() == chunks@[i as int]);
        }
        i += 1;
    }
    assert(chunks@.take(chunks.len() as int) == chunks@);
    finish_hex(stream)
}

/// The digest, as text, of what a digest in progress has taken in.
fn finish_hex(stream: Sha256Stream) -> (digest: String)
    ensures
        digest@ == digest_text(absorbed(stream)),
        digest@.len() == 64,
{
    let raw = stream.finalize();
    hex_encode(raw.as_slice())
}

/// The digest of a file that is read chunk by chunk.
pub struct FileDigest {
    stream: Sha256Stream,
}

impl FileDigest {
    /// The bytes taken in so far.
    pub closed spec fn content(self) -> Seq<u8> {
        absorbed(self.stream)
    }

    /// A digest that has taken in nothing.
    pub fn new() -> (d: FileDigest)
        ensures
            d.content() == Seq::<u8>::empty(),
    {
        FileDigest { stream: Sha256Stream::new() }
    }

    /// Takes in one more chunk of the file.
    pub fn update(&mut self, chunk: &[u8])
        ensures
            final(self).content() == old(self).content() + chunk@,
    {
        self.stream.update(chunk);
    }

    /// The digest of all that was taken in, as 64 hexadecimal digits.
    pub fn finish(self) -> (digest: String)
        ensures
            digest@ == digest_text(self.content()),
            digest@.len() == 64,
    {
        finish_hex(self.stream)
    }
}

/// One remembered digest.
pub struct CachedHash {
    pub key: String,
    pub digest: String,
}

/// The digests remembered so far. An entry never changes and never leaves.
pub struct HashCache {
    entries: Vec<CachedHash>,
    fold_case: bool,
}

impl HashCache {
    /// Whether paths that differ in ASCII case only count as one, as on a file system
    /// that does not tell them apart.
    pub closed spec fn fold_case(self) -> bool {
        self.fold_case
    }

    /// The key under which a path is remembered.
    pub open spec fn key_of(self, path: Seq<char>) -> Seq<char> {
        if self.fold_case() {
            ascii_lower(path)
        } else {
            path
        }
    }

    closed spec fn slot(self, key: Seq<char>) -> Option<int> {
        if exists|i: int| 0 <= i < self.entries@.len() && (#[trigger] self.entries@[i]).key@ == key {
            Some(
                choose|i: int|
                    0 <= i < self.entries@.len() && (#[trigger] self.entries@[i]).key@ == key,
            )
        } else {
            None
        }
    }

    /// The digest remembered under a key.
    pub closed spec fn remembered(self, key: Seq<char>) -> Option<Seq<char>> {
        match self.slot(key) {
            Some(i) => Some(self.entries@[i].digest@),
            None => None,
        }
    }

    /// The digest remembered for a path.
    pub open spec fn cached(self, path: Seq<char>) -> Option<Seq<char>> {
        self.remembered(self.key_of(path))
    }

    /// No key is remembered twice.
    pub closed spec fn wf(self) -> bool {
        forall|i: int, j: int|
            0 <= i < j < self.entries@.len() ==> (#[trigger] self.entries@[i]).key@ != (
            #[trigger] self.entries@[j]).key@
    }

    /// An empty cache. With `fold_case`, paths are told apart without regard to ASCII
    /// case.
    pub fn new(fold_case: bool) -> (c: HashCache)
        ensures
            c.wf(),
            c.fold_case() == fold_case,
            c.count() == 0,
            forall|key: Seq<char>| c.remembered(key) is None,
    {
        HashCache { entries: Vec::new(), fold_case }
    }

    /// How many digests are remembered.
    pub closed spec fn count(self) -> nat {
        self.entries@.len()
    }

    /// How many digests are remembered.
    pub fn len(&self) -> (n: usize)
        ensures
            n == self.count(),
    {
        self.entries.len()
    }

    fn make_key(&self, path: &str) -> (key: String)
        ensures
            key@ == self.key_of(path@),
    {
        if self.fold_case {
            let lowered = lower_chars(path);
            let mut key = String::new();
            let mut i: usize = 0;
            while i < lowered.len()
                invariant
                    i <= lowered.len(),
                    key@ == lowered@.take(i as int),
                decreases lowered.len() - i,
            {
                key.push(lowered[i]);
                assert(lowered@.take(i + 1) == lowered@.take(i as int).push(lowered@[i as int]));
                i += 1;
            }
            assert(lowered@.take(lowered.len() as int) == lowered@);
            key
        } else {
            String::from_str(path)
        }
    }

    fn position(&self, key: &str) -> (r: Option<usize>)
        requires
            self.wf(),
        ensures
            match r {
                Some(i) => i < self.entries@.len() && self.slot(key@) == Some(i as int),
                None => self.slot(key@) is None,
            },
    {
        let mut i: usize = 0;
        while i < self.entries.len()
            invariant
                i <= self.entries.len(),
                self.wf(),
                forall|k: int| 0 <= k < i ==> (#[trigger] self.entries@[k]).key@ != key@,
            decreases self.entries.len() - i,
        {
            if same_text(self.entries[i].key.as_str(), key) {
                proof {
                    let found = i as int;
                    assert(self.entries@[found].key@ == key@);
                    let chosen = choose|n: int|
                        0 <= n < self.entries@.len() && (#[trigger] self.entries@[n]).key@ == key@;
                    if chosen < found {
                        assert(self.entries@[chosen].key@ != self.entries@[found].key@);
                    }
                    if found < chosen {
                        assert(self.entries@[found].key@ != self.entries@[chosen].key@);
                    }
                }
                return Some(i);
            }
            i += 1;
        }
        None
    }

    /// The digest remembered for `path`, where there is one.
    pub fn lookup(&self, path: &str) -> (digest: Option<String>)
        requires
            self.wf(),
        ensures
            match self.cached(path@) {
                Some(text) => digest matches Some(d) && d@ == text,
                None => digest is None,
            },
    {
        let key = self.make_key(path);
        match self.position(key.as_str()) {
            Some(i) => Some(self.entries[i].digest.clone()),
            None => None,
        }
    }

    /// Remembers `digest` for `path`, unless a digest is remembered for it already, and
    /// hands back the one that is remembered from now on.
    pub fn remember(&mut self, path: &str, digest: String) -> (kept: String)
        requires
            old(self).wf(),
        ensures
            final(self).wf(),
            final(self).fold_case() == old(self).fold_case(),
            kept@ == match old(self).cached(path@) {
                Some(text) => text,
                None => digest@,
            },
            final(self).count() == if old(self).cached(path@) is Some {
                old(self).count()
            } else {
                old(self).count() + 1
            },
            forall|key: Seq<char>| #[trigger]
                final(self).remembered(key) == if key == old(self).key_of(path@) {
                    Some(kept@)
                } else {
                    old(self).remembered(key)
                },
    {
        let key = self.make_key(path);
        match self.position(key.as_str()) {
            Some(i) => self.entries[i].digest.clone(),
            None => {
                let kept = digest.clone();
                let ghost before = *self;
                self.entries.push(CachedHash { key, digest });
                proof {
                    let added = before.entries@.len() as int;
                    assert(self.entries@[added].key@ == before.key_of(path@));
                    assert forall|i: int, j: int| 0 <= i < j < self.entries@.len() implies (
                    #[trigger] self.entries@[i]).key@ != (#[trigger] self.entries@[j]).key@ by {
                        if j == added {
                            assert(self.entries@[i] == before.entries@[i]);
                        } else {
                            assert(self.entries@[i] == before.entries@[i]);
                            assert(self.entries@[j] == before.entries@[j]);
                        }
                    }
                    assert forall|q: Seq<char>| #[trigger]
                        self.remembered(q) == if q == before.key_of(path@) {
                            Some(kept@)
                        } else {
                            before.remembered(q)
                        } by {
                        if q == before.key_of(path@) {
                            let chosen = choose|n: int|
                                0 <= n < self.entries@.len() && (#[trigger] self.entries@[n]).key@
                                    == q;
                            if chosen < added {
                                assert(before.entries@[chosen].key@ == q);
                            }
                        } else {
                            if before.slot(q) is Some {
                                let n = before.slot(q)->0;
                                assert(self.entries@[n] == before.entries@[n]);
                                let chosen = choose|n: int|
                                    0 <= n < self.entries@.len() && (
                                    #[trigger] self.entries@[n]).key@ == q;
                                assert(chosen < added);
                                assert(self.entries@[chosen] == before.entries@[chosen]);
                                if chosen < n {
                                    assert(before.entries@[chosen].key@ != before.entries@[n].key@);
                                }
                                if n < chosen {
                                    assert(before.entries@[n].key@ != before.entries@[chosen].key@);
                                }
                            } else {
                                if self.slot(q) is Some {
                                    let chosen = self.slot(q)->0;
                                    assert(chosen < added);
                                    assert(before.entries@[chosen].key@ == q);
                                }
                            }
                        }
                    }
                }
                kept
            },
        }
    }

    /// The digest of the executable at `path`, whose content the chunks make up: the
    /// one remembered for the path where there is one, else the digest of the content,
    /// which is remembered from now on.
    pub fn calculate_file_hash(&mut self, path: &str, chunks: &Vec<Vec<u8>>) -> (digest: String)
        requires
            old(self).wf(),
        ensures
            final(self).wf(),
            final(self).fold_case() == old(self).fold_case(),
            digest@ == hash_of(old(self).cached(path@), concat(chunks@)),
            forall|key: Seq<char>| #[trigger]
                final(self).remembered(key) == if key == old(self).key_of(path@) {
                    Some(digest@)
                } else {
                    old(self).remembered(key)
                },
    {
        match self.lookup(path) {
            Some(known) => {
                assert forall|key: Seq<char>| #[trigger]
                    self.remembered(key) == if key == self.key_of(path@) {
                        Some(known@)
                    } else {
                        self.remembered(key)
                    } by {}
                known
            },
            None => {
                let fresh = compute_sha256_hex(chunks);
                self.remember(path, fresh)
            },
        }
    }
}

/// The digest that a path gets: the one remembered for it, else that of its content.
pub open spec fn hash_of(cached: Option<Seq<char>>, content: Seq<u8>) -> Seq<char> {
    match cached {
        Some(text) => text,
        None => digest_text(content),
    }
}

/// The hash of a path is settled by the first call: once a digest is remembered for
/// the path, every later call gives that digest, whatever the content is read as.
pub proof fn law_hash_is_idempotent(cache: HashCache, path: Seq<char>, digest: Seq<char>, content: Seq<u8>)
    requires
        cache.cached(path) == Some(digest),
    ensures
        hash_of(cache.cached(path), content) == digest,
{
}

} // verus!
