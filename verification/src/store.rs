//! The policy store's change check: the policy file is read again only when its
//! modification stamp has changed.

use vstd::prelude::*;

verus! {

/// The modification time and the size of the policy file.
#[derive(Debug, Clone, Copy, PartialEq, Eq, Structural)]
pub struct FileStamp {
    pub modified_ms: u64,
    pub size: u64,
}

/// What the store remembers of the policy file it read last.
pub struct PolicyStore {
    seen: Option<FileStamp>,
}

impl PolicyStore {
    /// The stamp of the file as it was read last.
    pub closed spec fn seen(self) -> Option<FileStamp> {
        self.seen
    }

    /// A store that has read nothing yet.
    pub fn new() -> (s: PolicyStore)
        ensures
            s.seen() is None,
    {
        PolicyStore { seen: None }
    }

    /// Whether the file has to be read: it was never read, or its modification time or
    /// its size differs from what it was when it was read last.
    pub fn needs_reload(&self, current: FileStamp) -> (r: bool)
        ensures
            r == (self.seen() != Some(current)),
    {
        match self.seen {
            Some(stamp) => stamp.modified_ms != current.modified_ms || stamp.size != current.size,
            None => true,
        }
    }

    /// Remembers that the file was read as it stood at `stamp`.
    pub fn mark_read(&mut self, stamp: FileStamp)
        ensures
            final(self).seen() == Some(stamp),
    {
        self.seen = Some(stamp);
    }
}

} // verus!
