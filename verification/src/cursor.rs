//! Per-file read position: the current offset, the last observed size,
//! rotation detection, and the line counting used by tail-N positioning.

use vstd::prelude::*;

verus! {

/// Number of `b'\n'` bytes in a byte sequence.
pub open spec fn newline_count(s: Seq<u8>) -> nat
    decreases s.len(),
{
    if s.len() == 0 {
        0
    } else {
        newline_count(s.drop_last()) + (if s.last() == 10u8 { 1nat } else { 0nat })
    }
}

/// There are never more newlines than bytes.
pub proof fn lemma_newline_count_le(s: Seq<u8>)
    ensures
        newline_count(s) <= s.len(),
    decreases s.len(),
{
    if s.len() > 0 {
        lemma_newline_count_le(s.drop_last());
    }
}

/// Newline counting distributes over concatenation.
pub proof fn lemma_newline_count_concat(a: Seq<u8>, b: Seq<u8>)
    ensures
        newline_count(a + b) == newline_count(a) + newline_count(b),
    decreases b.len(),
{
    if b.len() == 0 {
        assert(a + b =~= a);
    } else {
        lemma_newline_count_concat(a, b.drop_last());
        assert((a + b).drop_last() =~= a + b.drop_last());
        assert((a + b).last() == b.last());
    }
}

/// Count the newline bytes in one chunk of file data.
pub fn count_newlines(chunk: &[u8]) -> (r: usize)
    ensures
        r == newline_count(chunk@),
{
    let mut count: usize = 0;
    let mut i: usize = 0;
    while i < chunk.len()
        invariant
            0 <= i <= chunk@.len(),
            count == newline_count(chunk@.subrange(0, i as int)),
            count <= i,
        decreases chunk@.len() - i,
    {
        proof {
            assert(chunk@.subrange(0, i + 1).drop_last() =~= chunk@.subrange(0, i as int));
        }
        if chunk[i] == 10u8 {
            count = count + 1;
        }
        i = i + 1;
    }
    proof {
        assert(chunk@.subrange(0, chunk@.len() as int) =~= chunk@);
    }
    count
}

/// Total line count of a file, accumulated chunk by chunk in a single
/// forward scan.
pub struct LineCounter {
    /// Newlines seen so far.
    pub count: u64,
    /// All bytes fed in so far.
    pub seen: Ghost<Seq<u8>>,
}

impl LineCounter {
    /// The count is exactly the newline count of everything fed in.
    pub open spec fn wf(&self) -> bool {
        self.count == newline_count(self.seen@)
    }

    /// A fresh counter that has seen nothing.
    pub fn new() -> (r: LineCounter)
        ensures
            r.wf(),
            r.count == 0,
            r.seen@ == Seq::<u8>::empty(),
    {
        let r = LineCounter { count: 0, seen: Ghost(Seq::empty()) };
        proof {
            assert(newline_count(Seq::<u8>::empty()) == 0);
        }
        r
    }

    /// Feed the next chunk of the file.
    pub fn add_chunk(&mut self, chunk: &[u8])
        requires
            old(self).wf(),
            old(self).count + chunk@.len() <= u64::MAX,
        ensures
            final(self).wf(),
            final(self).seen@ == old(self).seen@ + chunk@,
            final(self).count == newline_count(old(self).seen@ + chunk@),
    {
        let c = count_newlines(chunk);
        proof {
            lemma_newline_count_le(chunk@);
            lemma_newline_count_concat(self.seen@, chunk@);
        }
        self.count = self.count + c as u64;
        self.seen = Ghost(self.seen@ + chunk@);
    }
}

/// How many leading lines tail-N positioning skips: all but the last `n`.
pub open spec fn tail_skip_spec(total: nat, n: nat) -> nat {
    if total > n {
        (total - n) as nat
    } else {
        0
    }
}

/// Number of leading lines to skip so that `n` lines remain.
pub fn tail_skip(total_lines: u64, n: u64) -> (r: u64)
    ensures
        r == tail_skip_spec(total_lines as nat, n as nat),
{
    if total_lines > n {
        total_lines - n
    } else {
        0
    }
}

/// The read position within one monitored file.
pub struct FileCursor {
    /// Offset of the next byte to read.
    pub offset: u64,
    /// Size of the file when it was last observed.
    pub last_size: u64,
}

impl FileCursor {
    /// The offset never runs past the last observed size.
    pub open spec fn wf(&self) -> bool {
        self.offset <= self.last_size
    }

    /// A cursor positioned at `offset` in a file of size `size`.
    pub fn new_at(offset: u64, size: u64) -> (r: FileCursor)
        requires
            offset <= size,
        ensures
            r.offset == offset,
            r.last_size == size,
            r.wf(),
    {
        FileCursor { offset, last_size: size }
    }

    /// The file was rotated or truncated exactly when it shrank below
    /// the last observed size.
    pub fn detect_rotation(&self, current_size: u64) -> (r: bool)
        ensures
            r == (current_size < self.last_size),
    {
        current_size < self.last_size
    }

    /// Move past `len` consumed bytes.
    pub fn advance(&mut self, len: usize)
        requires
            old(self).offset + len <= u64::MAX,
        ensures
            final(self).offset == old(self).offset + len,
            final(self).last_size == (if old(self).offset + len > old(self).last_size {
                (old(self).offset + len) as u64
            } else {
                old(self).last_size
            }),
            final(self).wf(),
    {
        self.offset = self.offset + len as u64;
        if self.offset > self.last_size {
            self.last_size = self.offset;
        }
    }

    /// Record a newly observed size at least as large as the last one.
    pub fn observe_size(&mut self, size: u64)
        requires
            old(self).wf(),
            size >= old(self).last_size,
        ensures
            final(self).offset == old(self).offset,
            final(self).last_size == size,
            final(self).wf(),
    {
        self.last_size = size;
    }

    /// Reset to the start of a freshly reopened file of size `size`.
    pub fn reset_for_rotation(&mut self, size: u64)
        ensures
            final(self).offset == 0,
            final(self).last_size == size,
            final(self).wf(),
    {
        self.offset = 0;
        self.last_size = size;
    }
}

} // verus!
