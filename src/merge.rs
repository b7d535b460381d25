//! The stream merger's bookkeeping: which stream each chunk came from, how
//! many bytes each artifact has received, and when the combined log is
//! rotated.

use vstd::prelude::*;

use vstd::multiset::Multiset;

use crate::text::{dec, push_char, push_dec};

verus! {

/// The output stream that a chunk was read from.
#[derive(Clone, Copy, Debug, PartialEq, Eq, Structural)]
pub enum StreamKind {
    Stdout,
    Stderr,
}

/// The bytes of the chunks, in order, that came from `kind`.
pub open spec fn stream_bytes(chunks: Seq<(StreamKind, Seq<u8>)>, kind: StreamKind) -> Seq<u8>
    decreases chunks.len(),
{
    if chunks.len() == 0 {
        Seq::empty()
    } else {
        let rest = stream_bytes(chunks.drop_last(), kind);
        if chunks.last().0 == kind {
            rest + chunks.last().1
        } else {
            rest
        }
    }
}

/// The bytes of all chunks, in the order the writer received them.
pub open spec fn log_bytes(chunks: Seq<(StreamKind, Seq<u8>)>) -> Seq<u8>
    decreases chunks.len(),
{
    if chunks.len() == 0 {
        Seq::empty()
    } else {
        log_bytes(chunks.drop_last()) + chunks.last().1
    }
}

/// What the writer does before appending a chunk to the log.
#[derive(Clone, Copy, Debug, PartialEq, Eq, Structural)]
pub enum LogStep {
    /// Append to the current log file.
    Append,
    /// Rename the current log file to `<log>.<n>`, start a fresh one, then
    /// append.
    RotateThenAppend(u64),
}

/// The single consumer of the chunks that both stream readers deliver: it
/// appends each to the combined log, in delivery order, and rotates the log
/// where a chunk would take it past the size limit.
pub struct LogWriter {
    current_len: u64,
    limit: Option<u64>,
    rotations: u64,
    out_len: u64,
    err_len: u64,
    chunks: Ghost<Seq<(StreamKind, Seq<u8>)>>,
}

impl LogWriter {
    pub closed spec fn wf(&self) -> bool {
        &&& self.out_len == stream_bytes(self.chunks@, StreamKind::Stdout).len()
        &&& self.err_len == stream_bytes(self.chunks@, StreamKind::Stderr).len()
        &&& log_bytes(self.chunks@).len() == self.out_len + self.err_len
    }

    /// The chunks received so far, with the stream each came from.
    pub closed spec fn chunks(&self) -> Seq<(StreamKind, Seq<u8>)> {
        self.chunks@
    }

    /// Bytes in the current log file.
    pub closed spec fn current_len(&self) -> nat {
        self.current_len as nat
    }

    pub closed spec fn limit(&self) -> Option<u64> {
        self.limit
    }

    pub closed spec fn rotations(&self) -> nat {
        self.rotations as nat
    }

    /// A writer for a log file that already holds `existing` bytes (from an
    /// earlier attempt, or the retry marker).
    pub fn new(existing: u64, limit: Option<u64>) -> (r: LogWriter)
        ensures
            r.wf(),
            r.chunks() == Seq::<(StreamKind, Seq<u8>)>::empty(),
            r.current_len() == existing,
            r.limit() == limit,
            r.rotations() == 0,
    {
        LogWriter {
            current_len: existing,
            limit,
            rotations: 0,
            out_len: 0,
            err_len: 0,
            chunks: Ghost(Seq::empty()),
        }
    }

    /// A writer for a later attempt of the same job: the log already holds
    /// `existing` bytes and `rotations` rotated logs were made before, so
    /// the next rotated name is new.
    pub fn resume(existing: u64, limit: Option<u64>, rotations: u64) -> (r: LogWriter)
        ensures
            r.wf(),
            r.chunks() == Seq::<(StreamKind, Seq<u8>)>::empty(),
            r.current_len() == existing,
            r.limit() == limit,
            r.rotations() == rotations,
    {
        LogWriter {
            current_len: existing,
            limit,
            rotations,
            out_len: 0,
            err_len: 0,
            chunks: Ghost(Seq::empty()),
        }
    }

    /// How many rotated logs exist for the job: the last was named
    /// `<log>.<rotation_count>`.
    pub fn rotation_count(&self) -> (r: u64)
        ensures
            r == self.rotations(),
    {
        self.rotations
    }

    /// Takes the next chunk; says whether to rotate the log before
    /// appending it.
    pub fn accept(&mut self, kind: StreamKind, chunk: &[u8]) -> (step: LogStep)
        requires
            old(self).wf(),
            old(self).current_len() + chunk@.len() <= u64::MAX,
            old(self).rotations() < u64::MAX,
            log_bytes(old(self).chunks()).len() + chunk@.len() <= u64::MAX,
        ensures
            final(self).wf(),
            final(self).chunks() == old(self).chunks().push((kind, chunk@)),
            final(self).limit() == old(self).limit(),
            ({
                let rotate = match old(self).limit() {
                    Some(l) => old(self).current_len() + chunk@.len() > l,
                    None => false,
                };
                if rotate {
                    &&& step == LogStep::RotateThenAppend((old(self).rotations() + 1) as u64)
                    &&& final(self).rotations() == old(self).rotations() + 1
                    &&& final(self).current_len() == chunk@.len()
                } else {
                    &&& step == LogStep::Append
                    &&& final(self).rotations() == old(self).rotations()
                    &&& final(self).current_len() == old(self).current_len() + chunk@.len()
                }
            }),
    {
        let n = chunk.len() as u64;
        let rotate = match self.limit {
            Some(l) => self.current_len + n > l,
            None => false,
        };
        let ghost prev = self.chunks@;
        let ghost next = prev.push((kind, chunk@));
        assert(next.drop_last() =~= prev);
        match kind {
            StreamKind::Stdout => self.out_len = self.out_len + n,
            StreamKind::Stderr => self.err_len = self.err_len + n,
        }
        self.chunks = Ghost(next);
        if rotate {
            self.rotations = self.rotations + 1;
            self.current_len = n;
            LogStep::RotateThenAppend(self.rotations)
        } else {
            self.current_len = self.current_len + n;
            LogStep::Append
        }
    }

    /// Bytes of standard output received.
    pub fn stdout_len(&self) -> (r: u64)
        requires
            self.wf(),
        ensures
            r == stream_bytes(self.chunks(), StreamKind::Stdout).len(),
    {
        self.out_len
    }

    /// Bytes of standard error received.
    pub fn stderr_len(&self) -> (r: u64)
        requires
            self.wf(),
        ensures
            r == stream_bytes(self.chunks(), StreamKind::Stderr).len(),
    {
        self.err_len
    }
}

/// The name a rotated log takes: the log's path, a dot, and the rotation's
/// number.
pub fn rotated_log_path(log: &str, n: u64) -> (r: String)
    ensures
        r@ == log@.push('.') + dec(n as nat),
{
    let mut s = log.to_owned();
    push_char(&mut s, '.');
    push_dec(&mut s, n);
    s
}

/// Every byte that either stream delivered is in the combined log once: the
/// log is as long as both streams together, no shorter than either, and holds
/// exactly their bytes.
pub proof fn lemma_log_is_union(chunks: Seq<(StreamKind, Seq<u8>)>)
    ensures
        log_bytes(chunks).len() == stream_bytes(chunks, StreamKind::Stdout).len() + stream_bytes(
            chunks,
            StreamKind::Stderr,
        ).len(),
        log_bytes(chunks).len() >= stream_bytes(chunks, StreamKind::Stdout).len(),
        log_bytes(chunks).len() >= stream_bytes(chunks, StreamKind::Stderr).len(),
        log_bytes(chunks).to_multiset() == stream_bytes(chunks, StreamKind::Stdout).to_multiset().add(
            stream_bytes(chunks, StreamKind::Stderr).to_multiset(),
        ),
    decreases chunks.len(),
{
    broadcast use vstd::seq_lib::group_to_multiset_ensures;
    if chunks.len() == 0 {
        assert(log_bytes(chunks).to_multiset() =~= Multiset::empty());
        assert(Multiset::<u8>::empty().add(Multiset::empty()) =~= Multiset::empty());
    } else {
        let prev = chunks.drop_last();
        let c = chunks.last();
        lemma_log_is_union(prev);
        vstd::seq_lib::lemma_multiset_commutative(log_bytes(prev), c.1);
        vstd::seq_lib::lemma_multiset_commutative(stream_bytes(prev, c.0), c.1);
        let o = stream_bytes(prev, StreamKind::Stdout).to_multiset();
        let e = stream_bytes(prev, StreamKind::Stderr).to_multiset();
        let m = c.1.to_multiset();
        if c.0 == StreamKind::Stdout {
            assert(o.add(e).add(m) =~= o.add(m).add(e));
        } else {
            assert(o.add(e).add(m) =~= o.add(e.add(m)));
        }
    }
}

/// The stream that each byte of the combined log came from, in log order.
pub open spec fn byte_kinds(chunks: Seq<(StreamKind, Seq<u8>)>) -> Seq<StreamKind>
    decreases chunks.len(),
{
    if chunks.len() == 0 {
        Seq::empty()
    } else {
        byte_kinds(chunks.drop_last()) + Seq::new(chunks.last().1.len(), |i: int| chunks.last().0)
    }
}

/// The bytes of `log` tagged `kind` by `tags`, in order.
pub open spec fn select(log: Seq<u8>, tags: Seq<StreamKind>, kind: StreamKind) -> Seq<u8>
    decreases log.len(),
{
    if log.len() == 0 || tags.len() == 0 {
        Seq::empty()
    } else {
        let rest = select(log.drop_last(), tags.drop_last(), kind);
        if tags.last() == kind {
            rest.push(log.last())
        } else {
            rest
        }
    }
}

proof fn lemma_select_concat(
    a: Seq<u8>,
    ta: Seq<StreamKind>,
    b: Seq<u8>,
    tb: Seq<StreamKind>,
    kind: StreamKind,
)
    requires
        a.len() == ta.len(),
        b.len() == tb.len(),
    ensures
        select(a + b, ta + tb, kind) == select(a, ta, kind) + select(b, tb, kind),
    decreases b.len(),
{
    if b.len() == 0 {
        assert(a + b =~= a);
        assert(ta + tb =~= ta);
        assert(select(a, ta, kind) + Seq::<u8>::empty() =~= select(a, ta, kind));
    } else {
        lemma_select_concat(a, ta, b.drop_last(), tb.drop_last(), kind);
        assert((a + b).drop_last() =~= a + b.drop_last());
        assert((ta + tb).drop_last() =~= ta + tb.drop_last());
        if tb.last() == kind {
            assert(select(a, ta, kind) + select(b, tb, kind) =~= (select(a, ta, kind) + select(
                b.drop_last(),
                tb.drop_last(),
                kind,
            )).push(b.last()));
        }
    }
}

proof fn lemma_select_uniform(b: Seq<u8>, from: StreamKind, kind: StreamKind)
    ensures
        select(b, Seq::new(b.len(), |i: int| from), kind) == (if from == kind {
            b
        } else {
            Seq::empty()
        }),
    decreases b.len(),
{
    let t = Seq::new(b.len(), |i: int| from);
    if b.len() > 0 {
        assert(t.drop_last() =~= Seq::new(b.drop_last().len(), |i: int| from));
        lemma_select_uniform(b.drop_last(), from, kind);
        if from == kind {
            assert(b.drop_last().push(b.last()) =~= b);
        }
    }
}

/// The combined log interleaves the two streams, each in its own order: its
/// bytes, each tagged with the stream it came from, split into exactly the
/// standard output bytes and exactly the standard error bytes.
pub proof fn lemma_log_keeps_stream_order(chunks: Seq<(StreamKind, Seq<u8>)>)
    ensures
        byte_kinds(chunks).len() == log_bytes(chunks).len(),
        select(log_bytes(chunks), byte_kinds(chunks), StreamKind::Stdout) == stream_bytes(
            chunks,
            StreamKind::Stdout,
        ),
        select(log_bytes(chunks), byte_kinds(chunks), StreamKind::Stderr) == stream_bytes(
            chunks,
            StreamKind::Stderr,
        ),
    decreases chunks.len(),
{
    if chunks.len() > 0 {
        let prev = chunks.drop_last();
        let c = chunks.last();
        lemma_log_keeps_stream_order(prev);
        let t = Seq::new(c.1.len(), |i: int| c.0);
        lemma_select_concat(log_bytes(prev), byte_kinds(prev), c.1, t, StreamKind::Stdout);
        lemma_select_concat(log_bytes(prev), byte_kinds(prev), c.1, t, StreamKind::Stderr);
        lemma_select_uniform(c.1, c.0, StreamKind::Stdout);
        lemma_select_uniform(c.1, c.0, StreamKind::Stderr);
        assert(stream_bytes(prev, StreamKind::Stdout) + Seq::<u8>::empty() =~= stream_bytes(
            prev,
            StreamKind::Stdout,
        ));
        assert(stream_bytes(prev, StreamKind::Stderr) + Seq::<u8>::empty() =~= stream_bytes(
            prev,
            StreamKind::Stderr,
        ));
    } else {
        assert(select(log_bytes(chunks), byte_kinds(chunks), StreamKind::Stdout) =~= Seq::<u8>::empty());
    }
}

} // verus!
