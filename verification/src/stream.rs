//! A byte source turned into a sequence of chunks of bounded size.
//!
//! The stream does not read by itself. Whoever drives it asks what it wants,
//! reads from the source into the buffer it is given, and reports how the read
//! went; the stream decides what that means for the consumer. Once the source
//! is exhausted or has failed, the stream yields nothing more.

use vstd::prelude::*;

verus! {

/// How a read from the source went.
pub enum ReadOutcome<E> {
    /// No bytes are ready yet; more may come.
    Pending,
    /// The read is done: the number of bytes placed at the front of the buffer
    /// (zero at the end of the source), or the source's error.
    Ready(Result<usize, E>),
}

/// What a stream hands to its consumer for one poll.
pub enum PollData<E> {
    /// Nothing yet; poll again when the source is ready.
    Pending,
    /// The next chunk of the body.
    Chunk(Vec<u8>),
    /// The source failed; the body ends here.
    Failed(E),
    /// The body is complete.
    End,
}

/// Where a stream stands.
#[derive(Clone, Copy, Debug, PartialEq, Eq, Structural)]
pub enum StreamState {
    /// More chunks may follow.
    Open,
    /// The source reported its end.
    Exhausted,
    /// The source reported an error.
    Failed,
}

/// The smaller of two numbers.
pub open spec fn min(a: int, b: int) -> int {
    if a <= b {
        a
    } else {
        b
    }
}

/// The state after a poll in state `state` to which the read's outcome was
/// `outcome`.
pub open spec fn next_state<E>(state: StreamState, outcome: ReadOutcome<E>) -> StreamState {
    match state {
        StreamState::Open => match outcome {
            ReadOutcome::Pending => StreamState::Open,
            ReadOutcome::Ready(Err(_)) => StreamState::Failed,
            ReadOutcome::Ready(Ok(n)) => if n == 0 {
                StreamState::Exhausted
            } else {
                StreamState::Open
            },
        },
        _ => state,
    }
}

/// Whether a read is one that a stream of chunk size `size` can take: the
/// buffer read into has `size` bytes, and a read that reports a number of
/// bytes reports no more than the buffer holds.
pub open spec fn read_fits<E>(size: usize, buffer: Seq<u8>, outcome: ReadOutcome<E>) -> bool {
    &&& buffer.len() == size
    &&& outcome matches ReadOutcome::Ready(Ok(n)) ==> n <= size
}

/// Whether every read of a run is one that a stream of chunk size `size` can
/// take.
pub open spec fn reads_fit<E>(size: usize, reads: Seq<(Seq<u8>, ReadOutcome<E>)>) -> bool {
    forall|i: int| 0 <= i < reads.len() ==> read_fits(size, (#[trigger] reads[i]).0, reads[i].1)
}

/// The chunk that a poll in state `state` yields, if it yields one, when the
/// read into `buffer` had the outcome `outcome`: an open stream passes on the
/// front of the buffer, as many bytes as the read reported.
pub open spec fn chunk_of<E>(state: StreamState, buffer: Seq<u8>, outcome: ReadOutcome<E>) -> Option<
    Seq<u8>,
> {
    match (state, outcome) {
        (StreamState::Open, ReadOutcome::Ready(Ok(n))) => if n == 0 {
            None
        } else {
            Some(buffer.take(n as int))
        },
        _ => None,
    }
}

/// Whether `item` is what a poll in state `state` yields, when the read into
/// `buffer` had the outcome `outcome`.
pub open spec fn yields<E>(
    state: StreamState,
    buffer: Seq<u8>,
    outcome: ReadOutcome<E>,
    item: PollData<E>,
) -> bool {
    match chunk_of(state, buffer, outcome) {
        Some(chunk) => item matches PollData::Chunk(c) && c@ == chunk,
        None => match (state, outcome) {
            (StreamState::Open, ReadOutcome::Pending) => item is Pending,
            (StreamState::Open, ReadOutcome::Ready(Err(e))) => item == PollData::Failed(e),
            _ => item is End,
        },
    }
}

/// The chunks that a stream yields over a run of polls, from the state
/// `state` on. Each poll comes with the buffer that was read into and the
/// outcome of the read.
pub open spec fn run_chunks<E>(state: StreamState, reads: Seq<(Seq<u8>, ReadOutcome<E>)>) -> Seq<
    Seq<u8>,
>
    decreases reads.len(),
{
    if reads.len() == 0 {
        Seq::empty()
    } else {
        let (buffer, outcome) = reads.first();
        let rest = run_chunks(next_state(state, outcome), reads.drop_first());
        match chunk_of(state, buffer, outcome) {
            Some(chunk) => seq![chunk] + rest,
            None => rest,
        }
    }
}

/// The bytes that a source hands over in a run of reads, up to its end or its
/// first error: what reading the source directly gives.
pub open spec fn delivered<E>(reads: Seq<(Seq<u8>, ReadOutcome<E>)>) -> Seq<u8>
    decreases reads.len(),
{
    if reads.len() == 0 {
        Seq::empty()
    } else {
        let (buffer, outcome) = reads.first();
        match outcome {
            ReadOutcome::Pending => delivered(reads.drop_first()),
            ReadOutcome::Ready(Err(_)) => Seq::empty(),
            ReadOutcome::Ready(Ok(n)) => if n == 0 {
                Seq::empty()
            } else {
                buffer.take(n as int) + delivered(reads.drop_first())
            },
        }
    }
}

/// A byte source wrapped for chunked delivery.
pub struct IntoBytesStream<B> {
    inner: B,
    buf_size: usize,
    state: StreamState,
}

impl<B> IntoBytesStream<B> {
    /// The source.
    pub closed spec fn inner(&self) -> B {
        self.inner
    }

    /// The largest chunk this stream yields.
    pub closed spec fn buf_size(&self) -> usize {
        self.buf_size
    }

    /// Where the stream stands.
    pub closed spec fn state(&self) -> StreamState {
        self.state
    }

    /// Wraps `inner`; chunks will hold at most `buf_size` bytes.
    pub fn new(inner: B, buf_size: usize) -> (s: Self)
        ensures
            s.inner() == inner,
            s.buf_size() == buf_size,
            s.state() == StreamState::Open,
    {
        IntoBytesStream { inner, buf_size, state: StreamState::Open }
    }

    /// Whether the stream has ended, by exhaustion or by failure.
    pub fn is_terminated(&self) -> (done: bool)
        ensures
            done == (self.state() != StreamState::Open),
    {
        match self.state {
            StreamState::Open => false,
            _ => true,
        }
    }

    /// The state of the stream.
    pub fn current_state(&self) -> (s: StreamState)
        ensures
            s == self.state(),
    {
        self.state
    }

    /// The size of the buffer to read into.
    pub fn chunk_size(&self) -> (n: usize)
        ensures
            n == self.buf_size(),
    {
        self.buf_size
    }

    /// A zeroed buffer of the stream's chunk size, to read into.
    pub fn buffer(&self) -> (buf: Vec<u8>)
        ensures
            buf@.len() == self.buf_size(),
            forall|i: int| 0 <= i < buf@.len() ==> buf@[i] == 0,
    {
        vec![0u8; self.buf_size]
    }

    /// The source, to read from.
    pub fn source(&mut self) -> (inner: &mut B)
        ensures
            *inner == old(self).inner(),
            final(self).inner() == *final(inner),
            final(self).buf_size() == old(self).buf_size(),
            final(self).state() == old(self).state(),
    {
        &mut self.inner
    }

    /// Takes the outcome of one read into `buffer` and says what the consumer
    /// gets. An open stream passes on what was read, cut to the number of
    /// bytes reported: a chunk of at least one byte and at most the chunk
    /// size. A read of zero bytes ends the stream, an error fails it. A stream
    /// that has ended yields `End` whatever the outcome.
    ///
    /// While the stream is open, the buffer must be of the stream's chunk
    /// size, as [`buffer`](Self::buffer) gives it, and the read must not
    /// report more bytes than it holds.
    pub fn poll_next<E>(&mut self, buffer: Vec<u8>, outcome: ReadOutcome<E>) -> (item: PollData<E>)
        requires
            old(self).state() == StreamState::Open ==> read_fits(
                old(self).buf_size(),
                buffer@,
                outcome,
            ),
        ensures
            yields(old(self).state(), buffer@, outcome, item),
            item matches PollData::Chunk(chunk) ==> 1 <= chunk@.len() <= old(self).buf_size(),
            final(self).state() == next_state(old(self).state(), outcome),
            final(self).inner() == old(self).inner(),
            final(self).buf_size() == old(self).buf_size(),
    {
        match self.state {
            StreamState::Open => match outcome {
                ReadOutcome::Pending => PollData::Pending,
                ReadOutcome::Ready(Err(e)) => {
                    self.state = StreamState::Failed;
                    PollData::Failed(e)
                },
                ReadOutcome::Ready(Ok(n)) => {
                    if n == 0 {
                        self.state = StreamState::Exhausted;
                        PollData::End
                    } else {
                        let mut chunk = buffer;
                        chunk.truncate(n);
                        assert(chunk@ =~= buffer@.take(n as int));
                        PollData::Chunk(chunk)
                    }
                },
            },
            _ => PollData::End,
        }
    }
}

/// The views of a list of chunks, in order.
pub open spec fn chunk_views(chunks: Seq<Vec<u8>>) -> Seq<Seq<u8>> {
    Seq::new(chunks.len(), |i: int| chunks[i]@)
}

/// `data` cut into chunks of `size` bytes, the last one shorter where `size`
/// does not divide the length. No data gives no chunks, and so does a chunk
/// size of zero.
pub open spec fn chunks_of(data: Seq<u8>, size: nat) -> Seq<Seq<u8>>
    decreases data.len(),
{
    if size == 0 || data.len() == 0 {
        Seq::empty()
    } else {
        let n = min(size as int, data.len() as int);
        seq![data.take(n)] + chunks_of(data.skip(n), size)
    }
}

/// The bytes of a list of chunks laid end to end.
pub open spec fn concat(chunks: Seq<Seq<u8>>) -> Seq<u8>
    decreases chunks.len(),
{
    if chunks.len() == 0 {
        Seq::empty()
    } else {
        chunks.first() + concat(chunks.drop_first())
    }
}

/// The number of chunks that `len` bytes make at `size` bytes a chunk.
pub open spec fn chunk_count(len: nat, size: nat) -> nat {
    if size == 0 {
        0
    } else {
        ((len + size - 1) / (size as int)) as nat
    }
}

/// Chunking loses nothing and repeats nothing: the chunks of a body, laid end
/// to end, are the body, for every chunk size of at least one.
pub proof fn lemma_chunks_concat(data: Seq<u8>, size: nat)
    requires
        size >= 1,
    ensures
        concat(chunks_of(data, size)) == data,
    decreases data.len(),
{
    if data.len() == 0 {
        assert(concat(chunks_of(data, size)) =~= data);
    } else {
        let n = min(size as int, data.len() as int);
        let all = chunks_of(data, size);
        lemma_chunks_concat(data.skip(n), size);
        assert(all.first() == data.take(n));
        assert(all.drop_first() =~= chunks_of(data.skip(n), size));
        assert(data.take(n) + data.skip(n) =~= data);
    }
}

/// A body of `N` bytes makes `ceil(N / C)` chunks at chunk size `C`. Every
/// chunk but the last holds `C` bytes, and the last holds `N mod C` bytes, or
/// `C` where `C` divides `N`. An empty body makes no chunk.
pub proof fn lemma_chunks_shape(data: Seq<u8>, size: nat)
    requires
        size >= 1,
    ensures
        chunks_of(data, size).len() == chunk_count(data.len(), size),
        data.len() == 0 ==> chunks_of(data, size).len() == 0,
        forall|i: int|
            0 <= i < chunks_of(data, size).len() - 1 ==> (#[trigger] chunks_of(data, size)[i]).len()
                == size,
        data.len() > 0 ==> chunks_of(data, size).last().len() == if data.len() % size == 0 {
            size
        } else {
            data.len() % size
        },
    decreases data.len(),
{
    let len = data.len();
    if len == 0 {
        assert((0 + size - 1) / (size as int) == 0) by (nonlinear_arith)
            requires
                size >= 1,
        ;
    } else if len <= size {
        assert(chunks_of(data.skip(len as int), size) =~= Seq::<Seq<u8>>::empty());
        assert(chunks_of(data, size) =~= seq![data.take(len as int)]);
        assert((len + size - 1) / (size as int) == 1) by (nonlinear_arith)
            requires
                1 <= len <= size,
        ;
        assert(len % size == if len == size { 0 } else { len as int }) by (nonlinear_arith)
            requires
                1 <= len <= size,
        ;
    } else {
        let rest = data.skip(size as int);
        let all = chunks_of(data, size);
        lemma_chunks_shape(rest, size);
        assert(all =~= seq![data.take(size as int)] + chunks_of(rest, size));
        assert(rest.len() == len - size);
        assert((len + size - 1) / (size as int) == (len - size + size - 1) / (size as int) + 1)
            by (nonlinear_arith)
            requires
                size >= 1,
                len > size,
        ;
        assert((len - size) % (size as int) == len % size) by (nonlinear_arith)
            requires
                size >= 1,
                len > size,
        ;
        assert(chunks_of(rest, size).len() >= 1);
        assert(all.last() == chunks_of(rest, size).last());
        assert forall|i: int| 0 <= i < all.len() - 1 implies (#[trigger] all[i]).len() == size by {
            if i > 0 {
                assert(all[i] == chunks_of(rest, size)[i - 1]);
            }
        }
    }
}

/// A stream that has ended stays ended: exhausted or failed, it yields no
/// chunk again, whatever the reads that follow report.
pub proof fn lemma_ended_stream_yields_nothing<E>(
    state: StreamState,
    reads: Seq<(Seq<u8>, ReadOutcome<E>)>,
)
    requires
        state != StreamState::Open,
    ensures
        run_chunks(state, reads) == Seq::<Seq<u8>>::empty(),
    decreases reads.len(),
{
    if reads.len() > 0 {
        lemma_ended_stream_yields_nothing(next_state(state, reads.first().1), reads.drop_first());
    }
}

/// An open stream yields what its source hands over, no byte dropped and none
/// twice: the chunks of a run of polls, laid end to end, are the bytes read
/// up to the source's end or first error.
pub proof fn lemma_stream_yields_what_is_read<E>(reads: Seq<(Seq<u8>, ReadOutcome<E>)>)
    ensures
        concat(run_chunks(StreamState::Open, reads)) == delivered(reads),
    decreases reads.len(),
{
    if reads.len() > 0 {
        let (buffer, outcome) = reads.first();
        let rest = reads.drop_first();
        let after = next_state(StreamState::Open, outcome);
        if after == StreamState::Open {
            lemma_stream_yields_what_is_read(rest);
        } else {
            lemma_ended_stream_yields_nothing(after, rest);
        }
        match chunk_of(StreamState::Open, buffer, outcome) {
            Some(chunk) => {
                let all = seq![chunk] + run_chunks(after, rest);
                assert(all.first() == chunk);
                assert(all.drop_first() =~= run_chunks(after, rest));
            },
            None => {},
        }
    }
}

/// No chunk is empty and none is longer than the chunk size: over a run of
/// reads that the stream can take, every chunk it yields holds at least one
/// byte and at most `size`.
pub proof fn lemma_chunks_within_size<E>(
    state: StreamState,
    size: usize,
    reads: Seq<(Seq<u8>, ReadOutcome<E>)>,
)
    requires
        reads_fit(size, reads),
    ensures
        forall|i: int|
            0 <= i < run_chunks(state, reads).len() ==> 1 <= (#[trigger] run_chunks(
                state,
                reads,
            )[i]).len() <= size,
    decreases reads.len(),
{
    if reads.len() > 0 {
        let (buffer, outcome) = reads.first();
        let rest = reads.drop_first();
        let after = next_state(state, outcome);
        assert(read_fits(size, reads[0].0, reads[0].1));
        assert forall|i: int| 0 <= i < rest.len() implies read_fits(
            size,
            (#[trigger] rest[i]).0,
            rest[i].1,
        ) by {
            assert(rest[i] == reads[i + 1]);
        }
        lemma_chunks_within_size(after, size, rest);
        let all = run_chunks(state, reads);
        assert forall|i: int| 0 <= i < all.len() implies 1 <= (#[trigger] all[i]).len() <= size by {
            match chunk_of(state, buffer, outcome) {
                Some(chunk) => {
                    if i > 0 {
                        assert(all[i] == run_chunks(after, rest)[i - 1]);
                    }
                },
                None => {},
            }
        }
    }
}

/// A body held in memory, read from the front.
pub struct MemoryReader {
    data: Vec<u8>,
    pos: usize,
}

impl MemoryReader {
    /// The bytes not yet read.
    pub closed spec fn remaining(&self) -> Seq<u8> {
        self.data@.skip(self.pos as int)
    }

    /// The position never passes the end of the data.
    pub closed spec fn wf(&self) -> bool {
        self.pos <= self.data@.len()
    }

    /// A reader over `data`, at its start.
    pub fn new(data: Vec<u8>) -> (r: MemoryReader)
        ensures
            r.wf(),
            r.remaining() == data@,
    {
        let r = MemoryReader { data, pos: 0 };
        assert(r.data@.skip(0) =~= data@);
        r
    }

    /// The number of bytes not yet read.
    pub fn remaining_len(&self) -> (n: usize)
        requires
            self.wf(),
        ensures
            n == self.remaining().len(),
    {
        self.data.len() - self.pos
    }

    /// Reads into the front of `buf` as many bytes as it takes and are left,
    /// and returns their number. The rest of `buf` stays as it was.
    pub fn read(&mut self, buf: &mut Vec<u8>) -> (n: usize)
        requires
            old(self).wf(),
        ensures
            final(self).wf(),
            n == min(old(buf)@.len() as int, old(self).remaining().len() as int),
            final(buf)@ == old(self).remaining().take(n as int) + old(buf)@.skip(n as int),
            final(self).remaining() == old(self).remaining().skip(n as int),
    {
        let left: usize = self.data.len() - self.pos;
        let n: usize = if buf.len() <= left {
            buf.len()
        } else {
            left
        };
        let ghost before = buf@;
        let ghost rem = self.remaining();
        let mut i: usize = 0;
        while i < n
            invariant
                i <= n,
                n <= buf@.len(),
                self.pos + n <= self.data@.len() <= usize::MAX,
                rem == self.data@.skip(self.pos as int),
                buf@.len() == before.len(),
                buf@ == rem.take(i as int) + before.skip(i as int),
            decreases n - i,
        {
            let byte: u8 = self.data[self.pos + i];
            buf.set(i, byte);
            assert(buf@ =~= rem.take(i + 1) + before.skip(i + 1));
            i += 1;
        }
        self.pos = self.pos + n;
        assert(self.data@.skip(self.pos as int) =~= rem.skip(n as int));
        n
    }
}

impl IntoBytesStream<MemoryReader> {
    /// Drives the stream over its in-memory source until it ends and returns
    /// the chunks in the order they came: what was left of the source, cut
    /// into chunks of the stream's size. With a chunk size of at least one,
    /// nothing is left in the source afterwards. A stream that has ended gives
    /// no chunk and stays as it is.
    pub fn collect(&mut self) -> (chunks: Vec<Vec<u8>>)
        requires
            old(self).inner().wf(),
        ensures
            final(self).inner().wf(),
            final(self).buf_size() == old(self).buf_size(),
            old(self).state() == StreamState::Open ==> {
                &&& chunk_views(chunks@) == chunks_of(
                    old(self).inner().remaining(),
                    old(self).buf_size() as nat,
                )
                &&& final(self).state() == StreamState::Exhausted
                &&& old(self).buf_size() >= 1 ==> final(self).inner().remaining().len() == 0
            },
            old(self).state() != StreamState::Open ==> {
                &&& chunks@.len() == 0
                &&& final(self).state() == old(self).state()
                &&& final(self).inner() == old(self).inner()
            },
    {
        let mut chunks: Vec<Vec<u8>> = Vec::new();
        if self.is_terminated() {
            return chunks;
        }
        let ghost all = self.inner().remaining();
        let ghost size = self.buf_size() as nat;
        assert(chunk_views(chunks@) =~= Seq::<Seq<u8>>::empty());
        loop
            invariant_except_break
                self.state() == StreamState::Open,
                chunk_views(chunks@) + chunks_of(self.inner().remaining(), size) == chunks_of(
                    all,
                    size,
                ),
            invariant
                self.inner().wf(),
                self.buf_size() == size,
            ensures
                self.state() == StreamState::Exhausted,
                chunk_views(chunks@) == chunks_of(all, size),
                size >= 1 ==> self.inner().remaining().len() == 0,
            decreases self.inner().remaining().len(),
        {
            let ghost rem = self.inner().remaining();
            let ghost done = chunk_views(chunks@);
            let mut buffer = self.buffer();
            let n = self.inner.read(&mut buffer);
            let item = self.poll_next::<()>(buffer, ReadOutcome::Ready(Ok(n)));
            match item {
                PollData::Chunk(chunk) => {
                    assert(chunk@ =~= rem.take(n as int));
                    chunks.push(chunk);
                    assert(chunk_views(chunks@) =~= done.push(rem.take(n as int)));
                    assert(done.push(rem.take(n as int)) + chunks_of(rem.skip(n as int), size)
                        =~= done + (seq![rem.take(n as int)] + chunks_of(rem.skip(n as int), size)));
                },
                _ => {
                    assert(n == 0);
                    assert(chunks_of(rem, size) =~= Seq::<Seq<u8>>::empty());
                    assert(done + Seq::<Seq<u8>>::empty() =~= done);
                    break;
                },
            }
        }
        chunks
    }
}

} // verus!
