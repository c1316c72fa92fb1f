//! A request, the response to it and the stream of its body, kept together
//! with the server state they were made from.
//!
//! A pair is built in a fixed order: the server handle first, then the
//! request, then the response, then the stream over the response's body. No
//! step can be taken before the one it rests on, and none twice. What the pair
//! holds is released in the opposite order.

use vstd::prelude::*;
use std::sync::Arc;
use crate::decimal::{decimal, lemma_decimal_digits, lemma_decimal_round_trip, to_decimal, value_of};
use crate::response::{
    has_name, views, Body, Header, HeaderView, Response, DEFAULT_CHUNK_SIZE,
};
use crate::stream::{
    chunk_views, chunks_of, next_state, read_fits, yields, IntoBytesStream, MemoryReader, PollData,
    ReadOutcome, StreamState,
};
use crate::transport::{
    check_head, head_error, header_accepted, header_value_accepted, headers_accepted,
    name_byte_accepted, status_accepted, value_byte_accepted, EncodeError,
};

verus! {

/// How far a pair has been built.
#[derive(Clone, Copy, Debug, PartialEq, Eq, Structural)]
pub enum Phase {
    /// The pair holds the server handle and nothing else.
    Bound,
    /// The request has been set.
    Requested,
    /// The response has been set.
    Responded,
    /// The body is being streamed.
    Streaming,
}

/// Utility data structure for keeping a response with the request it answers
/// and the server state both come from.
///
/// The fields stand in the order in which they are released.
pub struct ReqResPair<C, Q, B> {
    stream: Option<IntoBytesStream<B>>,
    response: Option<Response<B>>,
    request: Option<Q>,
    rocket: Arc<C>,
}

/// The body handed to the transport: nothing, or the pair whose stream gives
/// the body.
pub enum PayloadKind<C, Q, B> {
    /// The response has no body.
    Empty,
    /// The body comes from the stream of this pair, which is kept whole until
    /// the body has been sent.
    ReqRes(Box<ReqResPair<C, Q, B>>),
}

/// A response as the transport takes it: the status code, the headers in the
/// order they are sent, and the body.
pub struct HyperResponse<C, Q, B> {
    pub status: u16,
    pub headers: Vec<Header>,
    pub body: PayloadKind<C, Q, B>,
}

/// The name of the header that carries a body's length: `Content-Length`.
pub open spec fn content_length_name() -> Seq<u8> {
    seq![67u8, 111, 110, 116, 101, 110, 116, 45, 76, 101, 110, 103, 116, 104]
}

/// The header that declares a body of `size` bytes.
pub open spec fn content_length(size: u64) -> HeaderView {
    (content_length_name(), decimal(size as nat))
}

/// The headers sent for a response with the headers `own` and the body
/// `body`: its own, followed by a `Content-Length` unless the body is of
/// unknown length. A response without a body declares a length of zero.
pub open spec fn emitted_headers<B>(own: Seq<HeaderView>, body: Option<Body<B>>) -> Seq<
    HeaderView,
> {
    match body {
        None => own.push(content_length(0)),
        Some(Body::Sized(_, size)) => own.push(content_length(size)),
        Some(Body::Chunked(_, _)) => own,
    }
}

/// The size of the chunks a body is streamed in: its own chunk size where it
/// is of unknown length, `sized_chunk_size` where its length is known.
pub open spec fn stream_chunk_size<B>(body: Body<B>, sized_chunk_size: usize) -> u64 {
    match body {
        Body::Sized(_, _) => sized_chunk_size as u64,
        Body::Chunked(_, chunk_size) => chunk_size,
    }
}

/// The source of a body.
pub open spec fn body_source<B>(body: Body<B>) -> B {
    match body {
        Body::Sized(source, _) => source,
        Body::Chunked(source, _) => source,
    }
}

/// Why a response cannot be turned into what the transport takes, if it
/// cannot: what the transport refuses in its head or, where the head passes, a
/// chunk size beyond the transport's size type.
pub open spec fn finalize_error<B>(response: Response<B>) -> Option<EncodeError> {
    match head_error(response.status_code(), response.header_views()) {
        Some(e) => Some(e),
        None => match response.body {
            Some(Body::Chunked(_, chunk_size)) => if chunk_size > usize::MAX {
                Some(EncodeError::ChunkSizeOverflow)
            } else {
                None
            },
            _ => None,
        },
    }
}

fn content_length_header(size: u64) -> (h: Header)
    ensures
        h@ == content_length(size),
{
    let mut name: Vec<u8> = Vec::new();
    name.push(67);
    name.push(111);
    name.push(110);
    name.push(116);
    name.push(101);
    name.push(110);
    name.push(116);
    name.push(45);
    name.push(76);
    name.push(101);
    name.push(110);
    name.push(103);
    name.push(116);
    name.push(104);
    assert(name@ =~= content_length_name());
    Header::from_bytes(name, to_decimal(size))
}

fn copy_headers(headers: &Vec<Header>) -> (out: Vec<Header>)
    ensures
        views(out@) == views(headers@),
{
    let mut out: Vec<Header> = Vec::new();
    let mut i: usize = 0;
    while i < headers.len()
        invariant
            i <= headers.len(),
            out@.len() == i,
            forall|j: int| 0 <= j < i ==> (#[trigger] out@[j])@ == headers@[j]@,
        decreases headers.len() - i,
    {
        out.push(headers[i].copy());
        i += 1;
    }
    assert(views(out@) =~= views(headers@));
    out
}

impl<C, Q, B> ReqResPair<C, Q, B> {
    /// The server state this pair is bound to.
    pub closed spec fn context(&self) -> C {
        *self.rocket
    }

    /// The request, once set.
    pub closed spec fn held_request(&self) -> Option<Q> {
        self.request
    }

    /// The response, once set.
    pub closed spec fn held_response(&self) -> Option<Response<B>> {
        self.response
    }

    /// The stream over the response's body, once started.
    pub closed spec fn held_stream(&self) -> Option<IntoBytesStream<B>> {
        self.stream
    }

    /// Nothing is held without what it was made from: a response only with a
    /// request, a stream only with a response, and then the response has given
    /// its body to the stream.
    pub open spec fn wf(&self) -> bool {
        &&& self.held_response() is Some ==> self.held_request() is Some
        &&& self.held_stream() is Some ==> self.held_response() is Some
        &&& self.held_stream() is Some ==> self.held_response()->0.body is None
    }

    /// How far this pair has been built.
    pub open spec fn phase(&self) -> Phase {
        if self.held_stream() is Some {
            Phase::Streaming
        } else if self.held_response() is Some {
            Phase::Responded
        } else if self.held_request() is Some {
            Phase::Requested
        } else {
            Phase::Bound
        }
    }

    /// Whether a request may be set: only on a pair that holds none, and no
    /// response either.
    pub open spec fn accepts_request(&self) -> bool {
        self.wf() && self.phase() == Phase::Bound
    }

    /// Whether a response may be set: only on a pair that holds a request and
    /// no response yet.
    pub open spec fn accepts_response(&self) -> bool {
        self.wf() && self.phase() == Phase::Requested
    }

    /// Whether the pair may be handed to the transport: only once it holds a
    /// response whose body has not been started.
    pub open spec fn accepts_finalize(&self) -> bool {
        self.wf() && self.phase() == Phase::Responded
    }

    /// A pair bound to `rocket`, with no request yet.
    pub fn new(rocket: Arc<C>) -> (pair: Box<ReqResPair<C, Q, B>>)
        ensures
            pair.wf(),
            pair.phase() == Phase::Bound,
            pair.context() == *rocket,
    {
        Box::new(ReqResPair { stream: None, response: None, request: None, rocket })
    }

    /// How far this pair has been built.
    pub fn current_phase(&self) -> (p: Phase)
        ensures
            p == self.phase(),
    {
        if self.stream.is_some() {
            Phase::Streaming
        } else if self.response.is_some() {
            Phase::Responded
        } else if self.request.is_some() {
            Phase::Requested
        } else {
            Phase::Bound
        }
    }

    /// The server state.
    pub fn rocket(&self) -> (c: &C)
        ensures
            *c == self.context(),
    {
        &*self.rocket
    }

    /// The request, if it has been set.
    pub fn request(&self) -> (q: Option<&Q>)
        ensures
            match q {
                Some(q) => self.held_request() == Some(*q),
                None => self.held_request() is None,
            },
    {
        self.request.as_ref()
    }

    /// The response, if it has been set.
    pub fn response(&self) -> (r: Option<&Response<B>>)
        ensures
            match r {
                Some(r) => self.held_response() == Some(*r),
                None => self.held_response() is None,
            },
    {
        self.response.as_ref()
    }

    /// Builds the request from the server state and stores it. Where `f`
    /// fails, its error is returned and the pair stays as it was.
    ///
    /// The pair must be fresh: a second request would invalidate the first and
    /// any response built from it.
    pub fn try_set_request<F, E>(&mut self, f: F) -> (r: Result<(), E>) where
        F: FnOnce(&C) -> Result<Q, E>,

        requires
            old(self).accepts_request(),
            call_requires(f, (&old(self).context(),)),
        ensures
            final(self).wf(),
            final(self).context() == old(self).context(),
            final(self).held_response() is None,
            final(self).held_stream() is None,
            match r {
                Ok(_) => final(self).held_request() matches Some(q) && call_ensures(
                    f,
                    (&old(self).context(),),
                    Ok(q),
                ),
                Err(e) => final(self).held_request() is None && call_ensures(
                    f,
                    (&old(self).context(),),
                    Err(e),
                ),
            },
    {
        match f(&*self.rocket) {
            Ok(request) => {
                self.request = Some(request);
                Ok(())
            },
            Err(e) => Err(e),
        }
    }

    /// Runs the handler `f` on the server state and the request, and stores
    /// the response it returns. The handler may change the request.
    ///
    /// The pair must hold a request and no response yet.
    pub fn set_response<F>(&mut self, f: F) where F: FnOnce(&C, &mut Q) -> Response<B>
        requires
            old(self).accepts_response(),
            forall|m: &mut Q|
                *m == old(self).held_request()->0 ==> call_requires(f, (&old(self).context(), m)),
        ensures
            final(self).wf(),
            final(self).phase() == Phase::Responded,
            final(self).context() == old(self).context(),
            exists|m: &mut Q|
                *m == old(self).held_request()->0 && *final(m) == final(self).held_request()->0
                    && #[trigger] call_ensures(
                    f,
                    (&old(self).context(), m),
                    final(self).held_response()->0,
                ),
    {
        let (rocket, request) = self.handler_args();
        let response = f(rocket, request);
        self.response = Some(response);
    }

    /// The server state and the request, for a handler that is run outside
    /// this pair. What the handler does to the request stays in the pair.
    pub fn handler_args(&mut self) -> (args: (&C, &mut Q))
        requires
            old(self).accepts_response(),
        ensures
            *args.0 == old(self).context(),
            *args.1 == old(self).held_request()->0,
            final(self).held_request() == Some(*final(args.1)),
            final(self).context() == old(self).context(),
            final(self).held_response() == old(self).held_response(),
            final(self).held_stream() == old(self).held_stream(),
    {
        let rocket = &*self.rocket;
        match &mut self.request {
            Some(request) => (rocket, request),
            None => vstd::pervasive::unreached(),
        }
    }

    /// Turns the pair into what the transport takes. The status and the
    /// headers are copied out; the body, where there is one, is wrapped in a
    /// stream that the pair keeps, and the pair itself becomes the payload. A
    /// body of known length is streamed in chunks of the default size.
    ///
    /// A head that the transport refuses, or a chunk size beyond its size
    /// type, is an error, and the pair is dropped.
    pub fn into_hyper_response(self: Box<Self>) -> (r: Result<HyperResponse<C, Q, B>, EncodeError>)
        requires
            self.accepts_finalize(),
        ensures
            self.finalized(DEFAULT_CHUNK_SIZE as usize, r),
    {
        self.into_hyper_response_with(DEFAULT_CHUNK_SIZE as usize)
    }

    /// As [`into_hyper_response`](Self::into_hyper_response), with a body of
    /// known length streamed in chunks of `sized_chunk_size` bytes.
    pub fn into_hyper_response_with(self: Box<Self>, sized_chunk_size: usize) -> (r: Result<
        HyperResponse<C, Q, B>,
        EncodeError,
    >)
        requires
            self.accepts_finalize(),
        ensures
            self.finalized(sized_chunk_size, r),
    {
        let mut pair = self;
        let ghost before = pair.response->0;
        let (code, mut headers, body) = match &mut pair.response {
            Some(response) => {
                let code = response.status().code;
                match check_head(code, &response.headers) {
                    Err(e) => {
                        return Err(e);
                    },
                    Ok(_) => {},
                }
                (code, copy_headers(&response.headers), response.take_body())
            },
            None => vstd::pervasive::unreached(),
        };
        match body {
            None => {
                headers.push(content_length_header(0));
                assert(views(headers@) =~= emitted_headers(before.header_views(), before.body));
                Ok(HyperResponse { status: code, headers, body: PayloadKind::Empty })
            },
            Some(Body::Chunked(source, chunk_size)) => {
                if chunk_size > usize::MAX as u64 {
                    return Err(EncodeError::ChunkSizeOverflow);
                }
                pair.stream = Some(IntoBytesStream::new(source, chunk_size as usize));
                Ok(HyperResponse { status: code, headers, body: PayloadKind::ReqRes(pair) })
            },
            Some(Body::Sized(source, size)) => {
                headers.push(content_length_header(size));
                assert(views(headers@) =~= emitted_headers(before.header_views(), before.body));
                pair.stream = Some(IntoBytesStream::new(source, sized_chunk_size));
                Ok(HyperResponse { status: code, headers, body: PayloadKind::ReqRes(pair) })
            },
        }
    }

    /// Whether `r` is what handing this pair to the transport gives, with
    /// bodies of known length streamed in chunks of `sized_chunk_size` bytes.
    /// A response that cannot be sent gives its error. Any other gives its
    /// status, the headers to send and the payload: nothing where the
    /// response has no body, else this pair with its stream started.
    pub open spec fn finalized(
        &self,
        sized_chunk_size: usize,
        r: Result<HyperResponse<C, Q, B>, EncodeError>,
    ) -> bool {
        let response = self.held_response()->0;
        match finalize_error(response) {
            Some(e) => r == Err::<HyperResponse<C, Q, B>, EncodeError>(e),
            None => {
                &&& r matches Ok(out)
                &&& out.status == response.status_code()
                &&& views(out.headers@) == emitted_headers(response.header_views(), response.body)
                &&& match response.body {
                    None => out.body is Empty,
                    Some(body) => out.body matches PayloadKind::ReqRes(pair) && pair.streams(
                        *self,
                        body,
                        sized_chunk_size,
                    ),
                }
            },
        }
    }

    /// Whether this pair is `before` after its response gave `body` to a
    /// fresh stream: the server state and the request are those of `before`,
    /// the response is that of `before` without its body, and the stream is
    /// open over the body's source with the chunk size that goes with the body.
    pub open spec fn streams(&self, before: Self, body: Body<B>, sized_chunk_size: usize) -> bool {
        &&& self.wf()
        &&& self.phase() == Phase::Streaming
        &&& self.context() == before.context()
        &&& self.held_request() == before.held_request()
        &&& self.held_response() matches Some(response)
        &&& response.status == before.held_response()->0.status
        &&& response.headers == before.held_response()->0.headers
        &&& self.held_stream() matches Some(stream)
        &&& stream.inner() == body_source(body)
        &&& stream.buf_size() == stream_chunk_size(body, sized_chunk_size)
        &&& stream.state() == StreamState::Open
    }

}

/// A request is set once: a pair that holds a request, or a response, takes
/// no request.
pub proof fn lemma_request_set_once<C, Q, B>(pair: ReqResPair<C, Q, B>)
    requires
        pair.held_request() is Some || pair.held_response() is Some,
    ensures
        !pair.accepts_request(),
{
}

/// A response is set once, and only after a request: a pair that holds a
/// response, or no request, takes no response.
pub proof fn lemma_response_set_once<C, Q, B>(pair: ReqResPair<C, Q, B>)
    requires
        pair.held_response() is Some || pair.held_request() is None,
    ensures
        !pair.accepts_response(),
{
}

/// A pair whose body is being streamed takes no request, no response and no
/// second hand-over to the transport.
pub proof fn lemma_streaming_is_final<C, Q, B>(pair: ReqResPair<C, Q, B>)
    requires
        pair.held_stream() is Some,
    ensures
        !pair.accepts_request(),
        !pair.accepts_response(),
        !pair.accepts_finalize(),
{
}

/// A body of known length is sent with a `Content-Length` header that stands
/// last, reads back as the declared length and is a value the transport
/// accepts. A body of unknown length is sent with the response's own headers
/// and no other: where none of them is a `Content-Length`, none is sent.
pub proof fn lemma_content_length<B>(own: Seq<HeaderView>, body: Body<B>)
    ensures
        body matches Body::Sized(_, size) ==> {
            let sent = emitted_headers(own, Some(body));
            &&& sent.len() == own.len() + 1
            &&& sent.last().0 == content_length_name()
            &&& value_of(sent.last().1) == size
            &&& header_value_accepted(sent.last().1)
        },
        body is Chunked ==> emitted_headers(own, Some(body)) == own,
        body is Chunked && !has_name(own, content_length_name()) ==> !has_name(
            emitted_headers(own, Some(body)),
            content_length_name(),
        ),
{
    match body {
        Body::Sized(_, size) => {
            lemma_decimal_round_trip(size as nat);
            lemma_decimal_digits(size as nat);
            assert forall|i: int| 0 <= i < decimal(size as nat).len() implies value_byte_accepted(
                #[trigger] decimal(size as nat)[i],
            ) by {}
        },
        Body::Chunked(_, _) => {},
    }
}

/// What is handed to the transport is what the transport takes: the status
/// and every header sent for a response that can be sent are accepted, the
/// `Content-Length` that is added among them.
pub proof fn lemma_sent_head_is_accepted<B>(response: Response<B>)
    requires
        finalize_error(response) is None,
    ensures
        status_accepted(response.status_code()),
        headers_accepted(emitted_headers(response.header_views(), response.body)),
{
    let own = response.header_views();
    let sent = emitted_headers(own, response.body);
    let size: u64 = match response.body {
        Some(Body::Sized(_, size)) => size,
        _ => 0,
    };
    lemma_decimal_digits(size as nat);
    assert forall|i: int| 0 <= i < content_length_name().len() implies name_byte_accepted(
        #[trigger] content_length_name()[i],
    ) by {}
    assert forall|i: int| 0 <= i < decimal(size as nat).len() implies value_byte_accepted(
        #[trigger] decimal(size as nat)[i],
    ) by {}
    assert(header_accepted(content_length(size)));
    assert forall|i: int| 0 <= i < sent.len() implies header_accepted(#[trigger] sent[i]) by {
        if i < own.len() {
            assert(sent[i] == own[i]);
        }
    }
}

impl<C, Q, B> PayloadKind<C, Q, B> {
    /// A payload that holds a pair holds one that is streaming.
    pub open spec fn wf(&self) -> bool {
        match self {
            PayloadKind::Empty => true,
            PayloadKind::ReqRes(pair) => pair.wf() && pair.phase() == Phase::Streaming,
        }
    }

    /// The stream that gives the body, where there is a body.
    pub open spec fn stream(&self) -> Option<IntoBytesStream<B>> {
        match self {
            PayloadKind::Empty => None,
            PayloadKind::ReqRes(pair) => pair.held_stream(),
        }
    }

    /// Whether `self` holds what `before` held, but for the stream.
    pub open spec fn same_pair(&self, before: Self) -> bool {
        match (self, before) {
            (PayloadKind::Empty, PayloadKind::Empty) => true,
            (PayloadKind::ReqRes(now), PayloadKind::ReqRes(then)) => {
                &&& now.context() == then.context()
                &&& now.held_request() == then.held_request()
                &&& now.held_response() == then.held_response()
            },
            _ => false,
        }
    }

    /// The size of the buffer that the next poll needs a read into; `None`
    /// where the body has ended and there is nothing to read.
    pub fn wants_read(&self) -> (size: Option<usize>)
        requires
            self.wf(),
        ensures
            size == match self.stream() {
                Some(stream) => if stream.state() == StreamState::Open {
                    Some(stream.buf_size())
                } else {
                    None
                },
                None => None,
            },
    {
        match self {
            PayloadKind::Empty => None,
            PayloadKind::ReqRes(pair) => match &pair.stream {
                Some(stream) => if stream.is_terminated() {
                    None
                } else {
                    Some(stream.chunk_size())
                },
                None => None,
            },
        }
    }

    /// The source of the body, to read from.
    pub fn source(&mut self) -> (inner: &mut B)
        requires
            old(self).wf(),
            *old(self) is ReqRes,
        ensures
            *inner == old(self).stream()->0.inner(),
            final(self).wf(),
            final(self).same_pair(*old(self)),
            final(self).stream() matches Some(stream) && {
                &&& stream.inner() == *final(inner)
                &&& stream.buf_size() == old(self).stream()->0.buf_size()
                &&& stream.state() == old(self).stream()->0.state()
            },
    {
        match self {
            PayloadKind::ReqRes(pair) => match &mut pair.stream {
                Some(stream) => stream.source(),
                None => vstd::pervasive::unreached(),
            },
            PayloadKind::Empty => vstd::pervasive::unreached(),
        }
    }

    /// Answers one poll for data, given how the read into `buffer` went. An
    /// empty payload is at its end at once; one that holds a pair passes the
    /// outcome to the pair's stream, which yields chunks of at least one byte
    /// and at most its chunk size.
    ///
    /// While the stream is open, the buffer must be of the size that
    /// [`wants_read`](Self::wants_read) asks for, and the read must not report
    /// more bytes than it holds.
    pub fn poll_data<E>(&mut self, buffer: Vec<u8>, outcome: ReadOutcome<E>) -> (item: PollData<E>)
        requires
            old(self).wf(),
            old(self).stream() matches Some(stream) ==> (stream.state() == StreamState::Open
                ==> read_fits(stream.buf_size(), buffer@, outcome)),
        ensures
            final(self).wf(),
            final(self).same_pair(*old(self)),
            match old(self).stream() {
                None => item is End,
                Some(before) => {
                    &&& yields(before.state(), buffer@, outcome, item)
                    &&& item matches PollData::Chunk(chunk) ==> 1 <= chunk@.len()
                        <= before.buf_size()
                    &&& final(self).stream() matches Some(after)
                    &&& after.state() == next_state(before.state(), outcome)
                    &&& after.inner() == before.inner()
                    &&& after.buf_size() == before.buf_size()
                },
            },
    {
        match self {
            PayloadKind::Empty => PollData::End,
            PayloadKind::ReqRes(pair) => match &mut pair.stream {
                Some(stream) => stream.poll_next(buffer, outcome),
                None => PollData::End,
            },
        }
    }

    /// The headers that follow the body: there are none.
    pub fn poll_trailers(&self) -> (trailers: Option<Vec<Header>>)
        ensures
            trailers is None,
    {
        None
    }
}

impl<C, Q> PayloadKind<C, Q, MemoryReader> {
    /// Polls a payload whose body is held in memory until the body ends, and
    /// returns the chunks in the order they came: the body cut into chunks of
    /// the stream's size. An empty payload, or one whose stream has ended,
    /// gives none.
    pub fn collect(&mut self) -> (chunks: Vec<Vec<u8>>)
        requires
            old(self).wf(),
            old(self).stream() matches Some(stream) ==> stream.inner().wf(),
        ensures
            final(self).wf(),
            final(self).same_pair(*old(self)),
            match old(self).stream() {
                None => chunks@.len() == 0,
                Some(before) => {
                    &&& final(self).stream() matches Some(after)
                    &&& after.buf_size() == before.buf_size()
                    &&& if before.state() == StreamState::Open {
                        &&& chunk_views(chunks@) == chunks_of(
                            before.inner().remaining(),
                            before.buf_size() as nat,
                        )
                        &&& after.state() == StreamState::Exhausted
                    } else {
                        &&& chunks@.len() == 0
                        &&& after.state() == before.state()
                        &&& after.inner() == before.inner()
                    }
                },
            },
    {
        match self {
            PayloadKind::Empty => Vec::new(),
            PayloadKind::ReqRes(pair) => match &mut pair.stream {
                Some(stream) => stream.collect(),
                None => Vec::new(),
            },
        }
    }
}

impl<C, Q, B> Drop for ReqResPair<C, Q, B> {
    /// Releases what the pair holds: the stream first, then the response,
    /// then the request. The server handle is left for last and goes with the
    /// pair itself.
    fn drop(&mut self)
        ensures
            final(self).held_stream() is None,
            final(self).held_response() is None,
            final(self).held_request() is None,
            final(self).context() == old(self).context(),
        opens_invariants none
        no_unwind
    {
        self.stream = None;
        self.response = None;
        self.request = None;
    }
}

} // verus!
