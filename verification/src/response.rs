//! The response a handler produces: a status, an ordered list of headers and
//! an optional body.

use vstd::prelude::*;
use vstd::slice::slice_to_vec;
use vstd::string::StringSliceAdditionalSpecFns;

verus! {

/// An HTTP status code.
#[derive(Clone, Copy, Debug, PartialEq, Eq, Structural)]
pub struct Status {
    pub code: u16,
}

impl Status {
    /// `200 OK`, the status of a response that sets none.
    pub fn ok() -> (s: Status)
        ensures
            s.code == 200,
    {
        Status { code: 200 }
    }

    /// `201 Created`.
    pub fn created() -> (s: Status)
        ensures
            s.code == 201,
    {
        Status { code: 201 }
    }

    /// `202 Accepted`.
    pub fn accepted() -> (s: Status)
        ensures
            s.code == 202,
    {
        Status { code: 202 }
    }

    /// `400 Bad Request`.
    pub fn bad_request() -> (s: Status)
        ensures
            s.code == 400,
    {
        Status { code: 400 }
    }

    /// `404 Not Found`.
    pub fn not_found() -> (s: Status)
        ensures
            s.code == 404,
    {
        Status { code: 404 }
    }
}

/// One header line: a name and a value, both byte strings.
#[derive(Debug, PartialEq, Eq)]
pub struct Header {
    pub name: Vec<u8>,
    pub value: Vec<u8>,
}

/// What a header is in contracts: its name and its value.
pub type HeaderView = (Seq<u8>, Seq<u8>);

impl View for Header {
    type V = HeaderView;

    open spec fn view(&self) -> HeaderView {
        (self.name@, self.value@)
    }
}

/// The views of a list of headers, in order.
pub open spec fn views(headers: Seq<Header>) -> Seq<HeaderView> {
    Seq::new(headers.len(), |i: int| headers[i]@)
}

/// ASCII lower case of one byte; bytes that are not upper-case letters stay.
pub open spec fn lower(b: u8) -> u8 {
    if 65 <= b <= 90 {
        (b + 32) as u8
    } else {
        b
    }
}

/// Header names are compared without regard to ASCII case.
pub open spec fn same_name(a: Seq<u8>, b: Seq<u8>) -> bool {
    &&& a.len() == b.len()
    &&& forall|i: int| 0 <= i < a.len() ==> lower(#[trigger] a[i]) == lower(b[i])
}

/// Whether some header of `headers` is named `name`.
pub open spec fn has_name(headers: Seq<HeaderView>, name: Seq<u8>) -> bool {
    exists|i: int| 0 <= i < headers.len() && same_name((#[trigger] headers[i]).0, name)
}

/// `headers` without those named `name`, the others in their order.
pub open spec fn without_name(headers: Seq<HeaderView>, name: Seq<u8>) -> Seq<HeaderView> {
    headers.filter(|h: HeaderView| !same_name(h.0, name))
}

/// `headers` after one header has been set: every earlier header of that name
/// is gone and the new one stands last.
pub open spec fn with_header(headers: Seq<HeaderView>, header: HeaderView) -> Seq<HeaderView> {
    without_name(headers, header.0).push(header)
}

/// `ours` after the headers of `theirs` have been merged in: ours that share a
/// name with any of theirs are gone, then all of theirs follow.
pub open spec fn merged(ours: Seq<HeaderView>, theirs: Seq<HeaderView>) -> Seq<HeaderView> {
    ours.filter(|h: HeaderView| !has_name(theirs, h.0)) + theirs
}

/// A filter's result grows by the next element exactly when the element
/// passes.
proof fn lemma_filter_step<A>(s: Seq<A>, keep: spec_fn(A) -> bool, i: int)
    requires
        0 <= i < s.len(),
    ensures
        s.take(i + 1).filter(keep) == if keep(s[i]) {
            s.take(i).filter(keep).push(s[i])
        } else {
            s.take(i).filter(keep)
        },
{
    reveal(Seq::filter);
    assert(s.take(i + 1).drop_last() =~= s.take(i));
    assert(s.take(i + 1).last() == s[i]);
}

/// Compares two header names without regard to ASCII case.
pub fn name_eq(a: &Vec<u8>, b: &Vec<u8>) -> (same: bool)
    ensures
        same == same_name(a@, b@),
{
    if a.len() != b.len() {
        return false;
    }
    let mut i: usize = 0;
    while i < a.len()
        invariant
            a.len() == b.len(),
            i <= a.len(),
            forall|j: int| 0 <= j < i ==> lower(#[trigger] a@[j]) == lower(b@[j]),
        decreases a.len() - i,
    {
        if lower_byte(a[i]) != lower_byte(b[i]) {
            return false;
        }
        i += 1;
    }
    true
}

fn lower_byte(b: u8) -> (l: u8)
    ensures
        l == lower(b),
{
    if 65 <= b && b <= 90 {
        b + 32
    } else {
        b
    }
}

impl Header {
    /// A header from a name and a value given as text.
    pub fn new(name: &str, value: &str) -> (h: Header)
        ensures
            h@ == (name.spec_bytes(), value.spec_bytes()),
    {
        Header { name: slice_to_vec(name.as_bytes()), value: slice_to_vec(value.as_bytes()) }
    }

    /// A header from a name and a value given as bytes.
    pub fn from_bytes(name: Vec<u8>, value: Vec<u8>) -> (h: Header)
        ensures
            h@ == (name@, value@),
    {
        Header { name, value }
    }

    /// A copy of this header.
    pub fn copy(&self) -> (h: Header)
        ensures
            h@ == self@,
    {
        Header { name: slice_to_vec(self.name.as_slice()), value: slice_to_vec(self.value.as_slice()) }
    }
}

/// Whether some header of the list is named `name`.
pub fn contains_name(headers: &Vec<Header>, name: &Vec<u8>) -> (found: bool)
    ensures
        found == has_name(views(headers@), name@),
{
    let mut i: usize = 0;
    while i < headers.len()
        invariant
            i <= headers.len(),
            forall|j: int| 0 <= j < i ==> !same_name((#[trigger] views(headers@)[j]).0, name@),
        decreases headers.len() - i,
    {
        if name_eq(&headers[i].name, name) {
            assert(same_name(views(headers@)[i as int].0, name@));
            return true;
        }
        i += 1;
    }
    false
}

/// A response body: a source of bytes of type `B`, with either the number of
/// bytes it will give or the size of the chunks it is to be sent in.
pub enum Body<B> {
    /// A body of known length: the source and its length in bytes.
    Sized(B, u64),
    /// A body of unknown length: the source and the largest chunk to send.
    Chunked(B, u64),
}

/// The chunk size used where a body names none.
pub const DEFAULT_CHUNK_SIZE: u64 = 4096;

/// A response under construction or ready to be sent.
pub struct Response<B> {
    pub status: Option<Status>,
    pub headers: Vec<Header>,
    pub body: Option<Body<B>>,
}

impl<B> Response<B> {
    /// The headers of this response as contracts see them.
    pub open spec fn header_views(&self) -> Seq<HeaderView> {
        views(self.headers@)
    }

    /// The status this response is sent with: the one set, or `200`.
    pub open spec fn status_code(&self) -> u16 {
        match self.status {
            Some(s) => s.code,
            None => 200,
        }
    }

    /// A response with no status, no headers and no body.
    pub fn new() -> (r: Response<B>)
        ensures
            r.status is None,
            r.header_views() == Seq::<HeaderView>::empty(),
            r.body is None,
    {
        let r = Response { status: None, headers: Vec::new(), body: None };
        assert(r.header_views() =~= Seq::<HeaderView>::empty());
        r
    }

    /// The status this response is sent with.
    pub fn status(&self) -> (s: Status)
        ensures
            s.code == self.status_code(),
    {
        match self.status {
            Some(s) => s,
            None => Status::ok(),
        }
    }

    /// Sets the status.
    pub fn set_status(&mut self, status: Status)
        ensures
            final(self).status == Some(status),
            final(self).headers == old(self).headers,
            final(self).body == old(self).body,
    {
        self.status = Some(status);
    }

    /// Sets a header, replacing every header of the same name.
    pub fn set_header(&mut self, header: Header)
        ensures
            final(self).header_views() == with_header(old(self).header_views(), header@),
            final(self).status == old(self).status,
            final(self).body == old(self).body,
    {
        let ghost before = self.header_views();
        let ghost keep = |h: HeaderView| !same_name(h.0, header@.0);
        let mut kept: Vec<Header> = Vec::new();
        let mut rest: Vec<Header> = Vec::new();
        std::mem::swap(&mut self.headers, &mut rest);
        let mut i: usize = 0;
        assert(before.take(0).filter(keep) =~= Seq::<HeaderView>::empty()) by {
            reveal(Seq::filter);
        }
        while i < rest.len()
            invariant
                i <= rest.len(),
                views(rest@) == before,
                keep == |h: HeaderView| !same_name(h.0, header@.0),
                views(kept@) == before.take(i as int).filter(keep),
            decreases rest.len() - i,
        {
            proof {
                lemma_filter_step(before, keep, i as int);
            }
            if !name_eq(&rest[i].name, &header.name) {
                kept.push(rest[i].copy());
                assert(views(kept@) =~= before.take(i as int).filter(keep).push(before[i as int]));
            }
            i += 1;
        }
        assert(before.take(rest.len() as int) =~= before);
        kept.push(header);
        assert(views(kept@) =~= with_header(before, header@));
        self.headers = kept;
    }

    /// Adds a header after those already there, whatever their names.
    pub fn adjoin_header(&mut self, header: Header)
        ensures
            final(self).header_views() == old(self).header_views().push(header@),
            final(self).status == old(self).status,
            final(self).body == old(self).body,
    {
        self.headers.push(header);
        assert(self.header_views() =~= old(self).header_views().push(header@));
    }

    /// Gives the response a body of known length.
    pub fn set_sized_body(&mut self, source: B, size: u64)
        ensures
            final(self).body == Some(Body::Sized(source, size)),
            final(self).status == old(self).status,
            final(self).headers == old(self).headers,
    {
        self.body = Some(Body::Sized(source, size));
    }

    /// Gives the response a body of unknown length, sent in chunks of at most
    /// `chunk_size` bytes.
    pub fn set_chunked_body(&mut self, source: B, chunk_size: u64)
        ensures
            final(self).body == Some(Body::Chunked(source, chunk_size)),
            final(self).status == old(self).status,
            final(self).headers == old(self).headers,
    {
        self.body = Some(Body::Chunked(source, chunk_size));
    }

    /// Gives the response a body of unknown length, sent in chunks of the
    /// default size.
    pub fn set_streamed_body(&mut self, source: B)
        ensures
            final(self).body == Some(Body::Chunked(source, DEFAULT_CHUNK_SIZE)),
            final(self).status == old(self).status,
            final(self).headers == old(self).headers,
    {
        self.body = Some(Body::Chunked(source, DEFAULT_CHUNK_SIZE));
    }

    /// Removes the body and returns it.
    pub fn take_body(&mut self) -> (body: Option<Body<B>>)
        ensures
            body == old(self).body,
            final(self).body is None,
            final(self).status == old(self).status,
            final(self).headers == old(self).headers,
    {
        self.body.take()
    }

    /// Merges `other` into this response. A status or a body that `other` has
    /// replaces ours; headers of ours that share a name with one of `other`
    /// give way to those of `other`.
    pub fn merge(&mut self, other: Response<B>)
        ensures
            final(self).status == if other.status is Some {
                other.status
            } else {
                old(self).status
            },
            final(self).body == if other.body is Some {
                other.body
            } else {
                old(self).body
            },
            final(self).header_views() == merged(old(self).header_views(), other.header_views()),
    {
        let Response { status, headers: mut theirs, body } = other;
        if let Some(s) = status {
            self.status = Some(s);
        }
        if body.is_some() {
            self.body = body;
        }
        let ghost before = self.header_views();
        let ghost incoming = views(theirs@);
        let ghost keep = |h: HeaderView| !has_name(incoming, h.0);
        let mut kept: Vec<Header> = Vec::new();
        let mut ours: Vec<Header> = Vec::new();
        std::mem::swap(&mut self.headers, &mut ours);
        let mut i: usize = 0;
        assert(before.take(0).filter(keep) =~= Seq::<HeaderView>::empty()) by {
            reveal(Seq::filter);
        }
        while i < ours.len()
            invariant
                i <= ours.len(),
                views(ours@) == before,
                views(theirs@) == incoming,
                keep == |h: HeaderView| !has_name(incoming, h.0),
                views(kept@) == before.take(i as int).filter(keep),
            decreases ours.len() - i,
        {
            proof {
                lemma_filter_step(before, keep, i as int);
            }
            if !contains_name(&theirs, &ours[i].name) {
                kept.push(ours[i].copy());
                assert(views(kept@) =~= before.take(i as int).filter(keep).push(before[i as int]));
            }
            i += 1;
        }
        assert(before.take(ours.len() as int) =~= before);
        let ghost filtered = views(kept@);
        kept.append(&mut theirs);
        assert(views(kept@) =~= filtered + incoming);
        self.headers = kept;
    }
}

} // verus!
