//! Responders that set the status code of a response and the headers that go
//! with it.
//!
//! Each type takes the least it needs to build a proper response with its
//! status. Where it wraps another responder, that responder builds the
//! response first, with its own headers and body, and the wrapper then sets
//! the status and its headers on top.

use vstd::prelude::*;
use vstd::string::StringSliceAdditionalSpecFns;
use std::collections::hash_map::DefaultHasher;
use std::hash::{Hash, Hasher};
use crate::decimal::{decimal, to_decimal};
use crate::hash::feed;
use crate::response::{has_name, merged, with_header, Header, HeaderView, Response, Status};

verus! {

/// Something that can answer a request of type `Q` with a response whose body
/// is read from a `B`, or with a bare status where it has no response to
/// give.
pub trait Responder<Q, B>: Sized {
    fn respond_to(self, req: &Q) -> Result<Response<B>, Status>;
}

/// The name of the header that carries an entity tag: `ETag`.
pub open spec fn etag_name() -> Seq<u8> {
    seq![69u8, 84, 97, 103]
}

/// The name of the header that carries a resource's address: `Location`.
pub open spec fn location_name() -> Seq<u8> {
    seq![76u8, 111, 99, 97, 116, 105, 111, 110]
}

/// The value of an `ETag` header for the hash `tag`: the hash in decimal,
/// between double quotes.
pub open spec fn etag_value(tag: u64) -> Seq<u8> {
    seq![34u8] + decimal(tag as nat) + seq![34u8]
}

/// The headers of a `Created` response: those of the wrapped responder, then
/// the `ETag` where there is a tag, then the `Location`, each of the two in
/// place of any header of its name.
pub open spec fn created_headers(
    location: Seq<u8>,
    tag: Option<u64>,
    inner: Seq<HeaderView>,
) -> Seq<HeaderView> {
    let tagged = match tag {
        Some(t) => with_header(inner, (etag_name(), etag_value(t))),
        None => inner,
    };
    with_header(tagged, (location_name(), location))
}

/// Whether `out` is the response for a resource created at `location`, with
/// the hash `tag` where there is one, built on the response `inner` of the
/// wrapped responder where there is one: the status is 201, the headers are
/// [`created_headers`] over those of `inner`, and the body is that of
/// `inner`.
pub open spec fn created_from<B>(
    location: Seq<u8>,
    tag: Option<u64>,
    inner: Option<Response<B>>,
    out: Response<B>,
) -> bool {
    &&& out.status == Some(Status { code: 201 })
    &&& match inner {
        Some(response) => {
            &&& out.header_views() == created_headers(location, tag, response.header_views())
            &&& out.body == response.body
        },
        None => {
            &&& out.header_views() == created_headers(location, tag, Seq::<HeaderView>::empty())
            &&& out.body is None
        },
    }
}

/// Merging into a response without headers gives the headers merged in.
proof fn lemma_merged_into_empty(theirs: Seq<HeaderView>)
    ensures
        merged(Seq::<HeaderView>::empty(), theirs) == theirs,
{
    reveal(Seq::filter);
    assert(Seq::<HeaderView>::empty().filter(|h: HeaderView| !has_name(theirs, h.0))
        =~= Seq::<HeaderView>::empty());
    assert(Seq::<HeaderView>::empty() + theirs =~= theirs);
}

fn etag_header(tag: u64) -> (h: Header)
    ensures
        h@ == (etag_name(), etag_value(tag)),
{
    let mut name: Vec<u8> = Vec::new();
    name.push(69);
    name.push(84);
    name.push(97);
    name.push(103);
    assert(name@ =~= etag_name());
    let mut value: Vec<u8> = Vec::new();
    value.push(34);
    let mut digits = to_decimal(tag);
    value.append(&mut digits);
    value.push(34);
    assert(value@ =~= etag_value(tag));
    Header::from_bytes(name, value)
}

fn location_header(location: Vec<u8>) -> (h: Header)
    ensures
        h@ == (location_name(), location@),
{
    let mut name: Vec<u8> = Vec::new();
    name.push(76);
    name.push(111);
    name.push(99);
    name.push(97);
    name.push(116);
    name.push(105);
    name.push(111);
    name.push(110);
    assert(name@ =~= location_name());
    Header::from_bytes(name, location)
}

/// The response of a responder that wraps another and sets a status: what
/// the wrapped responder gave, or an empty response where there is none, with
/// the status `status`.
pub fn with_status<B>(inner: Option<Response<B>>, status: Status) -> (out: Response<B>)
    ensures
        out.status == Some(status),
        match inner {
            Some(response) => out.header_views() == response.header_views() && out.body
                == response.body,
            None => out.header_views() == Seq::<HeaderView>::empty() && out.body is None,
        },
{
    let mut out: Response<B> = Response::new();
    if let Some(response) = inner {
        proof {
            lemma_merged_into_empty(response.header_views());
        }
        out.merge(response);
    }
    out.set_status(status);
    out
}

/// Sets the status of the response to 201 (Created).
///
/// Sets the `Location` header and optionally the `ETag` header in the
/// response. The body of the response, which identifies the created resource,
/// can be set via the builder methods [`Created::body()`] and
/// [`Created::tagged_body()`]. While both builder methods set the responder,
/// [`Created::tagged_body()`] additionally computes a hash for the responder
/// which is used as the value of the `ETag` header when responding.
#[derive(Debug, Clone, PartialEq)]
pub struct Created<R>(Vec<u8>, Option<R>, Option<u64>);

impl<R> Created<R> {
    /// The address of the created resource.
    pub closed spec fn location(&self) -> Seq<u8> {
        self.0@
    }

    /// The responder that writes the body, if one was given.
    pub closed spec fn responder(&self) -> Option<R> {
        self.1
    }

    /// The hash that goes into the `ETag` header, if one was computed.
    pub closed spec fn tag(&self) -> Option<u64> {
        self.2
    }

    /// Constructs a `Created` response with a `location` and no body.
    pub fn new(location: &str) -> (created: Self)
        ensures
            created.location() == location.spec_bytes(),
            created.responder() is None,
            created.tag() is None,
    {
        Created(vstd::slice::slice_to_vec(location.as_bytes()), None, None)
    }

    /// Adds `responder` as the body of `self`.
    ///
    /// Unlike [`tagged_body()`](self::Created::tagged_body()), this method
    /// _does not_ result in an `ETag` header being set in the response.
    pub fn body(self, responder: R) -> (created: Self)
        ensures
            created.location() == self.location(),
            created.responder() == Some(responder),
            created.tag() == self.tag(),
    {
        let mut created = self;
        created.1 = Some(responder);
        created
    }

    /// Adds `responder` as the body of `self`, with `tag` as its hash.
    pub fn body_with_tag(self, responder: R, tag: u64) -> (created: Self)
        ensures
            created.location() == self.location(),
            created.responder() == Some(responder),
            created.tag() == Some(tag),
    {
        let mut created = self;
        created.1 = Some(responder);
        created.2 = Some(tag);
        created
    }

    /// Adds `responder` as the body of `self`. Computes a hash of the
    /// `responder` to be used as the value of the `ETag` header.
    pub fn tagged_body(self, responder: R) -> (created: Self) where R: Hash
        ensures
            created.location() == self.location(),
            created.responder() == Some(responder),
            created.tag() is Some,
    {
        let mut hasher = DefaultHasher::new();
        feed(&responder, &mut hasher);
        let hash = hasher.finish();
        self.body_with_tag(responder, hash)
    }

    /// Takes this apart into the location, the wrapped responder and the tag.
    pub fn into_parts(self) -> (parts: (Vec<u8>, Option<R>, Option<u64>))
        ensures
            parts.0@ == self.location(),
            parts.1 == self.responder(),
            parts.2 == self.tag(),
    {
        let Created(location, responder, tag) = self;
        (location, responder, tag)
    }

    /// The response for a created resource at `location`, given what the
    /// wrapped responder answered, if there is one: its response, with the
    /// `ETag` set where there is a tag, the `Location` set, and the status
    /// 201.
    pub fn finish<B>(location: Vec<u8>, tag: Option<u64>, inner: Option<Response<B>>) -> (out:
        Response<B>)
        ensures
            created_from(location@, tag, inner, out),
    {
        let mut out: Response<B> = Response::new();
        if let Some(response) = inner {
            proof {
                lemma_merged_into_empty(response.header_views());
            }
            out.merge(response);
        }
        if let Some(hash) = tag {
            out.set_header(etag_header(hash));
        }
        out.set_status(Status::created());
        out.set_header(location_header(location));
        out
    }
}

/// Sets the status code of the response to 201 Created. Sets the `Location`
/// header to the parameter in the [`Created::new()`] constructor.
///
/// The optional responder, set via [`Created::body()`] or
/// [`Created::tagged_body()`], finalizes the response if it exists. If no
/// responder is provided, the response body will be empty. The `ETag` header
/// is set if the responder was given via [`Created::tagged_body()`].
impl<Q, B, R: Responder<Q, B>> Responder<Q, B> for Created<R> {
    fn respond_to(self, req: &Q) -> (r: Result<Response<B>, Status>)
        ensures
            match self.responder() {
                None => r matches Ok(out) && created_from(self.location(), self.tag(), None, out),
                Some(responder) => exists|inner: Result<Response<B>, Status>|
                    #[trigger] call_ensures(R::respond_to, (responder, req), inner) && match inner {
                        Err(status) => r == Err::<Response<B>, Status>(status),
                        Ok(response) => r matches Ok(out) && created_from(
                            self.location(),
                            self.tag(),
                            Some(response),
                            out,
                        ),
                    },
            },
    {
        let (location, responder, tag) = self.into_parts();
        let inner = match responder {
            Some(responder) => match responder.respond_to(req) {
                Ok(response) => Some(response),
                Err(status) => {
                    return Err(status);
                },
            },
            None => None,
        };
        Ok(Self::finish(location, tag, inner))
    }
}

/// Sets the status of the response to 202 (Accepted).
///
/// If a responder is supplied, the remainder of the response is delegated to
/// it. If there is no responder, the body of the response will be empty.
#[derive(Debug, Clone, PartialEq)]
pub struct Accepted<R>(pub Option<R>);

/// Sets the status code of the response to 202 Accepted. If the responder is
/// `Some`, it is used to finalize the response.
impl<Q, B, R: Responder<Q, B>> Responder<Q, B> for Accepted<R> {
    fn respond_to(self, req: &Q) -> (r: Result<Response<B>, Status>)
        ensures
            wraps::<Q, B, R>(self.0, req, Status { code: 202 }, r),
    {
        respond_with(self.0, req, Status::accepted())
    }
}

/// Sets the status of the response to 400 (Bad Request).
///
/// If a responder is supplied, the remainder of the response is delegated to
/// it. If there is no responder, the body of the response will be empty.
#[derive(Debug, Clone, PartialEq)]
pub struct BadRequest<R>(pub Option<R>);

/// Sets the status code of the response to 400 Bad Request. If the responder
/// is `Some`, it is used to finalize the response.
impl<Q, B, R: Responder<Q, B>> Responder<Q, B> for BadRequest<R> {
    fn respond_to(self, req: &Q) -> (r: Result<Response<B>, Status>)
        ensures
            wraps::<Q, B, R>(self.0, req, Status { code: 400 }, r),
    {
        respond_with(self.0, req, Status::bad_request())
    }
}

/// Sets the status of the response to 404 (Not Found).
///
/// The remainder of the response is delegated to the wrapped `Responder`.
#[derive(Debug, Clone, PartialEq)]
pub struct NotFound<R>(pub R);

/// Sets the status code of the response to 404 Not Found.
impl<Q, B, R: Responder<Q, B>> Responder<Q, B> for NotFound<R> {
    fn respond_to(self, req: &Q) -> (r: Result<Response<B>, Status>)
        ensures
            wraps::<Q, B, R>(Some(self.0), req, Status { code: 404 }, r),
    {
        respond_with(Some(self.0), req, Status::not_found())
    }
}

/// Creates a response with the given status code and underlying responder.
#[derive(Debug, Clone, PartialEq)]
pub struct Custom<R>(pub Status, pub R);

/// Sets the status code of the response and then delegates the remainder of
/// the response to the wrapped responder.
impl<Q, B, R: Responder<Q, B>> Responder<Q, B> for Custom<R> {
    fn respond_to(self, req: &Q) -> (r: Result<Response<B>, Status>)
        ensures
            wraps::<Q, B, R>(Some(self.1), req, self.0, r),
    {
        respond_with(Some(self.1), req, self.0)
    }
}

/// Whether `r` is the answer of a wrapper that sets `status` on what
/// `responder` answers to `req`. Without a responder the answer is an empty
/// response with that status. With one, its failure is passed on, and its
/// response is passed on with the status replaced.
pub open spec fn wraps<Q, B, R: Responder<Q, B>>(
    responder: Option<R>,
    req: &Q,
    status: Status,
    r: Result<Response<B>, Status>,
) -> bool {
    match responder {
        None => r matches Ok(out) && out.status == Some(status) && out.header_views() == Seq::<
            HeaderView,
        >::empty() && out.body is None,
        Some(responder) => exists|inner: Result<Response<B>, Status>|
            #[trigger] call_ensures(R::respond_to, (responder, req), inner) && match inner {
                Err(failed) => r == Err::<Response<B>, Status>(failed),
                Ok(response) => r matches Ok(out) && out.status == Some(status)
                    && out.header_views() == response.header_views() && out.body == response.body,
            },
    }
}

/// Answers `req` with what `responder` answers, where there is one, and sets
/// `status` on the response.
pub fn respond_with<Q, B, R: Responder<Q, B>>(responder: Option<R>, req: &Q, status: Status) -> (r:
    Result<Response<B>, Status>)
    ensures
        wraps::<Q, B, R>(responder, req, status, r),
{
    let inner = match responder {
        Some(responder) => match responder.respond_to(req) {
            Ok(response) => Some(response),
            Err(failed) => {
                return Err(failed);
            },
        },
        None => None,
    };
    Ok(with_status(inner, status))
}

} // verus!
