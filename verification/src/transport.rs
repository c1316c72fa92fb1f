//! What the HTTP transport accepts as a response head.
//!
//! The transport is `hyper`. Whether it takes a status code, a header name or a
//! header value is decided by its own constructors; this module calls them,
//! says what they accept, and reports the first part of a head that one of
//! them turns down.

use vstd::prelude::*;
use hyper::header::{HeaderName, HeaderValue, InvalidHeaderName, InvalidHeaderValue};
use hyper::http::status::InvalidStatusCode;
use hyper::StatusCode;
use crate::response::{views, Header, HeaderView};

verus! {

/// `hyper::StatusCode`, a status code that the transport has accepted.
#[verifier::external_type_specification]
#[verifier::external_body]
pub struct ExStatusCode(StatusCode);

/// `hyper::http::status::InvalidStatusCode`, the transport's refusal of a
/// status code.
#[verifier::external_type_specification]
#[verifier::external_body]
pub struct ExInvalidStatusCode(InvalidStatusCode);

/// `hyper::header::HeaderName`, a header name that the transport has accepted.
#[verifier::external_type_specification]
#[verifier::external_body]
pub struct ExHeaderName(HeaderName);

/// `hyper::header::InvalidHeaderName`, the transport's refusal of a header
/// name.
#[verifier::external_type_specification]
#[verifier::external_body]
pub struct ExInvalidHeaderName(InvalidHeaderName);

/// `hyper::header::HeaderValue`, a header value that the transport has
/// accepted.
#[verifier::external_type_specification]
#[verifier::external_body]
pub struct ExHeaderValue(HeaderValue);

/// `hyper::header::InvalidHeaderValue`, the transport's refusal of a header
/// value.
#[verifier::external_type_specification]
#[verifier::external_body]
pub struct ExInvalidHeaderValue(InvalidHeaderValue);

/// The longest header name the transport accepts, in bytes.
pub const MAX_HEADER_NAME_LEN: usize = 65535;

/// The bytes a header name may hold: the letters, the digits, and
/// `` ! " # $ % & ' * + - . ^ _ ` | ~ ``.
pub open spec fn name_byte_accepted(b: u8) -> bool {
    ||| 33 <= b <= 39
    ||| b == 42
    ||| b == 43
    ||| b == 45
    ||| b == 46
    ||| 48 <= b <= 57
    ||| 65 <= b <= 90
    ||| 94 <= b <= 122
    ||| b == 124
    ||| b == 126
}

/// The header names the transport accepts: those that are not empty, not
/// longer than [`MAX_HEADER_NAME_LEN`] and made of accepted bytes.
pub open spec fn header_name_accepted(name: Seq<u8>) -> bool {
    &&& 1 <= name.len() <= MAX_HEADER_NAME_LEN
    &&& forall|i: int| 0 <= i < name.len() ==> name_byte_accepted(#[trigger] name[i])
}

/// The status codes the transport accepts: those of three digits.
pub open spec fn status_accepted(code: u16) -> bool {
    100 <= code < 1000
}

/// The bytes a header value may hold: a tab, or anything from the space
/// upwards but the delete character.
pub open spec fn value_byte_accepted(b: u8) -> bool {
    (b >= 32 && b != 127) || b == 9
}

/// The header values the transport accepts: those made of accepted bytes.
pub open spec fn header_value_accepted(value: Seq<u8>) -> bool {
    forall|i: int| 0 <= i < value.len() ==> value_byte_accepted(#[trigger] value[i])
}

/// `hyper::StatusCode::from_u16` succeeds exactly on the codes from 100 to
/// 999.
pub assume_specification[ StatusCode::from_u16 ](src: u16) -> (r: Result<
    StatusCode,
    InvalidStatusCode,
>)
    ensures
        r is Ok <==> status_accepted(src),
;

/// `hyper::header::HeaderName::from_bytes` succeeds exactly on the names of
/// 1 to 65535 bytes all of whose bytes are accepted: those that its table of
/// header characters does not map to zero.
pub assume_specification[ HeaderName::from_bytes ](src: &[u8]) -> (r: Result<
    HeaderName,
    InvalidHeaderName,
>)
    ensures
        r is Ok <==> header_name_accepted(src@),
;

/// `hyper::header::HeaderValue::from_bytes` succeeds exactly on the values
/// all of whose bytes are accepted.
pub assume_specification[ HeaderValue::from_bytes ](src: &[u8]) -> (r: Result<
    HeaderValue,
    InvalidHeaderValue,
>)
    ensures
        r is Ok <==> header_value_accepted(src@),
;

/// Why a response could not be handed to the transport.
#[derive(Clone, Copy, Debug, PartialEq, Eq, Structural)]
pub enum EncodeError {
    /// The status code is not one the transport accepts.
    InvalidStatus,
    /// The name of the header at this position was refused.
    InvalidHeaderName(usize),
    /// The value of the header at this position was refused.
    InvalidHeaderValue(usize),
    /// The chunk size of the body does not fit the transport's size type.
    ChunkSizeOverflow,
}

/// Whether the transport accepts both parts of a header.
pub open spec fn header_accepted(header: HeaderView) -> bool {
    header_name_accepted(header.0) && header_value_accepted(header.1)
}

/// Whether the transport accepts every header of a list.
pub open spec fn headers_accepted(headers: Seq<HeaderView>) -> bool {
    forall|i: int| 0 <= i < headers.len() ==> header_accepted(#[trigger] headers[i])
}

/// The first thing the transport refuses in a head, if it refuses anything:
/// the status is looked at first, then the headers in order, the name of each
/// before its value.
pub open spec fn head_error(status: u16, headers: Seq<HeaderView>) -> Option<EncodeError> {
    if !status_accepted(status) {
        Some(EncodeError::InvalidStatus)
    } else if headers_accepted(headers) {
        None
    } else {
        let i = first_refused(headers);
        if !header_name_accepted(headers[i].0) {
            Some(EncodeError::InvalidHeaderName(i as usize))
        } else {
            Some(EncodeError::InvalidHeaderValue(i as usize))
        }
    }
}

/// The position of the first header that the transport refuses; the length of
/// the list where it refuses none.
pub open spec fn first_refused(headers: Seq<HeaderView>) -> int
    decreases headers.len(),
{
    if headers.len() == 0 {
        0
    } else if !header_accepted(headers.first()) {
        0
    } else {
        1 + first_refused(headers.drop_first())
    }
}

/// `first_refused` is the least position of a refused header.
pub proof fn lemma_first_refused(headers: Seq<HeaderView>)
    ensures
        0 <= first_refused(headers) <= headers.len(),
        forall|j: int| 0 <= j < first_refused(headers) ==> header_accepted(#[trigger] headers[j]),
        first_refused(headers) < headers.len() ==> !header_accepted(
            headers[first_refused(headers)],
        ),
        first_refused(headers) == headers.len() <==> headers_accepted(headers),
    decreases headers.len(),
{
    if headers.len() > 0 && header_accepted(headers.first()) {
        let rest = headers.drop_first();
        lemma_first_refused(rest);
        assert forall|j: int| 0 <= j < first_refused(headers) implies header_accepted(
            #[trigger] headers[j],
        ) by {
            if j > 0 {
                assert(headers[j] == rest[j - 1]);
            }
        }
        assert(first_refused(headers) < headers.len() ==> headers[first_refused(headers)]
            == rest[first_refused(rest)]);
        if headers_accepted(headers) {
            assert forall|j: int| 0 <= j < rest.len() implies header_accepted(
                #[trigger] rest[j],
            ) by {
                assert(rest[j] == headers[j + 1]);
            }
        }
    }
}

/// A position before which every header is accepted, and whose own header is
/// refused, is the position of the first refused header.
proof fn lemma_first_refused_is(headers: Seq<HeaderView>, i: int)
    requires
        0 <= i < headers.len(),
        forall|j: int| 0 <= j < i ==> header_accepted(#[trigger] headers[j]),
        !header_accepted(headers[i]),
    ensures
        first_refused(headers) == i,
        !headers_accepted(headers),
{
    lemma_first_refused(headers);
    let f = first_refused(headers);
    if f < i {
        assert(header_accepted(headers[f]));
    }
    if f > i {
        assert(header_accepted(headers[i]));
    }
}

/// Whether the transport accepts this status code.
pub fn check_status(code: u16) -> (ok: bool)
    ensures
        ok == status_accepted(code),
{
    match StatusCode::from_u16(code) {
        Ok(_) => true,
        Err(_) => false,
    }
}

/// Whether the transport accepts this header name.
pub fn check_header_name(name: &Vec<u8>) -> (ok: bool)
    ensures
        ok == header_name_accepted(name@),
{
    match HeaderName::from_bytes(name.as_slice()) {
        Ok(_) => true,
        Err(_) => false,
    }
}

/// Whether the transport accepts this header value.
pub fn check_header_value(value: &Vec<u8>) -> (ok: bool)
    ensures
        ok == header_value_accepted(value@),
{
    match HeaderValue::from_bytes(value.as_slice()) {
        Ok(_) => true,
        Err(_) => false,
    }
}

/// Checks a response head against the transport and names the first part
/// that it refuses.
pub fn check_head(status: u16, headers: &Vec<Header>) -> (r: Result<(), EncodeError>)
    ensures
        match head_error(status, views(headers@)) {
            Some(e) => r == Err::<(), EncodeError>(e),
            None => r is Ok,
        },
{
    if !check_status(status) {
        return Err(EncodeError::InvalidStatus);
    }
    let mut i: usize = 0;
    while i < headers.len()
        invariant
            i <= headers.len(),
            status_accepted(status),
            forall|j: int| 0 <= j < i ==> header_accepted(#[trigger] views(headers@)[j]),
        decreases headers.len() - i,
    {
        if !check_header_name(&headers[i].name) {
            proof {
                lemma_first_refused_is(views(headers@), i as int);
            }
            return Err(EncodeError::InvalidHeaderName(i));
        }
        if !check_header_value(&headers[i].value) {
            proof {
                lemma_first_refused_is(views(headers@), i as int);
            }
            return Err(EncodeError::InvalidHeaderValue(i));
        }
        i += 1;
    }
    Ok(())
}

} // verus!
