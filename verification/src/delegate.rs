//! The per-request authorization decision.
//!
//! A strictly linear pipeline: locate the cookie, have the remote authority
//! validate the matched pair, then derive the identity from the token's
//! subject. Every failure is terminal and maps to one fixed status code; no
//! stage runs after a rejection, and nothing is retried or cached.
//!
//! The single outbound call sits between [`locate_credential`] and
//! [`conclude_auth`]: the hosting server forwards the matched segment to the
//! configured endpoint and reports what came back as a [`RemoteEvent`].

use vstd::prelude::*;
use crate::claims::{derive_identity, jwt_subject_of, result_view, spec_derive};
use crate::cookie::{check_header_text, is_header_text, locate_cookie, spec_locate};
use crate::identity::FromJwtSubject;
use crate::status::{
    STATUS_BAD_GATEWAY, STATUS_BAD_REQUEST, STATUS_FORBIDDEN, STATUS_OK, STATUS_UNAUTHORIZED,
};

verus! {

/// What the outbound validation call produced: a reachable response with its
/// status, or a transport failure (refused connection, timeout, failed name
/// lookup) that never yielded a status.
#[derive(Debug, Clone, PartialEq, Eq, Structural)]
pub enum RemoteEvent {
    Response { status: u16 },
    TransportFailure,
}

/// The authority accepts exactly on a `200` response.
pub open spec fn spec_verdict(status: u16) -> bool {
    status == STATUS_OK
}

pub fn remote_accepts(status: u16) -> (r: bool)
    ensures
        r == spec_verdict(status),
{
    status == STATUS_OK
}

/// The immutable per-instance configuration: which cookie carries the
/// credential. The name must not be empty; the validation endpoint is held
/// by the hosting server's client alongside this.
pub struct AuthConfig {
    cookie_name: Vec<u8>,
}

impl AuthConfig {
    pub closed spec fn name_view(&self) -> Seq<u8> {
        self.cookie_name@
    }

    /// Rejects an empty cookie name: a misconfiguration surfaced before any
    /// request is served.
    pub fn new(cookie_name: Vec<u8>) -> (r: Option<AuthConfig>)
        ensures
            cookie_name@.len() == 0 <==> r is None,
            r matches Some(c) ==> c.name_view() == cookie_name@ && c.name_view().len() > 0,
    {
        if cookie_name.len() == 0 {
            None
        } else {
            Some(AuthConfig { cookie_name })
        }
    }
}

/// What the locate stage found.
pub enum Located {
    /// No usable credential; the status the rejection response carries.
    Reject { status: u16 },
    /// The matched `name=value` segment, to be forwarded verbatim, and its
    /// value portion, the token for claim extraction.
    Found { segment: Vec<u8>, token: Vec<u8> },
}

pub enum LocatedView {
    Reject(u16),
    Found(Seq<u8>, Seq<u8>),
}

impl View for Located {
    type V = LocatedView;

    open spec fn view(&self) -> LocatedView {
        match self {
            Located::Reject { status } => LocatedView::Reject(*status),
            Located::Found { segment, token } => LocatedView::Found(segment@, token@),
        }
    }
}

pub open spec fn header_view(header: Option<&Vec<u8>>) -> Option<Seq<u8>> {
    match header {
        None => None,
        Some(h) => Some(h@),
    }
}

/// The locate stage: a missing header or an absent pair is `401`, a header
/// that does not convert to text is `400`, and the first matching pair wins.
pub open spec fn spec_locate_outcome(name: Seq<u8>, header: Option<Seq<u8>>) -> LocatedView {
    match header {
        None => LocatedView::Reject(STATUS_UNAUTHORIZED),
        Some(h) => if !is_header_text(h) {
            LocatedView::Reject(STATUS_BAD_REQUEST)
        } else {
            match spec_locate(h, name, 0) {
                None => LocatedView::Reject(STATUS_UNAUTHORIZED),
                Some(pair) => LocatedView::Found(pair.0, pair.1),
            }
        },
    }
}

/// Stage one of the pipeline, run on the raw bytes of the request's `Cookie`
/// header (absent when the request carried none).
pub fn locate_credential(config: &AuthConfig, header: Option<&Vec<u8>>) -> (r: Located)
    ensures
        r@ == spec_locate_outcome(config.name_view(), header_view(header)),
{
    match header {
        None => Located::Reject { status: STATUS_UNAUTHORIZED },
        Some(h) => {
            if !check_header_text(h) {
                Located::Reject { status: STATUS_BAD_REQUEST }
            } else {
                match locate_cookie(h, &config.cookie_name) {
                    None => Located::Reject { status: STATUS_UNAUTHORIZED },
                    Some((segment, token)) => Located::Found { segment, token },
                }
            }
        },
    }
}

/// Stages two and three on a found credential: a transport failure is `502`,
/// a non-`200` response is `403` whatever the token holds, and only a `200`
/// reaches claim extraction and identity mapping.
pub open spec fn spec_conclude<U: FromJwtSubject>(
    event: RemoteEvent,
    parsed: Option<Option<Seq<char>>>,
) -> Result<U::V, u16> {
    match event {
        RemoteEvent::TransportFailure => Err(STATUS_BAD_GATEWAY),
        RemoteEvent::Response { status } => if !spec_verdict(status) {
            Err(STATUS_FORBIDDEN)
        } else {
            spec_derive::<U>(parsed)
        },
    }
}

/// Stages two and three of the pipeline, run once the hosting server has
/// called the remote authority with the matched segment.
pub fn conclude_auth<U: FromJwtSubject>(event: &RemoteEvent, token: &Vec<u8>) -> (r: Result<
    U,
    u16,
>)
    ensures
        result_view(r) == spec_conclude::<U>(*event, jwt_subject_of(token@)),
{
    match event {
        RemoteEvent::TransportFailure => Err(STATUS_BAD_GATEWAY),
        RemoteEvent::Response { status } => {
            if !remote_accepts(*status) {
                Err(STATUS_FORBIDDEN)
            } else {
                derive_identity(token)
            }
        },
    }
}

/// The whole decision as a function of the configured name, the request's
/// cookie header, and what the authority answered for the matched segment.
pub open spec fn spec_outcome<U: FromJwtSubject>(
    name: Seq<u8>,
    header: Option<Seq<u8>>,
    event: RemoteEvent,
) -> Result<U::V, u16> {
    match spec_locate_outcome(name, header) {
        LocatedView::Reject(status) => Err(status),
        LocatedView::Found(segment, token) => spec_conclude::<U>(event, jwt_subject_of(token)),
    }
}

/// Law: whenever the locate stage finds a credential, the segment handed on
/// for the outbound validation call is exactly the configured name, an equals
/// sign, and the token — only that pair, nothing else of the header.
pub proof fn lemma_forwarded_pair_exact(name: Seq<u8>, header: Option<Seq<u8>>)
    ensures
        spec_locate_outcome(name, header) matches LocatedView::Found(segment, token)
            ==> segment == name + seq![crate::cookie::EQUALS_SIGN] + token,
{
    match header {
        Some(h) => {
            if is_header_text(h) {
                crate::cookie::lemma_matched_segment_shape(h, name, 0);
            }
        },
        None => {},
    }
}

/// Law: a found segment and token convert to text like the header they came
/// from; the hosting server can attach the segment as a header value of the
/// outbound call without alteration.
pub proof fn lemma_forwarded_segment_is_header_text(name: Seq<u8>, header: Option<Seq<u8>>)
    ensures
        spec_locate_outcome(name, header) matches LocatedView::Found(segment, token)
            ==> is_header_text(segment) && is_header_text(token),
{
    match header {
        Some(h) => {
            if is_header_text(h) {
                crate::cookie::lemma_matched_segment_is_header_text(h, name, 0);
            }
        },
        None => {},
    }
}

/// Law: a header that carries the configured name with a syntactically valid
/// value — one pair, the name free of `=` and `;`, the value free of `;` —
/// always reaches the validation stage, with that value as the token.
pub proof fn lemma_valid_pair_reaches_validation(name: Seq<u8>, value: Seq<u8>)
    requires
        is_header_text(name + seq![crate::cookie::EQUALS_SIGN] + value),
        forall|i: int| 0 <= i < name.len() ==> name[i] != crate::cookie::EQUALS_SIGN && name[i] != crate::cookie::SEMICOLON,
        forall|i: int| 0 <= i < value.len() ==> value[i] != crate::cookie::SEMICOLON,
    ensures
        spec_locate_outcome(name, Some(name + seq![crate::cookie::EQUALS_SIGN] + value)) == LocatedView::Found(
            name + seq![crate::cookie::EQUALS_SIGN] + value,
            value,
        ),
{
    crate::cookie::lemma_single_pair_found(name, value);
}

/// Law: a request without a `Cookie` header is rejected with exactly `401`,
/// whatever the authority would have answered.
pub proof fn lemma_missing_header_unauthorized<U: FromJwtSubject>(
    name: Seq<u8>,
    event: RemoteEvent,
)
    ensures
        spec_outcome::<U>(name, None, event) == Err::<U::V, u16>(STATUS_UNAUTHORIZED),
{
}

/// Law: a reachable non-`200` answer is rejected with exactly `403`, whatever
/// the token decodes to.
pub proof fn lemma_reject_verdict_forbidden<U: FromJwtSubject>(
    status: u16,
    parsed: Option<Option<Seq<char>>>,
)
    requires
        status != STATUS_OK,
    ensures
        spec_conclude::<U>(RemoteEvent::Response { status }, parsed) == Err::<U::V, u16>(
            STATUS_FORBIDDEN,
        ),
{
}

/// Law: a transport failure is rejected with exactly `502`, whatever the
/// token decodes to.
pub proof fn lemma_transport_failure_bad_gateway<U: FromJwtSubject>(
    parsed: Option<Option<Seq<char>>>,
)
    ensures
        spec_conclude::<U>(RemoteEvent::TransportFailure, parsed) == Err::<U::V, u16>(
            STATUS_BAD_GATEWAY,
        ),
{
}

/// Law: an accepted credential whose token decodes without a subject claim
/// is rejected with exactly `400`, as is one whose token does not decode at
/// all: the derivation stage still runs after an accepting verdict.
pub proof fn lemma_accept_without_subject_bad_request<U: FromJwtSubject>()
    ensures
        spec_conclude::<U>(RemoteEvent::Response { status: STATUS_OK }, Some(None))
            == Err::<U::V, u16>(STATUS_BAD_REQUEST),
        spec_conclude::<U>(RemoteEvent::Response { status: STATUS_OK }, None) == Err::<
            U::V,
            u16,
        >(STATUS_BAD_REQUEST),
{
}

/// Law: under the numeric identity mapping, an accepted credential whose
/// subject does not spell a decimal `i32` is rejected with exactly `400`.
pub proof fn lemma_unmapped_subject_bad_request(sub: Seq<char>)
    requires
        crate::identity::spec_parse_i32(sub) is None,
    ensures
        spec_conclude::<crate::identity::UserId32>(
            RemoteEvent::Response { status: STATUS_OK },
            Some(Some(sub)),
        ) == Err::<int, u16>(STATUS_BAD_REQUEST),
{
}

/// Law: the outcome is a pure function of the configured name, the cookie
/// header, and the authority's answer. Repeating an identical request against
/// an unchanged authority yields the identical outcome: no state carries over
/// between requests.
pub proof fn lemma_outcome_idempotent<U: FromJwtSubject>(
    name: Seq<u8>,
    header: Option<Seq<u8>>,
    event: RemoteEvent,
    r1: Result<U::V, u16>,
    r2: Result<U::V, u16>,
)
    requires
        r1 == spec_outcome::<U>(name, header, event),
        r2 == spec_outcome::<U>(name, header, event),
    ensures
        r1 == r2,
{
}

} // verus!
