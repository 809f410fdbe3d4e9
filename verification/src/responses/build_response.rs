//! The answers of the service, one function for each.

use crate::cfg::MavenConfig;
use crate::error::{ErrorView, RequestError};
use crate::responses::http_templates::{build_index, index_page};
use crate::responses::{BodyView, HttpBody, HttpResponse, ResponseView};
use crate::storage::layers::{Layer, LayerView};
use crate::text::{decimal_text, format_integer, segments, split_segments};
use crate::util::{mime_of, mime_type, simple_response, simple_response_fmt, simple_response_view};
use aws_sdk_s3::primitives::{DateTime, DateTimeFormat};
use vstd::prelude::*;

verus! {

/// The answers that report a failure.
pub struct ErrorResponseBuilder {}

/// The answers that report success.
pub struct ResponseBuilder {}

/// A point in time: whole seconds since the start of 1970, and the
/// nanoseconds into the second that follows.
#[derive(Debug, PartialEq, Eq, Clone, Copy)]
pub struct Timestamp {
    pub seconds: i64,
    pub subsecond_nanos: u32,
}

/// What the store says of an object without handing it out.
#[derive(Debug, PartialEq, Eq, Clone, Copy)]
pub struct ObjectHead {
    pub last_modified: Option<Timestamp>,
    pub content_length: Option<i64>,
}

/// An object as the store handed it out. `body` is `None` where its bytes
/// could not be read to the end.
#[derive(Debug, PartialEq, Eq)]
pub struct StoredObject {
    pub head: ObjectHead,
    pub body: Option<Vec<u8>>,
}

/// The date of an HTTP header for the given point in time, such as
/// `Mon, 16 Dec 2019 23:48:18 GMT`; `None` where the year lies outside 1 to
/// 9999.
pub uninterp spec fn http_date_text(seconds: int, subsecond_nanos: int) -> Option<Seq<char>>;

/// `DateTime::from_secs_and_nanos`, then `DateTime::fmt` with
/// `Format::HttpDate`: the point in time written as the date of an HTTP
/// header. The contract names the text `http_date_text`, and `None` stands
/// for the error that `fmt` gives on a date it cannot write. The constructor
/// does not take a thousand million nanoseconds or more.
#[verifier::external_body]
fn http_date(seconds: i64, subsecond_nanos: u32) -> (text: Option<String>)
    requires
        subsecond_nanos < 1_000_000_000,
    ensures
        match text {
            Some(s) => http_date_text(seconds as int, subsecond_nanos as int) == Some(s@),
            None => http_date_text(seconds as int, subsecond_nanos as int) is None,
        },
{
    DateTime::from_secs_and_nanos(seconds, subsecond_nanos).fmt(DateTimeFormat::HttpDate).ok()
}

/// The `Last-Modified` text for what the store said of an object's age;
/// `None` where it said nothing that can be written as a date.
pub open spec fn modified_text(stamp: Option<Timestamp>) -> Option<Seq<char>> {
    match stamp {
        Some(t) => if t.subsecond_nanos < 1_000_000_000 {
            http_date_text(t.seconds as int, t.subsecond_nanos as int)
        } else {
            None
        },
        None => None,
    }
}

/// The answer that `server_error` gives.
pub open spec fn server_error_view(message: Seq<char>) -> ResponseView {
    simple_response_view(500, message)
}

/// The answer for a storage failure outside an upload.
pub open spec fn storage_failure_view() -> ResponseView {
    server_error_view("Failed to read from storage. Contact the maven owner for details"@)
}

/// The answer that `invalid_request` gives.
pub open spec fn invalid_request_view() -> ResponseView {
    simple_response_view(400, "Invalid request."@)
}

/// The answer that `invalid_request_method` gives.
pub open spec fn invalid_request_method_view(http_method: Seq<char>) -> ResponseView {
    simple_response_view(400, "Method "@ + http_method + " not supported."@)
}

/// The answer that `no_index_allowed` gives.
pub open spec fn no_index_allowed_view() -> ResponseView {
    ResponseView {
        status: 405,
        headers: seq![("content-type"@, "text/html"@), ("Allow"@, ""@)],
        body: BodyView::Text("Indexing is not enabled for this repository."@),
    }
}

/// The answer that `no_content` gives.
pub open spec fn no_content_view() -> ResponseView {
    simple_response_view(404, "No content found."@)
}

/// The answer that `no_content_bytes` gives.
pub open spec fn no_content_bytes_view() -> ResponseView {
    ResponseView {
        status: 404,
        headers: seq![("content-type"@, "text/html"@)],
        body: BodyView::Empty,
    }
}

/// The answer that `no_auth` gives.
pub open spec fn no_auth_view() -> ResponseView {
    ResponseView {
        status: 401,
        headers: seq![
            ("content-type"@, "text/html"@),
            ("WWW-Authenticate"@, "Basic realm=\"Upload Artifact\""@),
        ],
        body: BodyView::Text("No authorization provided."@),
    }
}

/// The answer that `invalid_auth` gives.
pub open spec fn invalid_auth_view() -> ResponseView {
    simple_response_view(403, "Invalid authorization provided."@)
}

/// The answer that `invalid_content_length` gives.
pub open spec fn invalid_content_length_view() -> ResponseView {
    simple_response_view(411, "No content-length provided."@)
}

/// The answer that `too_large` gives.
pub open spec fn too_large_view(max_artifact_size: int) -> ResponseView {
    simple_response_view(413, "Artifact too large. Max size: "@ + decimal_text(max_artifact_size))
}

/// The answer to a request that failed with `error`, under a configuration
/// that takes artifacts of up to `max_artifact_size` bytes. Credentials that
/// cannot be read and credentials that are wrong get the same answer.
pub open spec fn error_view(error: ErrorView, max_artifact_size: int) -> ResponseView {
    match error {
        ErrorView::NotFound => no_content_view(),
        ErrorView::Unauthenticated => no_auth_view(),
        ErrorView::MalformedCredentials => invalid_auth_view(),
        ErrorView::InvalidCredentials => invalid_auth_view(),
        ErrorView::InvalidRequest => invalid_request_view(),
        ErrorView::MissingLength => invalid_content_length_view(),
        ErrorView::PayloadTooLarge => too_large_view(max_artifact_size),
        ErrorView::MethodNotSupported(method) => invalid_request_method_view(method),
        ErrorView::IndexingDisabled => no_index_allowed_view(),
        ErrorView::StorageFailure => storage_failure_view(),
    }
}

/// Every failure is answered with the status code of its kind.
pub proof fn lemma_error_status(error: ErrorView, max_artifact_size: int)
    ensures
        error_view(error, max_artifact_size).status == error.status(),
{
}

/// The answer that hands out, or describes, an object: `500` where the store
/// left out its age or its length, else `200` with the headers that describe
/// it.
pub open spec fn object_view(
    request_path: Seq<char>,
    last_modified: Option<Seq<char>>,
    content_length: Option<int>,
    body: BodyView,
) -> ResponseView {
    if last_modified is Some && content_length is Some {
        ResponseView {
            status: 200,
            headers: seq![
                ("content-type"@, mime_of(request_path)),
                ("Cache-Control"@, "public, max-age=259200"@),
                ("Last-Modified"@, last_modified->0),
                ("Content-Length"@, decimal_text(content_length->0)),
            ],
            body,
        }
    } else {
        storage_failure_view()
    }
}

/// The answer to a request for a listing that found `layer`.
pub open spec fn index_view(request_path: Seq<char>, layer: LayerView) -> ResponseView {
    ResponseView {
        status: 200,
        headers: seq![("content-type"@, "text/html"@), ("Cache-Control"@, "public, max-age=43200"@)],
        body: BodyView::Text(index_page(segments(request_path), layer)),
    }
}

/// The answer that `uploaded_artifact` gives.
pub open spec fn uploaded_artifact_view() -> ResponseView {
    ResponseView { status: 201, headers: Seq::empty(), body: BodyView::Empty }
}

/// The length as the views have it.
pub open spec fn length_view(content_length: Option<i64>) -> Option<int> {
    match content_length {
        Some(n) => Some(n as int),
        None => None,
    }
}

/// The text as the views have it.
pub open spec fn text_view(text: Option<String>) -> Option<Seq<char>> {
    match text {
        Some(s) => Some(s@),
        None => None,
    }
}

impl ErrorResponseBuilder {
    /// The answer to a request that failed with `error`.
    pub fn answer(error: &RequestError, maven_config: &MavenConfig) -> (response: HttpResponse)
        ensures
            response@ == error_view(error@, maven_config.max_artifact_size as int),
    {
        match error {
            RequestError::NotFound => ErrorResponseBuilder::no_content(),
            RequestError::Unauthenticated => ErrorResponseBuilder::no_auth(),
            RequestError::MalformedCredentials => ErrorResponseBuilder::invalid_auth(),
            RequestError::InvalidCredentials => ErrorResponseBuilder::invalid_auth(),
            RequestError::InvalidRequest => ErrorResponseBuilder::invalid_request(),
            RequestError::MissingLength => ErrorResponseBuilder::invalid_content_length(),
            RequestError::PayloadTooLarge => ErrorResponseBuilder::too_large(maven_config),
            RequestError::MethodNotSupported(method) => ErrorResponseBuilder::invalid_request_method(
                method.as_str(),
            ),
            RequestError::IndexingDisabled => ErrorResponseBuilder::no_index_allowed(),
            RequestError::StorageFailure => ErrorResponseBuilder::storage_failure(),
        }
    }

    /// `500`, with a message for the client.
    pub fn server_error(message: &str) -> (response: HttpResponse)
        ensures
            response@ == server_error_view(message@),
    {
        simple_response(500, message)
    }

    /// `500`, for an answer of the store that cannot be used.
    pub fn storage_failure() -> (response: HttpResponse)
        ensures
            response@ == storage_failure_view(),
    {
        simple_response(500, "Failed to read from storage. Contact the maven owner for details")
    }

    /// `400`, for a request that cannot be served as it stands.
    pub fn invalid_request() -> (response: HttpResponse)
        ensures
            response@ == invalid_request_view(),
    {
        simple_response(400, "Invalid request.")
    }

    /// `400`, naming the method that is not served.
    pub fn invalid_request_method(http_method: &str) -> (response: HttpResponse)
        ensures
            response@ == invalid_request_method_view(http_method@),
    {
        let mut message = "Method ".to_owned();
        message.append(http_method);
        message.append(" not supported.");
        simple_response_fmt(400, message)
    }

    /// `405`, for a listing where listings are switched off.
    pub fn no_index_allowed() -> (response: HttpResponse)
        ensures
            response@ == no_index_allowed_view(),
    {
        let response = HttpResponse::new(
            405,
            HttpBody::Text("Indexing is not enabled for this repository.".to_owned()),
        ).header("content-type", "text/html").header("Allow", "");
        assert(response@.headers =~= no_index_allowed_view().headers);
        response
    }

    /// `404`, in words.
    pub fn no_content() -> (response: HttpResponse)
        ensures
            response@ == no_content_view(),
    {
        simple_response(404, "No content found.")
    }

    /// `404`, without a body.
    pub fn no_content_bytes() -> (response: HttpResponse)
        ensures
            response@ == no_content_bytes_view(),
    {
        let response = HttpResponse::new(404, HttpBody::Empty).header("content-type", "text/html");
        response
    }

    /// `401`, asking for credentials.
    pub fn no_auth() -> (response: HttpResponse)
        ensures
            response@ == no_auth_view(),
    {
        let response = HttpResponse::new(
            401,
            HttpBody::Text("No authorization provided.".to_owned()),
        ).header("content-type", "text/html").header(
            "WWW-Authenticate",
            "Basic realm=\"Upload Artifact\"",
        );
        assert(response@.headers =~= no_auth_view().headers);
        response
    }

    /// `403`, for credentials that cannot be read or are not the right ones.
    /// The answer does not tell the two apart.
    pub fn invalid_auth() -> (response: HttpResponse)
        ensures
            response@ == invalid_auth_view(),
    {
        simple_response(403, "Invalid authorization provided.")
    }

    /// `411`, for an upload that does not say how long it is.
    pub fn invalid_content_length() -> (response: HttpResponse)
        ensures
            response@ == invalid_content_length_view(),
    {
        simple_response(411, "No content-length provided.")
    }

    /// `413`, naming the largest size that is taken.
    pub fn too_large(maven_config: &MavenConfig) -> (response: HttpResponse)
        ensures
            response@ == too_large_view(maven_config.max_artifact_size as int),
    {
        let mut message = "Artifact too large. Max size: ".to_owned();
        let size = format_integer(maven_config.max_artifact_size);
        message.append(size.as_str());
        simple_response_fmt(413, message)
    }
}

impl ResponseBuilder {
    /// The date of the `Last-Modified` header, where the store gave one
    /// that can be written.
    fn last_modified(stamp: Option<Timestamp>) -> (text: Option<String>)
        ensures
            text_view(text) == modified_text(stamp),
    {
        match stamp {
            Some(t) => if t.subsecond_nanos < 1_000_000_000 {
                http_date(t.seconds, t.subsecond_nanos)
            } else {
                None
            },
            None => None,
        }
    }

    /// The answer that hands out, or describes, the object at
    /// `request_path`, given the text of its date, its length and the body
    /// to send.
    pub fn object(
        request_path: &str,
        last_modified: Option<String>,
        content_length: Option<i64>,
        body: HttpBody,
    ) -> (response: HttpResponse)
        ensures
            response@ == object_view(
                request_path@,
                text_view(last_modified),
                length_view(content_length),
                body@,
            ),
    {
        match (last_modified, content_length) {
            (Some(date), Some(length)) => {
                let content_type = mime_type(request_path);
                let length_text = format_integer(length);
                let response = HttpResponse::new(200, body).header(
                    "content-type",
                    content_type.as_str(),
                ).header("Cache-Control", "public, max-age=259200").header(
                    "Last-Modified",
                    date.as_str(),
                ).header("Content-Length", length_text.as_str());
                assert(response@.headers =~= object_view(
                    request_path@,
                    Some(date@),
                    Some(length as int),
                    body@,
                ).headers);
                response
            },
            _ => ErrorResponseBuilder::storage_failure(),
        }
    }

    /// The answer to `HEAD`: the headers of the object at `request_path`, or
    /// `404` where the store has none.
    pub fn resource_head(request_path: &str, head: Option<ObjectHead>) -> (response: HttpResponse)
        ensures
            response@ == match head {
                Some(h) => object_view(
                    request_path@,
                    modified_text(h.last_modified),
                    length_view(h.content_length),
                    BodyView::Empty,
                ),
                None => no_content_view(),
            },
    {
        match head {
            None => ErrorResponseBuilder::no_content(),
            Some(data) => {
                let date = ResponseBuilder::last_modified(data.last_modified);
                ResponseBuilder::object(request_path, date, data.content_length, HttpBody::Empty)
            },
        }
    }

    /// The answer to `GET` for a file: the object at `request_path` with its
    /// headers, or `404` where the store has none.
    pub fn resource(request_path: &str, resource: Option<StoredObject>) -> (response: HttpResponse)
        ensures
            response@ == match resource {
                Some(data) => match data.body {
                    Some(bytes) => object_view(
                        request_path@,
                        modified_text(data.head.last_modified),
                        length_view(data.head.content_length),
                        BodyView::Binary(bytes@),
                    ),
                    None => storage_failure_view(),
                },
                None => no_content_bytes_view(),
            },
    {
        match resource {
            None => ErrorResponseBuilder::no_content_bytes(),
            Some(data) => match data.body {
                None => ErrorResponseBuilder::storage_failure(),
                Some(bytes) => {
                    let date = ResponseBuilder::last_modified(data.head.last_modified);
                    ResponseBuilder::object(
                        request_path,
                        date,
                        data.head.content_length,
                        HttpBody::Binary(bytes),
                    )
                },
            },
        }
    }

    /// The answer to `GET` for a directory: the page that lists `layer`, or
    /// `404` where nothing is known under `request_path`.
    pub fn index(request_path: &str, layer: Option<&Layer>) -> (response: HttpResponse)
        ensures
            response@ == match layer {
                Some(found) => index_view(request_path@, found@),
                None => no_content_view(),
            },
    {
        match layer {
            None => ErrorResponseBuilder::no_content(),
            Some(found) => {
                let ids = split_segments(request_path);
                let page = build_index(&ids, found);
                let response = HttpResponse::new(200, HttpBody::Text(page)).header(
                    "content-type",
                    "text/html",
                ).header("Cache-Control", "public, max-age=43200");
                assert(response@.headers =~= index_view(request_path@, found@).headers);
                response
            },
        }
    }

    /// `201`, for an artifact that was stored.
    pub fn uploaded_artifact() -> (response: HttpResponse)
        ensures
            response@ == uploaded_artifact_view(),
    {
        HttpResponse::new(201, HttpBody::Empty)
    }
}

} // verus!
