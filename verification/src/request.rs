//! What is decided on a request before the store is asked anything: what
//! kind of request it is, and whether an upload is let in.

use crate::cfg::{ConfigView, MavenConfig};
use crate::error::{ErrorView, RequestError};
use crate::responses::build_response::{error_view, ErrorResponseBuilder};
use crate::responses::{HttpResponse, ResponseView};
use crate::text::{
    chars_of, integer_of, last_position, lemma_last_position, lemma_last_position_is,
    parse_integer, range_equals, str_equal, Parsed,
};
use crate::util::{is_file_like, is_file_request, simple_response_view};
use data_encoding::{DecodeError, BASE64};
use vstd::prelude::*;

verus! {

/// The byte of `:`.
pub const COLON: u8 = 0x3a;

/// `data_encoding::DecodeError`, which says where and why a text is not in
/// the encoding.
#[verifier::external_type_specification]
#[verifier::external_body]
pub struct ExDecodeError(DecodeError);

/// The bytes that `input` stands for in padded base64, `None` where it is
/// not in that encoding.
pub uninterp spec fn base64_decoded(input: Seq<u8>) -> Option<Seq<u8>>;

/// `data_encoding::BASE64.decode`: the bytes that `input` encodes, or the
/// first error in it. The contract names the result `base64_decoded`. The
/// decoder does not take an input of more than an eighth of `usize::MAX`
/// bytes.
#[verifier::external_body]
fn base64_decode(input: &[u8]) -> (decoded: Result<Vec<u8>, DecodeError>)
    requires
        input@.len() <= usize::MAX / 8,
    ensures
        match decoded {
            Ok(bytes) => base64_decoded(input@) == Some(bytes@),
            Err(_) => base64_decoded(input@) is None,
        },
{
    BASE64.decode(input)
}

/// The kinds of request.
#[derive(Debug, PartialEq, Eq, Structural, Clone, Copy)]
pub enum RequestKind {
    /// A listing of a directory is asked for.
    Index,
    /// A file is asked for.
    Resource,
    /// The headers of a file are asked for.
    Head,
    /// A file is brought.
    Upload,
    /// The method is not served.
    Unsupported,
}

/// A request as it was classified.
#[derive(Debug, PartialEq, Eq)]
pub struct Classification {
    pub kind: RequestKind,
    pub path: String,
    pub method: String,
}

/// What of a request is looked at: its method, its path as it came, the
/// stage of the gateway where it has one, and the values of the headers
/// `Authorization` and `Content-Length` where they are there.
#[derive(Debug, Clone, Copy)]
pub struct RequestHead<'a> {
    pub method: &'a str,
    pub raw_path: &'a str,
    pub stage: Option<&'a str>,
    pub authorization: Option<&'a [u8]>,
    pub content_length: Option<&'a [u8]>,
}

/// What a request that is let through asks of the store.
#[derive(Debug, PartialEq, Eq)]
pub enum Route {
    /// The listing of the directory at this path.
    Index(String),
    /// The headers of the object at this path.
    Head(String),
    /// The object at this path.
    Resource(String),
    /// To keep the body of the request at this path.
    Upload(String),
}

/// What a `Route` holds.
pub enum RouteView {
    Index(Seq<char>),
    Head(Seq<char>),
    Resource(Seq<char>),
    Upload(Seq<char>),
}

impl View for Route {
    type V = RouteView;

    open spec fn view(&self) -> RouteView {
        match self {
            Route::Index(path) => RouteView::Index(path@),
            Route::Head(path) => RouteView::Head(path@),
            Route::Resource(path) => RouteView::Resource(path@),
            Route::Upload(path) => RouteView::Upload(path@),
        }
    }
}

/// What is to be done for a request.
#[derive(Debug, PartialEq, Eq)]
pub enum Action {
    /// Nothing is asked of the store: this is the answer.
    Respond(HttpResponse),
    /// The listing of the directory at this path is to be resolved.
    Index(String),
    /// The headers of the object at this path are to be fetched.
    Head(String),
    /// The object at this path is to be fetched.
    Resource(String),
    /// The body of the request is to be stored at this path.
    Upload(String),
}

/// What an `Action` holds.
pub enum ActionView {
    Respond(ResponseView),
    Index(Seq<char>),
    Head(Seq<char>),
    Resource(Seq<char>),
    Upload(Seq<char>),
}

impl View for Action {
    type V = ActionView;

    open spec fn view(&self) -> ActionView {
        match self {
            Action::Respond(response) => ActionView::Respond(response@),
            Action::Index(path) => ActionView::Index(path@),
            Action::Head(path) => ActionView::Head(path@),
            Action::Resource(path) => ActionView::Resource(path@),
            Action::Upload(path) => ActionView::Upload(path@),
        }
    }
}

/// The bytes of an optional header value.
pub open spec fn header_view(value: Option<&[u8]>) -> Option<Seq<u8>> {
    match value {
        Some(bytes) => Some(bytes@),
        None => None,
    }
}

/// The text of an optional string slice.
pub open spec fn stage_view(stage: Option<&str>) -> Option<Seq<char>> {
    match stage {
        Some(text) => Some(text@),
        None => None,
    }
}

/// `raw` without the separator that it starts with.
pub open spec fn without_leading_separator(raw: Seq<char>) -> Seq<char> {
    if raw.len() > 0 && raw[0] == '/' {
        raw.skip(1)
    } else {
        raw
    }
}

/// `path` without the stage and a `/` at its start, however often they
/// stand there.
pub open spec fn without_stage(path: Seq<char>, stage: Seq<char>) -> Seq<char>
    decreases path.len(),
{
    let prefix = stage.push('/');
    if path.len() >= prefix.len() && path.take(prefix.len() as int) == prefix {
        without_stage(path.skip(prefix.len() as int), stage)
    } else {
        path
    }
}

/// The path that a request asks for: the path as it came, without its
/// leading separator and without the stage of the gateway.
pub open spec fn path_of(raw: Seq<char>, stage: Option<Seq<char>>) -> Seq<char> {
    match stage {
        Some(name) => without_stage(without_leading_separator(raw), name),
        None => without_leading_separator(raw),
    }
}

/// The kind of a request with the given method for the given path. Only the
/// text of the path is looked at, never the store.
pub open spec fn kind_of(method: Seq<char>, path: Seq<char>) -> RequestKind {
    if method == "GET"@ && !is_file_like(path) {
        RequestKind::Index
    } else if method == "HEAD"@ {
        RequestKind::Head
    } else if method == "GET"@ {
        RequestKind::Resource
    } else if method == "PUT"@ {
        RequestKind::Upload
    } else {
        RequestKind::Unsupported
    }
}

/// The path that a request asks for.
pub fn request_path(raw_path: &str, stage: Option<&str>) -> (path: String)
    ensures
        path@ == path_of(raw_path@, stage_view(stage)),
{
    let chars = chars_of(raw_path);
    let n = chars.len();
    let mut pos: usize = if n > 0 && chars[0] == '/' {
        1
    } else {
        0
    };
    assert(chars@.skip(pos as int) == without_leading_separator(raw_path@));
    match stage {
        None => {},
        Some(name) => {
            let stage_chars = chars_of(name);
            let m = stage_chars.len();
            let ghost first = chars@.skip(pos as int);
            loop
                invariant
                    pos <= n,
                    n == chars@.len(),
                    m == stage_chars@.len(),
                    stage_chars@ == name@,
                    without_stage(first, name@) == without_stage(chars@.skip(pos as int), name@),
                ensures
                    pos <= n,
                    without_stage(first, name@) == chars@.skip(pos as int),
                decreases n - pos,
            {
                let ghost rest = chars@.skip(pos as int);
                let ghost prefix = name@.push('/');
                if n - pos <= m {
                    break ;
                }
                let mut j: usize = 0;
                while j < m && chars[pos + j] == stage_chars[j]
                    invariant
                        j <= m,
                        pos + m < n,
                        n == chars@.len(),
                        m == stage_chars@.len(),
                        forall|k: int| 0 <= k < j ==> chars@[pos + k] == stage_chars@[k],
                    decreases m - j,
                {
                    j += 1;
                }
                if j < m || chars[pos + m] != '/' {
                    assert(rest.take(prefix.len() as int) != prefix) by {
                        if j < m {
                            assert(rest.take(prefix.len() as int)[j as int] != prefix[j as int]);
                        } else {
                            assert(rest.take(prefix.len() as int)[m as int] != prefix[m as int]);
                        }
                    }
                    break ;
                }
                assert(rest.take(prefix.len() as int) =~= prefix);
                assert(rest.skip(prefix.len() as int) =~= chars@.skip(pos + m + 1));
                pos = pos + m + 1;
            }
        },
    }
    raw_path.substring_char(pos, n).to_owned()
}

/// The kind of a request with the given method for the given path.
pub fn request_kind(method: &str, path: &str) -> (kind: RequestKind)
    ensures
        kind == kind_of(method@, path@),
{
    let is_get = str_equal(method, "GET");
    if is_get && !is_file_request(path) {
        RequestKind::Index
    } else if str_equal(method, "HEAD") {
        RequestKind::Head
    } else if is_get {
        RequestKind::Resource
    } else if str_equal(method, "PUT") {
        RequestKind::Upload
    } else {
        RequestKind::Unsupported
    }
}

/// Classifies a request by its method and its path as it came: the path
/// loses its leading separator, and the kind is that of the method for the
/// path.
pub fn classify(method: &str, raw_path: &str) -> (classified: Classification)
    ensures
        classified.path@ == without_leading_separator(raw_path@),
        classified.method@ == method@,
        classified.kind == kind_of(method@, without_leading_separator(raw_path@)),
{
    let path = request_path(raw_path, None);
    let kind = request_kind(method, path.as_str());
    Classification { kind, path, method: method.to_owned() }
}

/// The bytes that the value of an `Authorization` header starts with where
/// it brings a name and a password.
pub open spec fn basic_scheme() -> Seq<u8> {
    vstd::utf8::encode_utf8("Basic "@)
}

/// The credentials that the value of an `Authorization` header carries:
/// what its text after `Basic ` stands for in base64. `None` where it does
/// not start so, where the rest is not base64, or where it is longer than
/// the decoder takes.
pub open spec fn credentials_of(header: Seq<u8>) -> Option<Seq<u8>> {
    let scheme = basic_scheme();
    if header.len() >= scheme.len() && header.subrange(0, scheme.len() as int) == scheme
        && header.len() - scheme.len() <= usize::MAX / 8 {
        base64_decoded(header.skip(scheme.len() as int))
    } else {
        None
    }
}

/// Whether `credentials` are those of the one account: its name, a `:`, and
/// its password. They are cut at their last `:`; without one they cannot be
/// read.
pub open spec fn credentials_checked(
    credentials: Seq<u8>,
    username: Seq<char>,
    password: Seq<char>,
) -> Result<(), ErrorView> {
    let colon = last_position(credentials, COLON);
    if colon < 0 {
        Err(ErrorView::MalformedCredentials)
    } else if credentials.take(colon) == vstd::utf8::encode_utf8(username) && credentials.skip(
        colon + 1,
    ) == vstd::utf8::encode_utf8(password) {
        Ok(())
    } else {
        Err(ErrorView::InvalidCredentials)
    }
}

/// Whether a request with the given `Authorization` header comes from the
/// one account.
pub open spec fn authorized(
    header: Option<Seq<u8>>,
    username: Seq<char>,
    password: Seq<char>,
) -> Result<(), ErrorView> {
    match header {
        None => Err(ErrorView::Unauthenticated),
        Some(value) => match credentials_of(value) {
            None => Err(ErrorView::MalformedCredentials),
            Some(credentials) => credentials_checked(credentials, username, password),
        },
    }
}

/// The length that a request with the given `Content-Length` header
/// announces, where it is a whole number from 0 to `max_artifact_size`. A
/// header that is missing, or writes no such number, announces none; a
/// larger number is too large.
pub open spec fn length_admitted(header: Option<Seq<u8>>, max_artifact_size: int) -> Result<
    int,
    ErrorView,
> {
    match header {
        None => Err(ErrorView::MissingLength),
        Some(value) => match integer_of(value) {
            None => Err(ErrorView::MissingLength),
            Some(length) => if length < 0 {
                Err(ErrorView::MissingLength)
            } else if length > max_artifact_size {
                Err(ErrorView::PayloadTooLarge)
            } else {
                Ok(length)
            },
        },
    }
}

/// Whether an upload to `path` is let in, and with what length: the path is
/// not empty, the request comes from the one account, and it announces a
/// length that is not too large. The first of these that fails is the
/// error.
pub open spec fn upload_admitted(
    path: Seq<char>,
    authorization: Option<Seq<u8>>,
    content_length: Option<Seq<u8>>,
    config: ConfigView,
) -> Result<int, ErrorView> {
    if path.len() == 0 {
        Err(ErrorView::InvalidRequest)
    } else {
        match authorized(authorization, config.username, config.password) {
            Err(error) => Err(error),
            Ok(_) => length_admitted(content_length, config.max_artifact_size),
        }
    }
}

/// What a request asks of the store, or why it is not let through. A
/// listing is resolved only where listings are switched on, and an upload
/// is stored only where it is let in; neither a request for a file nor one
/// for its headers is held up.
pub open spec fn routed(
    method: Seq<char>,
    raw_path: Seq<char>,
    stage: Option<Seq<char>>,
    authorization: Option<Seq<u8>>,
    content_length: Option<Seq<u8>>,
    config: ConfigView,
) -> Result<RouteView, ErrorView> {
    let path = path_of(raw_path, stage);
    match kind_of(method, path) {
        RequestKind::Index => if config.indexing_enabled {
            Ok(RouteView::Index(path))
        } else {
            Err(ErrorView::IndexingDisabled)
        },
        RequestKind::Head => Ok(RouteView::Head(path)),
        RequestKind::Resource => Ok(RouteView::Resource(path)),
        RequestKind::Upload => match upload_admitted(
            path,
            authorization,
            content_length,
            config,
        ) {
            Ok(_) => Ok(RouteView::Upload(path)),
            Err(error) => Err(error),
        },
        RequestKind::Unsupported => Err(ErrorView::MethodNotSupported(method)),
    }
}

/// What is to be done for a request: what it asks of the store, or the
/// answer to what it failed on.
pub open spec fn decided(
    method: Seq<char>,
    raw_path: Seq<char>,
    stage: Option<Seq<char>>,
    authorization: Option<Seq<u8>>,
    content_length: Option<Seq<u8>>,
    config: ConfigView,
) -> ActionView {
    match routed(method, raw_path, stage, authorization, content_length, config) {
        Ok(RouteView::Index(path)) => ActionView::Index(path),
        Ok(RouteView::Head(path)) => ActionView::Head(path),
        Ok(RouteView::Resource(path)) => ActionView::Resource(path),
        Ok(RouteView::Upload(path)) => ActionView::Upload(path),
        Err(error) => ActionView::Respond(error_view(error, config.max_artifact_size)),
    }
}

/// The name that a request with the given `Authorization` header claims:
/// its credentials up to their last `:`, or all of them where they hold
/// none. `None` where the header is missing or carries no credentials.
pub open spec fn identity_claimed(header: Option<Seq<u8>>) -> Option<Seq<u8>> {
    match header {
        None => None,
        Some(value) => match credentials_of(value) {
            None => None,
            Some(credentials) => {
                let colon = last_position(credentials, COLON);
                if colon < 0 {
                    Some(credentials)
                } else {
                    Some(credentials.take(colon))
                }
            },
        },
    }
}

/// The bytes of an optional vector.
pub open spec fn bytes_view(value: Option<Vec<u8>>) -> Option<Seq<u8>> {
    match value {
        Some(bytes) => Some(bytes@),
        None => None,
    }
}

/// The credentials that the value of an `Authorization` header carries.
fn decode_credentials(encoded: &[u8]) -> (credentials: Option<Vec<u8>>)
    ensures
        bytes_view(credentials) == credentials_of(encoded@),
{
    let scheme = "Basic ".as_bytes();
    let skip = scheme.len();
    if encoded.len() < skip || !range_equals(encoded, 0, skip, scheme) {
        return None;
    }
    if encoded.len() - skip > usize::MAX / 8 {
        return None;
    }
    let extracted = vstd::slice::slice_subrange(encoded, skip, encoded.len());
    match base64_decode(extracted) {
        Err(_) => None,
        Ok(value) => Some(value),
    }
}

/// The credentials of the one account: its name, a `:`, and its password.
pub open spec fn account_credentials(username: Seq<char>, password: Seq<char>) -> Seq<u8> {
    vstd::utf8::encode_utf8(username).push(COLON) + vstd::utf8::encode_utf8(password)
}

/// Only the credentials of the account are let in: whatever else a header
/// carries, a wrong password among it, is refused.
pub proof fn lemma_only_the_account_is_authorized(
    header: Option<Seq<u8>>,
    username: Seq<char>,
    password: Seq<char>,
)
    requires
        authorized(header, username, password) is Ok,
    ensures
        header is Some,
        credentials_of(header->0) == Some(account_credentials(username, password)),
{
    let credentials = credentials_of(header->0)->0;
    lemma_last_position(credentials, COLON);
}

/// A password without `:` makes the credentials of the account pass.
pub proof fn lemma_the_account_is_authorized(
    header: Seq<u8>,
    username: Seq<char>,
    password: Seq<char>,
)
    requires
        credentials_of(header) == Some(account_credentials(username, password)),
        !vstd::utf8::encode_utf8(password).contains(COLON),
    ensures
        authorized(Some(header), username, password) is Ok,
{
    let name = vstd::utf8::encode_utf8(username);
    let word = vstd::utf8::encode_utf8(password);
    let credentials = account_credentials(username, password);
    lemma_last_position_is(credentials, COLON, name.len() as int);
    assert(credentials.take(name.len() as int) =~= name);
    assert(credentials.skip(name.len() as int + 1) =~= word);
}

/// An upload that is not let in is never stored: it is answered at once,
/// with the status of what it failed on, which is no status of success.
pub proof fn lemma_refused_upload_is_answered(
    method: Seq<char>,
    raw_path: Seq<char>,
    stage: Option<Seq<char>>,
    authorization: Option<Seq<u8>>,
    content_length: Option<Seq<u8>>,
    config: ConfigView,
)
    requires
        kind_of(method, path_of(raw_path, stage)) == RequestKind::Upload,
        upload_admitted(path_of(raw_path, stage), authorization, content_length, config) is Err,
    ensures
        ({
            let error = upload_admitted(
                path_of(raw_path, stage),
                authorization,
                content_length,
                config,
            )->Err_0;
            let action = decided(method, raw_path, stage, authorization, content_length, config);
            &&& action matches ActionView::Respond(response)
            &&& response.status == error.status()
            &&& 400 <= response.status < 500
        }),
{
}

/// A method that is not served is answered with `400` and named in the
/// answer, whatever the path and the headers.
pub proof fn lemma_unsupported_method_is_named(
    method: Seq<char>,
    raw_path: Seq<char>,
    stage: Option<Seq<char>>,
    authorization: Option<Seq<u8>>,
    content_length: Option<Seq<u8>>,
    config: ConfigView,
)
    requires
        method != "GET"@,
        method != "HEAD"@,
        method != "PUT"@,
    ensures
        decided(method, raw_path, stage, authorization, content_length, config)
            == ActionView::Respond(
            simple_response_view(400, "Method "@ + method + " not supported."@),
        ),
{
}

/// Where the length of an upload may lie: no header is no length, one
/// byte above the maximum is too large, and the maximum itself is let in.
pub proof fn lemma_length_boundary(header: Seq<u8>, max_artifact_size: int)
    requires
        0 <= max_artifact_size,
    ensures
        length_admitted(None, max_artifact_size) == Err::<int, ErrorView>(ErrorView::MissingLength),
        integer_of(header) == Some(max_artifact_size + 1) ==> length_admitted(
            Some(header),
            max_artifact_size,
        ) == Err::<int, ErrorView>(ErrorView::PayloadTooLarge),
        integer_of(header) == Some(max_artifact_size) ==> length_admitted(
            Some(header),
            max_artifact_size,
        ) == Ok::<int, ErrorView>(max_artifact_size),
{
}

/// Whether `credentials`, as they were decoded, are those of the one
/// account.
pub fn check_credentials(credentials: &[u8], username: &str, password: &str) -> (checked: Result<
    (),
    RequestError,
>)
    ensures
        match credentials_checked(credentials@, username@, password@) {
            Ok(_) => checked is Ok,
            Err(e) => checked matches Err(error) && error@ == e,
        },
{
    let n = credentials.len();
    let mut colon: usize = n;
    while colon > 0 && credentials[colon - 1] != COLON
        invariant
            colon <= n,
            n == credentials@.len(),
            forall|j: int| colon <= j < n ==> credentials@[j] != COLON,
        decreases colon,
    {
        colon -= 1;
    }
    proof {
        lemma_last_position_is(credentials@, COLON, colon as int - 1);
    }
    if colon == 0 {
        return Err(RequestError::MalformedCredentials);
    }
    if range_equals(credentials, 0, colon - 1, username.as_bytes()) && range_equals(
        credentials,
        colon,
        n,
        password.as_bytes(),
    ) {
        Ok(())
    } else {
        Err(RequestError::InvalidCredentials)
    }
}

/// Whether a request with the given `Authorization` header comes from the
/// account of the configuration.
pub fn authorize(authorization: Option<&[u8]>, maven_config: &MavenConfig) -> (checked: Result<
    (),
    RequestError,
>)
    ensures
        match authorized(
            header_view(authorization),
            maven_config.username@,
            maven_config.password@,
        ) {
            Ok(_) => checked is Ok,
            Err(e) => checked matches Err(error) && error@ == e,
        },
{
    match authorization {
        None => Err(RequestError::Unauthenticated),
        Some(encoded) => match decode_credentials(encoded) {
            None => Err(RequestError::MalformedCredentials),
            Some(value) => check_credentials(
                value.as_slice(),
                maven_config.username.as_str(),
                maven_config.password.as_str(),
            ),
        },
    }
}

/// The name under which a request with the given `Authorization` header
/// asks to be let in, for the record of refused uploads. It is taken from
/// the decoded credentials, never from the header as it came.
pub fn claimed_identity(authorization: Option<&[u8]>) -> (identity: Option<Vec<u8>>)
    ensures
        bytes_view(identity) == identity_claimed(header_view(authorization)),
{
    match authorization {
        None => None,
        Some(encoded) => match decode_credentials(encoded) {
            None => None,
            Some(value) => {
                let n = value.len();
                let mut colon: usize = n;
                while colon > 0 && value[colon - 1] != COLON
                    invariant
                        colon <= n,
                        n == value@.len(),
                        forall|j: int| colon <= j < n ==> value@[j] != COLON,
                    decreases colon,
                {
                    colon -= 1;
                }
                proof {
                    lemma_last_position_is(value@, COLON, colon as int - 1);
                }
                if colon == 0 {
                    Some(value)
                } else {
                    let mut name = value;
                    name.truncate(colon - 1);
                    Some(name)
                }
            },
        },
    }
}

/// The length that a request with the given `Content-Length` header
/// announces, where an artifact of that length is taken.
pub fn admit_length(content_length: Option<&[u8]>, maven_config: &MavenConfig) -> (admitted:
    Result<i64, RequestError>)
    ensures
        match length_admitted(header_view(content_length), maven_config.max_artifact_size as int) {
            Ok(length) => admitted == Ok::<i64, RequestError>(length as i64) && 0 <= length
                <= i64::MAX,
            Err(e) => admitted matches Err(error) && error@ == e,
        },
{
    let data = match content_length {
        None => {
            return Err(RequestError::MissingLength);
        },
        Some(data) => data,
    };
    match parse_integer(data) {
        Parsed::Number(size) => {
            if size < 0 {
                Err(RequestError::MissingLength)
            } else if size > maven_config.max_artifact_size {
                Err(RequestError::PayloadTooLarge)
            } else {
                Ok(size)
            }
        },
        Parsed::TooLarge => Err(RequestError::PayloadTooLarge),
        Parsed::TooSmall => Err(RequestError::MissingLength),
        Parsed::Invalid => Err(RequestError::MissingLength),
    }
}

/// Whether an upload to `path` is let in, and with what length.
pub fn admit_upload(
    path: &str,
    authorization: Option<&[u8]>,
    content_length: Option<&[u8]>,
    maven_config: &MavenConfig,
) -> (admitted: Result<i64, RequestError>)
    ensures
        match upload_admitted(
            path@,
            header_view(authorization),
            header_view(content_length),
            maven_config@,
        ) {
            Ok(length) => admitted == Ok::<i64, RequestError>(length as i64) && 0 <= length
                <= i64::MAX,
            Err(e) => admitted matches Err(error) && error@ == e,
        },
{
    if path.is_empty() {
        return Err(RequestError::InvalidRequest);
    }
    match authorize(authorization, maven_config) {
        Err(error) => Err(error),
        Ok(_) => admit_length(content_length, maven_config),
    }
}

/// Finds what a request asks of the store, or why it is not let through.
/// Nothing is asked of the store here.
pub fn route(event: &RequestHead, maven_config: &MavenConfig) -> (found: Result<
    Route,
    RequestError,
>)
    ensures
        match routed(
            event.method@,
            event.raw_path@,
            stage_view(event.stage),
            header_view(event.authorization),
            header_view(event.content_length),
            maven_config@,
        ) {
            Ok(view) => found matches Ok(route) && route@ == view,
            Err(e) => found matches Err(error) && error@ == e,
        },
{
    let request_path = request_path(event.raw_path, event.stage);
    match request_kind(event.method, request_path.as_str()) {
        RequestKind::Index => {
            if maven_config.indexing_enabled {
                Ok(Route::Index(request_path))
            } else {
                Err(RequestError::IndexingDisabled)
            }
        },
        RequestKind::Head => Ok(Route::Head(request_path)),
        RequestKind::Resource => Ok(Route::Resource(request_path)),
        RequestKind::Upload => {
            match admit_upload(
                request_path.as_str(),
                event.authorization,
                event.content_length,
                maven_config,
            ) {
                Ok(_) => Ok(Route::Upload(request_path)),
                Err(error) => Err(error),
            }
        },
        RequestKind::Unsupported => Err(RequestError::MethodNotSupported(event.method.to_owned())),
    }
}

/// Decides what is to be done for a request: the answer, where one can be
/// given at once, else what to ask of the store.
pub fn handler(event: &RequestHead, maven_config: &MavenConfig) -> (action: Action)
    ensures
        action@ == decided(
            event.method@,
            event.raw_path@,
            stage_view(event.stage),
            header_view(event.authorization),
            header_view(event.content_length),
            maven_config@,
        ),
{
    match route(event, maven_config) {
        Ok(Route::Index(request_path)) => Action::Index(request_path),
        Ok(Route::Head(request_path)) => Action::Head(request_path),
        Ok(Route::Resource(request_path)) => Action::Resource(request_path),
        Ok(Route::Upload(request_path)) => Action::Upload(request_path),
        Err(error) => Action::Respond(ErrorResponseBuilder::answer(&error, maven_config)),
    }
}

} // verus!
