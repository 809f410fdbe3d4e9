use maven_gateway::cfg::{ConfigError, MavenConfig};
use maven_gateway::error::RequestError;
use maven_gateway::responses::build_response::{ErrorResponseBuilder, ObjectHead, ResponseBuilder, StoredObject, Timestamp};
use maven_gateway::responses::http_templates::build_index;
use maven_gateway::responses::{HttpBody, HttpHeader, HttpResponse};
use maven_gateway::storage::layers::Layer;
use maven_gateway::util::{simple_response, simple_response_fmt};

fn settings() -> MavenConfig {
    MavenConfig::new(
        Some("bucket".to_string()),
        None,
        None,
        None,
        Some("user".to_string()),
        Some("pass".to_string()),
    ).unwrap()
}

fn line(name: &str, value: &str) -> HttpHeader {
    HttpHeader { name: name.to_string(), value: value.to_string() }
}

fn page(status: u16, text: &str) -> HttpResponse {
    HttpResponse {
        status,
        headers: vec![line("content-type", "text/html")],
        body: HttpBody::Text(text.to_string()),
    }
}

const STORAGE_FAILURE: &str = "Failed to read from storage. Contact the maven owner for details";

#[test]
fn simple_response_is_html_with_the_given_status() {
    assert_eq!(simple_response(418, "teapot"), page(418, "teapot"));
    assert_eq!(simple_response_fmt(200, "fine".to_string()), page(200, "fine"));
}

#[test]
fn headers_are_added_in_order() {
    let response = HttpResponse::new(204, HttpBody::Empty).header("a", "1").header("b", "2").header("a", "3");
    assert_eq!(response.status, 204);
    assert_eq!(response.headers, vec![line("a", "1"), line("b", "2"), line("a", "3")]);
    assert_eq!(response.body, HttpBody::Empty);
}

#[test]
fn error_answers_have_their_status_and_text() {
    assert_eq!(ErrorResponseBuilder::server_error("boom"), page(500, "boom"));
    assert_eq!(ErrorResponseBuilder::storage_failure(), page(500, STORAGE_FAILURE));
    assert_eq!(ErrorResponseBuilder::invalid_request(), page(400, "Invalid request."));
    assert_eq!(ErrorResponseBuilder::invalid_request_method("DELETE"), page(400, "Method DELETE not supported."));
    assert_eq!(ErrorResponseBuilder::no_content(), page(404, "No content found."));
    assert_eq!(ErrorResponseBuilder::invalid_auth(), page(403, "Invalid authorization provided."));
    assert_eq!(ErrorResponseBuilder::invalid_content_length(), page(411, "No content-length provided."));
    assert_eq!(ErrorResponseBuilder::too_large(&settings()), page(413, "Artifact too large. Max size: 5900000"));
}

#[test]
fn no_content_bytes_has_no_body() {
    assert_eq!(
        ErrorResponseBuilder::no_content_bytes(),
        HttpResponse { status: 404, headers: vec![line("content-type", "text/html")], body: HttpBody::Empty }
    );
}

#[test]
fn no_auth_asks_for_credentials() {
    assert_eq!(
        ErrorResponseBuilder::no_auth(),
        HttpResponse {
            status: 401,
            headers: vec![line("content-type", "text/html"), line("WWW-Authenticate", "Basic realm=\"Upload Artifact\"")],
            body: HttpBody::Text("No authorization provided.".to_string()),
        }
    );
}

#[test]
fn no_index_allowed_allows_nothing() {
    assert_eq!(
        ErrorResponseBuilder::no_index_allowed(),
        HttpResponse {
            status: 405,
            headers: vec![line("content-type", "text/html"), line("Allow", "")],
            body: HttpBody::Text("Indexing is not enabled for this repository.".to_string()),
        }
    );
}

#[test]
fn every_kind_of_failure_has_its_answer() {
    let maven_config = settings();
    assert_eq!(ErrorResponseBuilder::answer(&RequestError::NotFound, &maven_config).status, 404);
    assert_eq!(ErrorResponseBuilder::answer(&RequestError::Unauthenticated, &maven_config), ErrorResponseBuilder::no_auth());
    assert_eq!(ErrorResponseBuilder::answer(&RequestError::MalformedCredentials, &maven_config).status, 403);
    assert_eq!(ErrorResponseBuilder::answer(&RequestError::InvalidCredentials, &maven_config).status, 403);
    assert_eq!(ErrorResponseBuilder::answer(&RequestError::InvalidRequest, &maven_config).status, 400);
    assert_eq!(ErrorResponseBuilder::answer(&RequestError::MissingLength, &maven_config).status, 411);
    assert_eq!(ErrorResponseBuilder::answer(&RequestError::PayloadTooLarge, &maven_config), page(413, "Artifact too large. Max size: 5900000"));
    assert_eq!(
        ErrorResponseBuilder::answer(&RequestError::MethodNotSupported("TRACE".to_string()), &maven_config),
        page(400, "Method TRACE not supported.")
    );
    assert_eq!(ErrorResponseBuilder::answer(&RequestError::IndexingDisabled, &maven_config), ErrorResponseBuilder::no_index_allowed());
    assert_eq!(ErrorResponseBuilder::answer(&RequestError::StorageFailure, &maven_config), page(500, STORAGE_FAILURE));
}

#[test]
fn wrong_and_unreadable_credentials_get_the_same_answer() {
    let maven_config = settings();
    assert_eq!(
        ErrorResponseBuilder::answer(&RequestError::MalformedCredentials, &maven_config),
        ErrorResponseBuilder::answer(&RequestError::InvalidCredentials, &maven_config)
    );
}

#[test]
fn uploaded_artifact_is_created_without_body_or_headers() {
    assert_eq!(ResponseBuilder::uploaded_artifact(), HttpResponse { status: 201, headers: vec![], body: HttpBody::Empty });
}

fn head_of_2019() -> ObjectHead {
    ObjectHead {
        last_modified: Some(Timestamp { seconds: 1576540098, subsecond_nanos: 500_000_000 }),
        content_length: Some(1234),
    }
}

#[test]
fn head_of_an_object_describes_it_without_a_body() {
    assert_eq!(
        ResponseBuilder::resource_head("com/acme/lib/1.0/lib-1.0.jar", Some(head_of_2019())),
        HttpResponse {
            status: 200,
            headers: vec![
                line("content-type", "application/java-archive"),
                line("Cache-Control", "public, max-age=259200"),
                line("Last-Modified", "Mon, 16 Dec 2019 23:48:18 GMT"),
                line("Content-Length", "1234"),
            ],
            body: HttpBody::Empty,
        }
    );
}

#[test]
fn head_of_a_missing_object_is_not_found_in_words() {
    assert_eq!(ResponseBuilder::resource_head("com/acme/lib.jar", None), page(404, "No content found."));
}

#[test]
fn resource_hands_out_the_bytes_with_the_headers() {
    let object = StoredObject { head: head_of_2019(), body: Some(vec![1, 2, 3]) };
    assert_eq!(
        ResponseBuilder::resource("com/acme/lib/1.0/lib-1.0.pom", Some(object)),
        HttpResponse {
            status: 200,
            headers: vec![
                line("content-type", "application/xml"),
                line("Cache-Control", "public, max-age=259200"),
                line("Last-Modified", "Mon, 16 Dec 2019 23:48:18 GMT"),
                line("Content-Length", "1234"),
            ],
            body: HttpBody::Binary(vec![1, 2, 3]),
        }
    );
}

#[test]
fn missing_resource_is_not_found_without_body() {
    assert_eq!(ResponseBuilder::resource("com/acme/lib.jar", None), ErrorResponseBuilder::no_content_bytes());
}

#[test]
fn object_without_age_length_or_bytes_is_a_storage_failure() {
    let no_age = ObjectHead { last_modified: None, content_length: Some(3) };
    let no_length = ObjectHead { last_modified: head_of_2019().last_modified, content_length: None };
    assert_eq!(ResponseBuilder::resource_head("a.jar", Some(no_age)), page(500, STORAGE_FAILURE));
    assert_eq!(ResponseBuilder::resource_head("a.jar", Some(no_length)), page(500, STORAGE_FAILURE));
    assert_eq!(ResponseBuilder::resource("a.jar", Some(StoredObject { head: no_age, body: Some(vec![1]) })), page(500, STORAGE_FAILURE));
    assert_eq!(ResponseBuilder::resource("a.jar", Some(StoredObject { head: head_of_2019(), body: None })), page(500, STORAGE_FAILURE));
}

#[test]
fn age_that_is_no_date_is_a_storage_failure() {
    let nanos = ObjectHead { last_modified: Some(Timestamp { seconds: 0, subsecond_nanos: 1_000_000_000 }), content_length: Some(3) };
    assert_eq!(ResponseBuilder::resource_head("a.jar", Some(nanos)), page(500, STORAGE_FAILURE));
    let far = ObjectHead { last_modified: Some(Timestamp { seconds: i64::MAX, subsecond_nanos: 0 }), content_length: Some(3) };
    assert_eq!(ResponseBuilder::resource_head("a.jar", Some(far)), page(500, STORAGE_FAILURE));
    let before = ObjectHead { last_modified: Some(Timestamp { seconds: -62135596801, subsecond_nanos: 0 }), content_length: Some(3) };
    assert_eq!(ResponseBuilder::resource_head("a.jar", Some(before)), page(500, STORAGE_FAILURE));
}

#[test]
fn dates_are_written_as_http_dates() {
    let epoch = ObjectHead { last_modified: Some(Timestamp { seconds: 0, subsecond_nanos: 0 }), content_length: Some(0) };
    let response = ResponseBuilder::resource_head("a", Some(epoch));
    assert_eq!(response.headers[0], line("content-type", "text/plain"));
    assert_eq!(response.headers[2], line("Last-Modified", "Thu, 01 Jan 1970 00:00:00 GMT"));
    assert_eq!(response.headers[3], line("Content-Length", "0"));
}

#[test]
fn object_answer_takes_the_text_of_the_date_as_it_is() {
    let response = ResponseBuilder::object("x.xml", Some("any day".to_string()), Some(-5), HttpBody::Empty);
    assert_eq!(
        response.headers,
        vec![
            line("content-type", "application/xml"),
            line("Cache-Control", "public, max-age=259200"),
            line("Last-Modified", "any day"),
            line("Content-Length", "-5"),
        ]
    );
    assert_eq!(ResponseBuilder::object("x.xml", None, Some(1), HttpBody::Empty), page(500, STORAGE_FAILURE));
    assert_eq!(ResponseBuilder::object("x.xml", Some("d".to_string()), None, HttpBody::Empty), page(500, STORAGE_FAILURE));
}

const EMPTY_PAGE: &str = "<!DOCTYPE html>\n<html>\n\t<head>\n\t\t<title>Silver's Silly Little Maven</title>\n\t\t<meta property=\"og:title\" content=\"Silver's Silly Little Maven\">\n\t\t<meta property=\"og:description\" content=\"An index of / on the maven\">\n\t\t<meta property=\"og:image\" content=\"https://www.silverandro.dev/site_image.png\">\n\t\t<meta name=\"theme-color\" content=\"#B00B69\">\n\t</head>\n\t<body>\n\t\t<h1>Index of /</h1>\n\t  </body>\n</html>\n";

const FULL_PAGE: &str = "<!DOCTYPE html>\n<html>\n\t<head>\n\t\t<title>Silver's Silly Little Maven</title>\n\t\t<meta property=\"og:title\" content=\"Silver's Silly Little Maven\">\n\t\t<meta property=\"og:description\" content=\"An index of com/acme/ on the maven\">\n\t\t<meta property=\"og:image\" content=\"https://www.silverandro.dev/site_image.png\">\n\t\t<meta name=\"theme-color\" content=\"#B00B69\">\n\t</head>\n\t<body>\n\t\t<h1>Index of com/acme/</h1>\n\t\t<h3>Packages:</h3>\n\t\t<ul>\n\t\t\t<li><a href=\"./lib/\">lib/</a></li>\n\t\t\t<li><a href=\"./\u{00fc}ber/\">\u{00fc}ber/</a></li>\n\t\t</ul>\n\t\t<h3>Files:</h3>\n\t\t<ul>\n\t\t\t<li><a href=\"./maven-metadata.xml\" download>maven-metadata.xml</a></li>\n\t\t</ul>\n\t  </body>\n</html>\n";

#[test]
fn index_page_of_an_empty_root() {
    assert_eq!(build_index(&vec![], &Layer::new()), EMPTY_PAGE);
}

#[test]
fn index_page_lists_packages_then_files() {
    let mut layer = Layer::new();
    layer.populate(&vec!["lib"], 0);
    layer.populate(&vec!["\u{00fc}ber"], 0);
    layer.add_file("maven-metadata.xml");
    assert_eq!(build_index(&vec!["com", "acme"], &layer), FULL_PAGE);
}

#[test]
fn index_page_leaves_out_an_empty_section() {
    let mut only_files = Layer::new();
    only_files.add_file("a.jar");
    let text = build_index(&vec!["x"], &only_files);
    assert!(!text.contains("Packages:"));
    assert!(text.contains("\t\t<h1>Index of x/</h1>\n\t\t<h3>Files:</h3>\n\t\t<ul>\n\t\t\t<li><a href=\"./a.jar\" download>a.jar</a></li>\n\t\t</ul>\n\t  </body>\n"));
    let mut only_packages = Layer::new();
    only_packages.populate(&vec!["p"], 0);
    let text = build_index(&vec!["x"], &only_packages);
    assert!(!text.contains("Files:"));
    assert!(text.contains("\t\t<h3>Packages:</h3>\n\t\t<ul>\n\t\t\t<li><a href=\"./p/\">p/</a></li>\n\t\t</ul>\n\t  </body>\n"));
}

#[test]
fn index_answer_is_the_page_or_not_found() {
    let mut layer = Layer::new();
    layer.populate(&vec!["lib"], 0);
    layer.populate(&vec!["\u{00fc}ber"], 0);
    layer.add_file("maven-metadata.xml");
    assert_eq!(
        ResponseBuilder::index("com//acme/", Some(&layer)),
        HttpResponse {
            status: 200,
            headers: vec![line("content-type", "text/html"), line("Cache-Control", "public, max-age=43200")],
            body: HttpBody::Text(FULL_PAGE.to_string()),
        }
    );
    assert_eq!(ResponseBuilder::index("com/acme/", None), page(404, "No content found."));
}

#[test]
fn configuration_has_its_defaults() {
    let maven_config = settings();
    assert_eq!(maven_config.bucket_name, "bucket");
    assert!(maven_config.indexing_enabled);
    assert_eq!(maven_config.indexing_max_keys, 1000);
    assert_eq!(maven_config.max_artifact_size, 5900000);
    assert_eq!(maven_config.username, "user");
    assert_eq!(maven_config.password, "pass");
}

#[test]
fn configuration_reads_its_settings() {
    let maven_config = MavenConfig::new(
        Some("b".to_string()),
        Some("false".to_string()),
        Some("-5".to_string()),
        Some("+77".to_string()),
        Some("u".to_string()),
        Some("p".to_string()),
    ).unwrap();
    assert!(!maven_config.indexing_enabled);
    assert_eq!(maven_config.indexing_max_keys, -5);
    assert_eq!(maven_config.max_artifact_size, 77);
}

fn with(indexing: Option<&str>, keys: Option<&str>, size: Option<&str>) -> Result<MavenConfig, ConfigError> {
    MavenConfig::new(
        Some("b".to_string()),
        indexing.map(str::to_string),
        keys.map(str::to_string),
        size.map(str::to_string),
        Some("u".to_string()),
        Some("p".to_string()),
    )
}

#[test]
fn configuration_names_the_setting_that_is_wrong() {
    let some = |text: &str| Some(text.to_string());
    assert_eq!(MavenConfig::new(None, None, None, None, some("u"), some("p")), Err(ConfigError::BucketName));
    assert_eq!(MavenConfig::new(some("b"), None, None, None, None, some("p")), Err(ConfigError::Username));
    assert_eq!(MavenConfig::new(some("b"), None, None, None, some("u"), None), Err(ConfigError::Password));
    assert_eq!(with(Some("yes"), None, None), Err(ConfigError::IndexingEnabled));
    assert_eq!(with(Some("True"), None, None), Err(ConfigError::IndexingEnabled));
    assert_eq!(with(Some(""), None, None), Err(ConfigError::IndexingEnabled));
    assert_eq!(with(None, Some("many"), None), Err(ConfigError::IndexingMaxKeys));
    assert_eq!(with(None, Some("2147483648"), None), Err(ConfigError::IndexingMaxKeys));
    assert_eq!(with(None, Some("-2147483649"), None), Err(ConfigError::IndexingMaxKeys));
    assert_eq!(with(None, None, Some("5.9")), Err(ConfigError::MaxArtifactSize));
    assert_eq!(with(None, None, Some("9223372036854775808")), Err(ConfigError::MaxArtifactSize));
}

#[test]
fn configuration_takes_the_ends_of_the_ranges() {
    assert_eq!(with(None, Some("2147483647"), None).unwrap().indexing_max_keys, i32::MAX);
    assert_eq!(with(None, Some("-2147483648"), None).unwrap().indexing_max_keys, i32::MIN);
    assert_eq!(with(None, None, Some("-9223372036854775808")).unwrap().max_artifact_size, i64::MIN);
}

#[test]
fn configuration_names_the_first_setting_that_is_wrong() {
    assert_eq!(MavenConfig::new(None, Some("x".to_string()), None, None, None, None), Err(ConfigError::BucketName));
    assert_eq!(with(Some("x"), Some("y"), Some("z")), Err(ConfigError::IndexingEnabled));
    assert_eq!(with(None, Some("y"), Some("z")), Err(ConfigError::IndexingMaxKeys));
}

#[test]
fn configuration_errors_say_what_is_wrong() {
    assert_eq!(ConfigError::BucketName.message(), "A BUCKET_NAME must be set in this app's Lambda environment variables.");
    assert_eq!(ConfigError::IndexingEnabled.message(), "Failed to read boolean from environment variable INDEXING_ENABLED.");
    assert_eq!(ConfigError::IndexingMaxKeys.message(), "Failed to read i32 from environment variable INDEXING_MAX_KEYS.");
    assert_eq!(ConfigError::MaxArtifactSize.message(), "Failed to read i64 from environment variable MAX_ARTIFACT_SIZE.");
    assert_eq!(ConfigError::Username.message(), "Failed to get username from UPLOAD_USERNAME for uploading artifacts.");
    assert_eq!(ConfigError::Password.message(), "Failed to get password from UPLOAD_PASSWORD for uploading artifacts.");
}
