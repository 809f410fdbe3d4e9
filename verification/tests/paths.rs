use maven_gateway::request::{classify, request_kind, request_path, RequestKind};
use maven_gateway::text::{split_segments, str_equal};
use maven_gateway::util::{is_file_request, mime_type};

#[test]
fn jar_name_is_a_file() {
    assert!(is_file_request("lib-1.0.jar"));
}

#[test]
fn trailing_separator_is_no_file() {
    assert!(!is_file_request("lib-1.0/"));
}

#[test]
fn empty_path_is_no_file() {
    assert!(!is_file_request(""));
}

#[test]
fn only_the_final_segment_counts() {
    assert!(!is_file_request("a.b/c"));
    assert!(is_file_request("a/b.c"));
    assert!(is_file_request("com/acme/lib/1.0/lib-1.0.pom"));
}

#[test]
fn version_directory_reads_as_a_file() {
    assert!(is_file_request("1.0"));
    assert!(is_file_request("com/acme/lib/1.0"));
}

#[test]
fn dot_needs_a_name_before_it() {
    assert!(!is_file_request(".gitignore"));
    assert!(!is_file_request("dir/.gitignore"));
    assert!(is_file_request("dir/a.gitignore"));
}

#[test]
fn dot_needs_a_word_character_after_it() {
    assert!(!is_file_request("name."));
    assert!(!is_file_request("name.-"));
    assert!(!is_file_request("name. "));
    assert!(is_file_request("name._"));
    assert!(is_file_request("name.7"));
    assert!(is_file_request("name..x"));
}

#[test]
fn word_characters_of_other_scripts_count() {
    assert!(is_file_request("\u{0444}\u{0430}\u{0439}\u{043b}.\u{0436}\u{0430}\u{0440}"));
    assert!(!is_file_request("name.\u{2014}"));
}

#[test]
fn line_feed_before_the_dot_does_not_count() {
    assert!(!is_file_request("\n.x"));
    assert!(is_file_request("a\n.b.c"));
}

#[test]
fn mime_type_of_known_extensions() {
    assert_eq!(mime_type("lib-1.0.jar"), "application/java-archive");
    assert_eq!(mime_type("lib-1.0.pom"), "application/xml");
    assert_eq!(mime_type("maven-metadata.xml"), "application/xml");
}

#[test]
fn mime_type_falls_back_to_text() {
    assert_eq!(mime_type("lib-1.0.jar.sha1"), "text/plain");
    assert_eq!(mime_type("README"), "text/plain");
    assert_eq!(mime_type(""), "text/plain");
    assert_eq!(mime_type("jar"), "text/plain");
    assert_eq!(mime_type("archive.JAR"), "text/plain");
}

#[test]
fn mime_type_reads_what_follows_the_last_dot() {
    assert_eq!(mime_type("a.jar/b"), "text/plain");
    assert_eq!(mime_type("a.b.jar"), "application/java-archive");
    assert_eq!(mime_type(".pom"), "application/xml");
}

#[test]
fn segments_skip_empty_pieces() {
    assert_eq!(split_segments("com/acme/lib"), vec!["com", "acme", "lib"]);
    assert_eq!(split_segments("/com//acme/"), vec!["com", "acme"]);
    assert_eq!(split_segments(""), Vec::<&str>::new());
    assert_eq!(split_segments("///"), Vec::<&str>::new());
    assert_eq!(split_segments("one"), vec!["one"]);
}

#[test]
fn segments_keep_characters_of_several_bytes() {
    assert_eq!(split_segments("\u{00e4}/\u{4e2d}\u{6587}/x"), vec!["\u{00e4}", "\u{4e2d}\u{6587}", "x"]);
}

#[test]
fn strings_compare_by_their_characters() {
    assert!(str_equal("abc", "abc"));
    assert!(!str_equal("abc", "abd"));
    assert!(!str_equal("abc", "ab"));
    assert!(str_equal("", ""));
}

#[test]
fn request_path_loses_its_leading_separator() {
    assert_eq!(request_path("/com/acme/", None), "com/acme/");
    assert_eq!(request_path("/", None), "");
    assert_eq!(request_path("", None), "");
    assert_eq!(request_path("//x", None), "/x");
    assert_eq!(request_path("com", None), "com");
}

#[test]
fn request_path_loses_the_stage() {
    assert_eq!(request_path("/prod/com/acme/", Some("prod")), "com/acme/");
    assert_eq!(request_path("/prod/prod/com", Some("prod")), "com");
    assert_eq!(request_path("/production/com", Some("prod")), "production/com");
    assert_eq!(request_path("/prod", Some("prod")), "prod");
    assert_eq!(request_path("/prod/", Some("prod")), "");
    assert_eq!(request_path("/com/prod/x", Some("prod")), "com/prod/x");
    assert_eq!(request_path("///x", Some("")), "x");
}

#[test]
fn get_of_a_directory_is_an_index_request() {
    assert_eq!(request_kind("GET", "com/acme/"), RequestKind::Index);
    assert_eq!(request_kind("GET", ""), RequestKind::Index);
    assert_eq!(request_kind("GET", "com/acme"), RequestKind::Index);
}

#[test]
fn get_of_a_file_is_a_resource_request() {
    assert_eq!(request_kind("GET", "com/acme/lib/1.0/lib-1.0.jar"), RequestKind::Resource);
}

#[test]
fn head_is_a_head_request_for_any_path() {
    assert_eq!(request_kind("HEAD", "com/acme/lib/1.0/lib-1.0.jar"), RequestKind::Head);
    assert_eq!(request_kind("HEAD", "com/acme/"), RequestKind::Head);
}

#[test]
fn put_is_an_upload_request() {
    assert_eq!(request_kind("PUT", "com/acme/lib/1.0/lib-1.0.jar"), RequestKind::Upload);
    assert_eq!(request_kind("PUT", ""), RequestKind::Upload);
}

#[test]
fn other_methods_are_unsupported() {
    assert_eq!(request_kind("DELETE", "anything"), RequestKind::Unsupported);
    assert_eq!(request_kind("POST", "a.jar"), RequestKind::Unsupported);
    assert_eq!(request_kind("get", "com/"), RequestKind::Unsupported);
    assert_eq!(request_kind("", "com/"), RequestKind::Unsupported);
}

#[test]
fn classification_holds_kind_path_and_method() {
    let classified = classify("GET", "/com/acme/lib/1.0/lib-1.0.jar");
    assert_eq!(classified.kind, RequestKind::Resource);
    assert_eq!(classified.path, "com/acme/lib/1.0/lib-1.0.jar");
    assert_eq!(classified.method, "GET");
    let classified = classify("DELETE", "/anything");
    assert_eq!(classified.kind, RequestKind::Unsupported);
    assert_eq!(classified.path, "anything");
    assert_eq!(classified.method, "DELETE");
}
