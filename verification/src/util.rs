//! Rules on paths, and the plainest answers.

use crate::responses::{BodyView, HttpBody, HttpResponse, ResponseView};
use crate::text::{
    chars_of, last_position, lemma_last_position, lemma_last_position_is, str_equal,
};
use vstd::prelude::*;

verus! {

/// Whether `c` is a word character: a letter, a mark, a decimal digit, a
/// connector such as `_`, or a join control, of any script.
pub uninterp spec fn word_character(c: char) -> bool;

/// `regex_syntax::is_word_character`: whether `c` belongs to the class that
/// a regular expression writes `\w`. The class is a table of Unicode ranges;
/// the contract gives it the name `word_character`. The call cannot fail
/// while the crate's Unicode tables are compiled in, which they are by
/// default.
#[verifier::external_body]
fn is_word_character(c: char) -> (is_word: bool)
    ensures
        is_word == word_character(c),
{
    regex_syntax::is_word_character(c)
}

/// The part of `path` after its last `/`; all of it where it has none.
pub open spec fn final_segment(path: Seq<char>) -> Seq<char> {
    path.skip(last_position(path, '/') + 1)
}

/// Whether position `i` of `segment` is a dot that has a character other
/// than a line feed before it and a word character after it.
pub open spec fn extension_at(segment: Seq<char>, i: int) -> bool {
    &&& 1 <= i < segment.len() - 1
    &&& segment[i] == '.'
    &&& segment[i - 1] != '\n'
    &&& word_character(segment[i + 1])
}

/// Whether `path` reads as the path of a file: it does not end in `/`, and
/// its final segment holds a name, a dot and an extension. Nothing but the
/// text of the path is looked at, so a directory called `1.0` reads as a
/// file too.
pub open spec fn is_file_like(path: Seq<char>) -> bool {
    &&& path.len() > 0
    &&& path.last() != '/'
    &&& exists|i: int| extension_at(final_segment(path), i)
}

/// Only the final segment counts: a path reads as a file exactly where its
/// final segment, taken alone, does. What stands before the last `/` makes
/// no difference.
pub proof fn lemma_only_the_final_segment_counts(path: Seq<char>)
    ensures
        is_file_like(path) == is_file_like(final_segment(path)),
{
    let segment = final_segment(path);
    lemma_last_position(path, '/');
    if path.len() > 0 && path.last() != '/' {
        assert(segment.last() == path.last());
        lemma_last_position_is(segment, '/', -1);
        assert(final_segment(segment) == segment);
    }
}

/// Whether a path asks for a file rather than for a listing.
pub fn is_file_request(haystack: &str) -> (file_like: bool)
    ensures
        file_like == is_file_like(haystack@),
{
    let chars = chars_of(haystack);
    let n = chars.len();
    if n == 0 || chars[n - 1] == '/' {
        return false;
    }
    let mut start: usize = n - 1;
    while start > 0 && chars[start - 1] != '/'
        invariant
            start < n,
            n == chars@.len(),
            forall|j: int| start <= j < n ==> chars@[j] != '/',
        decreases start,
    {
        start -= 1;
    }
    let ghost segment = final_segment(haystack@);
    proof {
        lemma_last_position_is(haystack@, '/', start as int - 1);
    }
    let mut i: usize = start + 1;
    while i < n - 1
        invariant
            start < i <= n,
            segment == final_segment(haystack@),
            n == chars@.len(),
            chars@ == haystack@,
            chars@[n - 1] != '/',
            segment == haystack@.skip(start as int),
            forall|j: int| 1 <= j < i - start ==> !extension_at(segment, j),
        decreases n - i,
    {
        if chars[i] == '.' && chars[i - 1] != '\n' && is_word_character(chars[i + 1]) {
            assert(extension_at(segment, i - start));
            return true;
        }
        i += 1;
    }
    false
}

/// The part of `path` after its last dot, where it has one.
pub open spec fn extension(path: Seq<char>) -> Option<Seq<char>> {
    let dot = last_position(path, '.');
    if dot < 0 {
        None
    } else {
        Some(path.skip(dot + 1))
    }
}

/// The media type that goes with the extension of `path`.
pub open spec fn mime_of(path: Seq<char>) -> Seq<char> {
    match extension(path) {
        Some(ext) => if ext == "jar"@ {
            "application/java-archive"@
        } else if ext == "xml"@ || ext == "pom"@ {
            "application/xml"@
        } else {
            "text/plain"@
        },
        None => "text/plain"@,
    }
}

/// The media type of the file at `resource_path`, by its extension.
pub fn mime_type(resource_path: &str) -> (mime: String)
    ensures
        mime@ == mime_of(resource_path@),
{
    let chars = chars_of(resource_path);
    let n = chars.len();
    let mut dot: usize = n;
    while dot > 0 && chars[dot - 1] != '.'
        invariant
            dot <= n,
            n == chars@.len(),
            forall|j: int| dot <= j < n ==> chars@[j] != '.',
        decreases dot,
    {
        dot -= 1;
    }
    proof {
        lemma_last_position_is(resource_path@, '.', dot as int - 1);
    }
    if dot == 0 {
        return "text/plain".to_owned();
    }
    let postfix = resource_path.substring_char(dot, n);
    if str_equal(postfix, "jar") {
        "application/java-archive".to_owned()
    } else if str_equal(postfix, "xml") || str_equal(postfix, "pom") {
        "application/xml".to_owned()
    } else {
        "text/plain".to_owned()
    }
}

/// What `simple_response` answers.
pub open spec fn simple_response_view(status_code: u16, msg: Seq<char>) -> ResponseView {
    ResponseView {
        status: status_code as int,
        headers: seq![("content-type"@, "text/html"@)],
        body: BodyView::Text(msg),
    }
}

/// An HTML answer with the given status and text.
pub fn simple_response(status_code: u16, msg: &str) -> (response: HttpResponse)
    ensures
        response@ == simple_response_view(status_code, msg@),
{
    simple_response_fmt(status_code, msg.to_owned())
}

/// An HTML answer with the given status and text, which it takes over.
pub fn simple_response_fmt(status_code: u16, msg: String) -> (response: HttpResponse)
    ensures
        response@ == simple_response_view(status_code, msg@),
{
    let response = HttpResponse::new(status_code, HttpBody::Text(msg)).header(
        "content-type",
        "text/html",
    );
    response
}

} // verus!
