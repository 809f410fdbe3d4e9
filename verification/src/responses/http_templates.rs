//! The page that shows a directory listing.

use crate::storage::layers::{Layer, LayerView};
use crate::text::{lemma_encode_concat, lemma_encode_injective, string_views, views};
use std::string::FromUtf8Error;
use string_builder::Builder;
use vstd::prelude::*;

verus! {

/// `string_builder::Builder`, a growable buffer of bytes.
#[verifier::external_type_specification]
#[verifier::external_body]
pub struct ExBuilder(Builder);

/// `std::string::FromUtf8Error`, the error of a conversion from bytes that
/// are not UTF-8.
#[verifier::external_type_specification]
#[verifier::external_body]
pub struct ExFromUtf8Error(FromUtf8Error);

/// The bytes that a builder holds.
pub uninterp spec fn builder_bytes(builder: Builder) -> Seq<u8>;

/// `Builder::new`: an empty builder with room for `size` bytes. The
/// allocation behind it takes no more than `isize::MAX` bytes.
#[verifier::external_body]
fn builder_new(size: usize) -> (builder: Builder)
    requires
        size <= isize::MAX,
    ensures
        builder_bytes(builder) == Seq::<u8>::empty(),
{
    Builder::new(size)
}

/// `Builder::append` with a string slice: its UTF-8 bytes are added at the
/// end of what the builder holds.
#[verifier::external_body]
fn builder_append(builder: &mut Builder, text: &str)
    ensures
        builder_bytes(*final(builder)) == builder_bytes(*old(builder)) + vstd::utf8::encode_utf8(
            text@,
        ),
{
    builder.append(text)
}

/// `Builder::string`: the bytes of the builder as a `String`. It fails only
/// where the bytes are not UTF-8.
#[verifier::external_body]
fn builder_string(builder: Builder) -> (text: Result<String, FromUtf8Error>)
    ensures
        match text {
            Ok(s) => vstd::utf8::encode_utf8(s@) == builder_bytes(builder),
            Err(_) => !vstd::utf8::valid_utf8(builder_bytes(builder)),
        },
{
    builder.string()
}

/// A page that is being written: the builder and the text it holds so far.
struct Page {
    builder: Builder,
    text: Ghost<Seq<char>>,
}

impl Page {
    /// The builder holds the text, in UTF-8.
    spec fn wf(&self) -> bool {
        builder_bytes(self.builder) == vstd::utf8::encode_utf8(self.text@)
    }

    /// An empty page.
    fn new() -> (page: Page)
        ensures
            page.wf(),
            page.text@ == Seq::<char>::empty(),
    {
        Page { builder: builder_new(512), text: Ghost(Seq::empty()) }
    }

    /// Writes `piece` at the end of the page.
    fn write(&mut self, piece: &str)
        requires
            old(self).wf(),
        ensures
            final(self).wf(),
            final(self).text@ == old(self).text@ + piece@,
    {
        builder_append(&mut self.builder, piece);
        proof {
            lemma_encode_concat(self.text@, piece@);
            self.text@ = self.text@ + piece@;
        }
    }

    /// The text of the page.
    fn finish(self) -> (text: String)
        requires
            self.wf(),
        ensures
            text@ == self.text@,
    {
        let ghost written = self.text@;
        match builder_string(self.builder) {
            Ok(text) => {
                proof {
                    lemma_encode_injective(text@, written);
                }
                text
            },
            Err(_) => {
                proof {
                    vstd::utf8::encode_utf8_valid_utf8(written);
                }
                String::new()
            },
        }
    }
}

/// The segments of a path with `/` between them.
pub open spec fn joined(ids: Seq<Seq<char>>) -> Seq<char>
    decreases ids.len(),
{
    if ids.len() == 0 {
        Seq::empty()
    } else if ids.len() == 1 {
        ids[0]
    } else {
        joined(ids.drop_last()) + "/"@ + ids.last()
    }
}

/// The list item that links to the package `name`.
pub open spec fn package_item(name: Seq<char>) -> Seq<char> {
    "\t\t\t<li><a href=\"./"@ + name + "/\">"@ + name + "/</a></li>\n"@
}

/// The list item that offers the file `name` for download.
pub open spec fn file_item(name: Seq<char>) -> Seq<char> {
    "\t\t\t<li><a href=\"./"@ + name + "\" download>"@ + name + "</a></li>\n"@
}

/// The list items of the packages `names`, in order.
pub open spec fn package_items(names: Seq<Seq<char>>) -> Seq<char>
    decreases names.len(),
{
    if names.len() == 0 {
        Seq::empty()
    } else {
        package_items(names.drop_last()) + package_item(names.last())
    }
}

/// The list items of the files `names`, in order.
pub open spec fn file_items(names: Seq<Seq<char>>) -> Seq<char>
    decreases names.len(),
{
    if names.len() == 0 {
        Seq::empty()
    } else {
        file_items(names.drop_last()) + file_item(names.last())
    }
}

/// The head of the page and its title line, for the directory `full_path`.
pub open spec fn page_top(full_path: Seq<char>) -> Seq<char> {
    "<!DOCTYPE html>\n"@ + "<html>\n"@ + "\t<head>\n"@
        + "\t\t<title>Silver's Silly Little Maven</title>\n"@
        + "\t\t<meta property=\"og:title\" content=\"Silver's Silly Little Maven\">\n"@
        + "\t\t<meta property=\"og:description\" content=\"An index of "@ + full_path
        + " on the maven\">\n"@
        + "\t\t<meta property=\"og:image\" content=\"https://www.silverandro.dev/site_image.png\">\n"@
        + "\t\t<meta name=\"theme-color\" content=\"#B00B69\">\n"@ + "\t</head>\n"@
        + "\t<body>\n"@ + "\t\t<h1>Index of "@ + full_path + "</h1>\n"@
}

/// The section that lists the packages; nothing where there are none.
pub open spec fn package_section(names: Seq<Seq<char>>) -> Seq<char> {
    if names.len() == 0 {
        Seq::empty()
    } else {
        "\t\t<h3>Packages:</h3>\n"@ + "\t\t<ul>\n"@ + package_items(names) + "\t\t</ul>\n"@
    }
}

/// The section that lists the files; nothing where there are none.
pub open spec fn file_section(names: Seq<Seq<char>>) -> Seq<char> {
    if names.len() == 0 {
        Seq::empty()
    } else {
        "\t\t<h3>Files:</h3>\n"@ + "\t\t<ul>\n"@ + file_items(names) + "\t\t</ul>\n"@
    }
}

/// The page that lists `layer` as the directory at `ids`.
pub open spec fn index_page(ids: Seq<Seq<char>>, layer: LayerView) -> Seq<char> {
    page_top(joined(ids) + "/"@) + package_section(layer.packages) + file_section(layer.files)
        + "\t  </body>\n"@ + "</html>\n"@
}

/// The segments of a path with `/` between them and after the last.
fn join_path(req_slice: &Vec<&str>) -> (full_path: String)
    ensures
        full_path@ == joined(views(req_slice@)) + "/"@,
{
    let mut full_path = String::new();
    let mut i: usize = 0;
    while i < req_slice.len()
        invariant
            i <= req_slice@.len(),
            full_path@ == joined(views(req_slice@).take(i as int)) + (if i == 0 {
                Seq::empty()
            } else {
                "/"@
            }),
        decreases req_slice@.len() - i,
    {
        let ghost before = views(req_slice@).take(i as int);
        let ghost grown = views(req_slice@).take(i + 1);
        assert(grown.drop_last() =~= before);
        full_path.append(req_slice[i]);
        full_path.append("/");
        i += 1;
    }
    assert(views(req_slice@).take(i as int) =~= views(req_slice@));
    if i == 0 {
        full_path.append("/");
    }
    full_path
}

/// The page that lists the packages and files of `layer`, the directory
/// that the segments `req_slice` lead to.
pub fn build_index(req_slice: &Vec<&str>, layer: &Layer) -> (page: String)
    ensures
        page@ == index_page(views(req_slice@), layer@),
{
    let full_path = join_path(req_slice);
    let mut builder = Page::new();
    builder.write("<!DOCTYPE html>\n");
    builder.write("<html>\n");
    builder.write("\t<head>\n");
    builder.write("\t\t<title>Silver's Silly Little Maven</title>\n");
    builder.write("\t\t<meta property=\"og:title\" content=\"Silver's Silly Little Maven\">\n");
    builder.write("\t\t<meta property=\"og:description\" content=\"An index of ");
    builder.write(full_path.as_str());
    builder.write(" on the maven\">\n");
    builder.write(
        "\t\t<meta property=\"og:image\" content=\"https://www.silverandro.dev/site_image.png\">\n",
    );
    builder.write("\t\t<meta name=\"theme-color\" content=\"#B00B69\">\n");
    builder.write("\t</head>\n");
    builder.write("\t<body>\n");
    builder.write("\t\t<h1>Index of ");
    builder.write(full_path.as_str());
    builder.write("</h1>\n");

    let packages = layer.packages();
    if packages.len() > 0 {
        builder.write("\t\t<h3>Packages:</h3>\n");
        builder.write("\t\t<ul>\n");
        let ghost start = builder.text@;
        let mut i: usize = 0;
        while i < packages.len()
            invariant
                i <= packages@.len(),
                string_views(packages@) == layer@.packages,
                builder.wf(),
                builder.text@ == start + package_items(layer@.packages.take(i as int)),
            decreases packages@.len() - i,
        {
            let package = packages[i].as_str();
            builder.write("\t\t\t<li><a href=\"./");
            builder.write(package);
            builder.write("/\">");
            builder.write(package);
            builder.write("/</a></li>\n");
            proof {
                let shown = layer@.packages.take(i as int);
                let grown = layer@.packages.take(i + 1);
                assert(grown.drop_last() =~= shown);
                assert(builder.text@ =~= start + package_items(grown));
            }
            i += 1;
        }
        assert(layer@.packages.take(i as int) =~= layer@.packages);
        builder.write("\t\t</ul>\n");
    }

    let files = layer.files();
    if files.len() > 0 {
        builder.write("\t\t<h3>Files:</h3>\n");
        builder.write("\t\t<ul>\n");
        let ghost start = builder.text@;
        let mut i: usize = 0;
        while i < files.len()
            invariant
                i <= files@.len(),
                string_views(files@) == layer@.files,
                builder.wf(),
                builder.text@ == start + file_items(layer@.files.take(i as int)),
            decreases files@.len() - i,
        {
            let file = files[i].as_str();
            builder.write("\t\t\t<li><a href=\"./");
            builder.write(file);
            builder.write("\" download>");
            builder.write(file);
            builder.write("</a></li>\n");
            proof {
                let shown = layer@.files.take(i as int);
                let grown = layer@.files.take(i + 1);
                assert(grown.drop_last() =~= shown);
                assert(builder.text@ =~= start + file_items(grown));
            }
            i += 1;
        }
        assert(layer@.files.take(i as int) =~= layer@.files);
        builder.write("\t\t</ul>\n");
    }

    builder.write("\t  </body>\n");
    builder.write("</html>\n");
    builder.finish()
}

} // verus!
