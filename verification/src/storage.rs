//! The index cache and what is done with the object store's answers.

pub mod layers;

use crate::cfg::MavenConfig;
use crate::error::{ErrorView, RequestError};
use crate::responses::build_response::{
    server_error_view, uploaded_artifact_view, ErrorResponseBuilder, ResponseBuilder,
};
use crate::responses::{HttpResponse, ResponseView};
use crate::storage::layers::{
    extends, lemma_add_file_grows, lemma_add_file_idempotent, lemma_descend_wf,
    lemma_grown_from_chain, lemma_grown_from_itself, lemma_grown_keeps_listings,
    lemma_populate_grows, lemma_populate_idempotent, lemma_populate_put, lemma_populate_reaches,
    lemma_populate_wf, lemma_put_grows, lemma_put_put, lemma_put_wf, path_from, Layer, LayerView,
};
use crate::text::{
    chars_of, last_position, lemma_last_position_is, segments, split_segments, views,
};
use crate::util::{is_file_like, is_file_request};
use vstd::prelude::*;

verus! {

/// One listing query to the object store: the keys that start with
/// `prefix`, `max_keys` of them at most. Where `delimited` is set the store
/// is asked to cut each key at the first `/` after the prefix and to list
/// each such beginning once.
#[derive(Debug, PartialEq, Eq)]
pub struct ListingQuery {
    pub prefix: String,
    pub delimited: bool,
    pub max_keys: i32,
}

/// What a `ListingQuery` holds.
pub struct QueryView {
    pub prefix: Seq<char>,
    pub delimited: bool,
    pub max_keys: int,
}

impl View for ListingQuery {
    type V = QueryView;

    open spec fn view(&self) -> QueryView {
        QueryView {
            prefix: self.prefix@,
            delimited: self.delimited,
            max_keys: self.max_keys as int,
        }
    }
}

/// What the store answered to a listing query: the beginnings that keys
/// have in common, and the keys. Each list, and each name in it, may be
/// missing from the answer.
#[derive(Debug, PartialEq, Eq)]
pub struct BucketListing {
    pub common_prefixes: Option<Vec<Option<String>>>,
    pub contents: Option<Vec<Option<String>>>,
}

/// What is done first for a request for a listing.
#[derive(Debug)]
pub enum IndexStep {
    /// The tree knows the directory: this is its listing.
    Cached(Layer),
    /// The tree does not know it: this is to be asked of the store.
    Query(ListingQuery),
}

/// The part of `path` before its last `/`; empty where it has none.
pub open spec fn listing_prefix(path: Seq<char>) -> Seq<char> {
    let slash = last_position(path, '/');
    if slash < 0 {
        Seq::empty()
    } else {
        path.take(slash)
    }
}

/// The query that is made for a listing of `path`: for the root, the
/// beginnings of all keys up to the first `/`; below it, every key under
/// the part of the path before its last `/`.
pub open spec fn query_for(path: Seq<char>, max_keys: int) -> QueryView {
    if segments(path).len() == 0 {
        QueryView { prefix: Seq::empty(), delimited: true, max_keys }
    } else {
        QueryView { prefix: listing_prefix(path), delimited: false, max_keys }
    }
}

/// The listing of `path` that the tree can give, if it knows of anything
/// there: the packages and files of the node, without the nodes below.
pub open spec fn lookup(tree: LayerView, path: Seq<char>) -> Option<LayerView> {
    if tree.has_children(segments(path)) {
        Some(tree.descend(segments(path)).snapshot())
    } else {
        None
    }
}

/// The tree after it has taken in the common beginning `prefix`: each of
/// its segments is a package of the one before.
pub open spec fn with_prefix(tree: LayerView, prefix: Seq<char>) -> LayerView {
    tree.populate(segments(prefix))
}

/// The tree after it has taken in `key`: the segments before the last are
/// packages, one below the other, and the last is a file of the node they
/// lead to, where it reads as a file.
pub open spec fn with_key(tree: LayerView, key: Seq<char>) -> LayerView {
    let ids = segments(key);
    if ids.len() == 0 {
        tree
    } else {
        let grown = tree.populate(ids.drop_last());
        if is_file_like(ids.last()) {
            grown.put(ids.drop_last(), grown.descend(ids.drop_last()).add_file(ids.last()))
        } else {
            grown
        }
    }
}

/// The tree after it has taken in `entries`, in order: common beginnings
/// where `delimited` is set, keys where it is not.
pub open spec fn with_entries(tree: LayerView, delimited: bool, entries: Seq<Seq<char>>) -> LayerView
    decreases entries.len(),
{
    if entries.len() == 0 {
        tree
    } else if delimited {
        with_prefix(with_entries(tree, delimited, entries.drop_last()), entries.last())
    } else {
        with_key(with_entries(tree, delimited, entries.drop_last()), entries.last())
    }
}

/// The names of `list`, where none is missing.
pub open spec fn names_listed(list: Seq<Option<String>>) -> Option<Seq<Seq<char>>> {
    if forall|i: int| 0 <= i < list.len() ==> (#[trigger] list[i]) is Some {
        Some(list.map_values(|name: Option<String>| name->0@))
    } else {
        None
    }
}

/// The entries that an answer of the store holds for a query, `None` where
/// the store failed or left out what was asked for. A query for common
/// beginnings needs their list; a query for keys that comes back without a
/// list found no key.
pub open spec fn entries_listed(delimited: bool, listing: Option<&BucketListing>) -> Option<
    Seq<Seq<char>>,
> {
    match listing {
        None => None,
        Some(answer) => if delimited {
            match answer.common_prefixes {
                Some(list) => names_listed(list@),
                None => None,
            }
        } else {
            match answer.contents {
                Some(list) => names_listed(list@),
                None => Some(Seq::empty()),
            }
        },
    }
}

/// The tree after the store's answer to the query for `path` was taken in.
/// An answer that cannot be used leaves the tree as it was.
pub open spec fn tree_after(tree: LayerView, path: Seq<char>, entries: Option<Seq<Seq<char>>>) -> LayerView {
    match entries {
        Some(names) => with_entries(tree, segments(path).len() == 0, names),
        None => tree,
    }
}

/// What a request for a listing of `path` comes to once the store's answer
/// was taken in.
pub open spec fn found_after(
    tree: LayerView,
    path: Seq<char>,
    entries: Option<Seq<Seq<char>>>,
) -> Result<LayerView, ErrorView> {
    match entries {
        Some(names) => match lookup(tree_after(tree, path, entries), path) {
            Some(listing) => Ok(listing),
            None => Err(ErrorView::NotFound),
        },
        None => Err(ErrorView::StorageFailure),
    }
}

/// The part of `path` before its last `/`; empty where it has none.
fn path_prefix(path: &str) -> (prefix: String)
    ensures
        prefix@ == listing_prefix(path@),
{
    let chars = chars_of(path);
    let mut slash: usize = chars.len();
    while slash > 0 && chars[slash - 1] != '/'
        invariant
            slash <= chars@.len(),
            forall|j: int| slash <= j < chars@.len() ==> chars@[j] != '/',
        decreases slash,
    {
        slash -= 1;
    }
    proof {
        lemma_last_position_is(path@, '/', slash as int - 1);
    }
    if slash == 0 {
        String::new()
    } else {
        path.substring_char(0, slash - 1).to_owned()
    }
}

/// The listing of `ids` that the tree can give, if it knows of anything
/// there.
fn cached(root_layer: &Layer, ids: &Vec<&str>) -> (found: Option<Layer>)
    requires
        root_layer.wf(),
    ensures
        match found {
            Some(layer) => layer.wf() && root_layer@.has_children(views(ids@)) && layer@
                == root_layer@.descend(views(ids@)).snapshot(),
            None => !root_layer@.has_children(views(ids@)),
        },
{
    assert(path_from(ids@, 0) == views(ids@));
    if root_layer.has_children(ids, 0) {
        Some(root_layer.descend(ids, 0).clone())
    } else {
        None
    }
}

/// The first step of a request for a listing of `request_path`: the
/// listing, where the tree already knows of something there, else the one
/// query to make. The tree is not changed.
pub fn get_index(root_layer: &Layer, maven_config: &MavenConfig, request_path: &str) -> (step:
    IndexStep)
    requires
        root_layer.wf(),
    ensures
        match lookup(root_layer@, request_path@) {
            Some(listing) => step matches IndexStep::Cached(layer) && layer.wf() && layer@
                == listing,
            None => step matches IndexStep::Query(query) && query@ == query_for(
                request_path@,
                maven_config.indexing_max_keys as int,
            ),
        },
{
    let request_split = split_segments(request_path);
    match cached(root_layer, &request_split) {
        Some(layer) => IndexStep::Cached(layer),
        None => {
            if request_split.len() == 0 {
                IndexStep::Query(
                    ListingQuery {
                        prefix: String::new(),
                        delimited: true,
                        max_keys: maven_config.indexing_max_keys,
                    },
                )
            } else {
                IndexStep::Query(
                    ListingQuery {
                        prefix: path_prefix(request_path),
                        delimited: false,
                        max_keys: maven_config.indexing_max_keys,
                    },
                )
            }
        },
    }
}

/// Putting back the node that is there changes nothing.
pub proof fn lemma_put_back(tree: LayerView, ids: Seq<Seq<char>>)
    requires
        tree.contains_path(ids),
    ensures
        tree.put(ids, tree.descend(ids)) == tree,
    decreases ids.len(),
{
    if ids.len() > 0 {
        lemma_put_back(tree.child(ids[0]), ids.drop_first());
        assert(tree.put(ids, tree.descend(ids)).children =~= tree.children);
    }
}

/// The names of `list`, where none is missing.
fn listed_names(list: &Vec<Option<String>>) -> (names: Option<Vec<&str>>)
    ensures
        match names {
            Some(found) => names_listed(list@) == Some(views(found@)),
            None => names_listed(list@) is None,
        },
{
    let mut found: Vec<&str> = Vec::new();
    let mut i: usize = 0;
    while i < list.len()
        invariant
            i <= list@.len(),
            found@.len() == i,
            forall|j: int| 0 <= j < i ==> (#[trigger] list@[j]) is Some && list@[j]->0@ == found@[j]@,
        decreases list@.len() - i,
    {
        match &list[i] {
            Some(name) => {
                found.push(name.as_str());
            },
            None => {
                return None;
            },
        }
        i += 1;
    }
    Some(found)
}

/// Takes the common beginning `prefix` into the tree.
fn take_prefix(root_layer: &mut Layer, prefix: &str)
    requires
        old(root_layer).wf(),
    ensures
        final(root_layer).wf(),
        final(root_layer)@ == with_prefix(old(root_layer)@, prefix@),
{
    let splice = split_segments(prefix);
    let ghost ids = views(splice@);
    assert(path_from(splice@, 0) == ids);
    proof {
        lemma_populate_reaches(root_layer@, ids, LayerView::empty());
        lemma_put_back(root_layer@.populate(ids), ids);
    }
    let _ = root_layer.populate(&splice, 0);
}

/// Takes `key` into the tree.
fn take_key(root_layer: &mut Layer, key: &str)
    requires
        old(root_layer).wf(),
    ensures
        final(root_layer).wf(),
        final(root_layer)@ == with_key(old(root_layer)@, key@),
{
    let mut splice = split_segments(key);
    let ghost ids = views(splice@);
    match splice.pop() {
        None => {},
        Some(last) => {
            let ghost dirs = views(splice@);
            assert(dirs =~= ids.drop_last());
            assert(path_from(splice@, 0) == dirs);
            proof {
                lemma_populate_reaches(root_layer@, dirs, LayerView::empty());
                lemma_put_back(root_layer@.populate(dirs), dirs);
            }
            let layer = root_layer.populate(&splice, 0);
            if is_file_request(last) {
                layer.add_file(last);
            }
        },
    }
}

/// The second step of a request for a listing of `request_path`, for which
/// the tree had none: takes in what the store answered to the query, then
/// looks again. `listing` is `None` where the store failed. An answer that
/// cannot be used leaves the tree as it was and is a storage failure. The
/// store is not asked a second time: what the tree does not know after
/// this, is not found.
pub fn index_listing(
    root_layer: &mut Layer,
    request_path: &str,
    listing: Option<&BucketListing>,
) -> (found: Result<Layer, RequestError>)
    requires
        old(root_layer).wf(),
    ensures
        final(root_layer).wf(),
        final(root_layer)@ == tree_after(
            old(root_layer)@,
            request_path@,
            entries_listed(segments(request_path@).len() == 0, listing),
        ),
        match found_after(
            old(root_layer)@,
            request_path@,
            entries_listed(segments(request_path@).len() == 0, listing),
        ) {
            Ok(view) => found matches Ok(layer) && layer.wf() && layer@ == view,
            Err(e) => found matches Err(error) && error@ == e,
        },
{
    let request_split = split_segments(request_path);
    let delimited = request_split.len() == 0;
    let answer = match listing {
        Some(answer) => answer,
        None => {
            return Err(RequestError::StorageFailure);
        },
    };
    let list = if delimited {
        match &answer.common_prefixes {
            Some(list) => listed_names(list),
            None => None,
        }
    } else {
        match &answer.contents {
            Some(list) => listed_names(list),
            None => Some(Vec::new()),
        }
    };
    let entries = match list {
        Some(entries) => entries,
        None => {
            return Err(RequestError::StorageFailure);
        },
    };
    let ghost names = views(entries@);
    let mut i: usize = 0;
    while i < entries.len()
        invariant
            i <= entries@.len(),
            names == views(entries@),
            root_layer.wf(),
            root_layer@ == with_entries(old(root_layer)@, delimited, names.take(i as int)),
        decreases entries@.len() - i,
    {
        proof {
            let taken = names.take(i + 1);
            assert(taken.drop_last() =~= names.take(i as int));
        }
        if delimited {
            take_prefix(root_layer, entries[i]);
        } else {
            take_key(root_layer, entries[i]);
        }
        i += 1;
    }
    assert(names.take(i as int) =~= names);
    match cached(root_layer, &request_split) {
        Some(layer) => Ok(layer),
        None => Err(RequestError::NotFound),
    }
}

/// Taking in a key only adds to the tree.
pub proof fn lemma_key_grows(tree: LayerView, key: Seq<char>)
    ensures
        with_key(tree, key).grown_from(tree),
{
    let ids = segments(key);
    if ids.len() == 0 {
        lemma_grown_from_itself(tree);
    } else {
        let dirs = ids.drop_last();
        let grown = tree.populate(dirs);
        lemma_populate_grows(tree, dirs);
        if is_file_like(ids.last()) {
            lemma_add_file_grows(grown.descend(dirs), ids.last());
            lemma_put_grows(grown, dirs, grown.descend(dirs).add_file(ids.last()));
            lemma_grown_from_chain(tree, grown, with_key(tree, key));
        }
    }
}

/// Taking in the entries of a listing only adds to the tree.
pub proof fn lemma_entries_grow(tree: LayerView, delimited: bool, entries: Seq<Seq<char>>)
    ensures
        with_entries(tree, delimited, entries).grown_from(tree),
    decreases entries.len(),
{
    if entries.len() == 0 {
        lemma_grown_from_itself(tree);
    } else {
        let before = with_entries(tree, delimited, entries.drop_last());
        lemma_entries_grow(tree, delimited, entries.drop_last());
        if delimited {
            lemma_populate_grows(before, segments(entries.last()));
        } else {
            lemma_key_grows(before, entries.last());
        }
        lemma_grown_from_chain(tree, before, with_entries(tree, delimited, entries));
    }
}

/// A listing never expires: what the tree can list, it can still list
/// after any answer of the store was taken in, for whatever path that
/// answer was asked. The listing then holds what it held, in the same
/// order, before anything new.
pub proof fn lemma_listing_never_expires(
    tree: LayerView,
    path: Seq<char>,
    asked: Seq<char>,
    entries: Option<Seq<Seq<char>>>,
)
    requires
        lookup(tree, path) is Some,
    ensures
        lookup(tree_after(tree, asked, entries), path) is Some,
        extends(lookup(tree, path)->0.packages, lookup(tree_after(tree, asked, entries), path)->0.packages),
        extends(lookup(tree, path)->0.files, lookup(tree_after(tree, asked, entries), path)->0.files),
{
    let later = tree_after(tree, asked, entries);
    match entries {
        Some(names) => {
            lemma_entries_grow(tree, segments(asked).len() == 0, names);
        },
        None => {
            lemma_grown_from_itself(tree);
        },
    }
    lemma_grown_keeps_listings(tree, later, segments(path));
}

/// Taking in an answer of the store keeps a sound tree sound: no package
/// and no file comes to stand twice, however often an entry is listed.
pub proof fn lemma_entries_keep_wf(tree: LayerView, delimited: bool, entries: Seq<Seq<char>>)
    requires
        tree.wf(),
    ensures
        with_entries(tree, delimited, entries).wf(),
    decreases entries.len(),
{
    if entries.len() > 0 {
        let before = with_entries(tree, delimited, entries.drop_last());
        lemma_entries_keep_wf(tree, delimited, entries.drop_last());
        let ids = segments(entries.last());
        if delimited {
            lemma_populate_wf(before, ids);
        } else if ids.len() > 0 {
            let dirs = ids.drop_last();
            let grown = before.populate(dirs);
            lemma_populate_wf(before, dirs);
            lemma_populate_reaches(before, dirs, LayerView::empty());
            lemma_descend_wf(grown, dirs);
            lemma_put_wf(grown, dirs, grown.descend(dirs).add_file(ids.last()));
        }
    }
}

/// Taking in the same key a second time changes nothing.
pub proof fn lemma_key_idempotent(tree: LayerView, key: Seq<char>)
    ensures
        with_key(with_key(tree, key), key) == with_key(tree, key),
{
    let ids = segments(key);
    if ids.len() > 0 {
        let dirs = ids.drop_last();
        let leaf = ids.last();
        let grown = tree.populate(dirs);
        lemma_populate_idempotent(tree, dirs);
        if is_file_like(leaf) {
            let node = grown.descend(dirs).add_file(leaf);
            lemma_populate_reaches(tree, dirs, node);
            lemma_populate_put(grown, dirs, node);
            lemma_add_file_idempotent(grown.descend(dirs), leaf);
            lemma_put_put(grown, dirs, node, node);
        }
    }
}

/// What one request for a listing comes to: the tree after it, what it
/// found, and how many queries it made.
pub struct Resolution {
    pub tree: LayerView,
    pub found: Result<LayerView, ErrorView>,
    pub queries: nat,
}

/// One request for a listing of `path`, from the first step to the last.
/// `store` stands for the object store: it gives the entries that its
/// answer to a query holds, or `None` where the answer cannot be used.
pub open spec fn resolve_index(
    tree: LayerView,
    path: Seq<char>,
    max_keys: int,
    store: spec_fn(QueryView) -> Option<Seq<Seq<char>>>,
) -> Resolution {
    match lookup(tree, path) {
        Some(listing) => Resolution { tree, found: Ok(listing), queries: 0 },
        None => {
            let entries = store(query_for(path, max_keys));
            Resolution {
                tree: tree_after(tree, path, entries),
                found: found_after(tree, path, entries),
                queries: 1,
            }
        },
    }
}

/// A listing that was found once is found again, from the tree alone: a
/// second request for the same path, against the same store, gives the
/// same packages and files, asks the store nothing and leaves the tree as
/// it is. A request never asks the store more than once.
pub proof fn lemma_found_listing_is_cached(
    tree: LayerView,
    path: Seq<char>,
    max_keys: int,
    store: spec_fn(QueryView) -> Option<Seq<Seq<char>>>,
)
    requires
        resolve_index(tree, path, max_keys, store).found is Ok,
    ensures
        ({
            let first = resolve_index(tree, path, max_keys, store);
            let second = resolve_index(first.tree, path, max_keys, store);
            &&& first.queries <= 1
            &&& second.found == first.found
            &&& second.queries == 0
            &&& second.tree == first.tree
        }),
{
}

/// The answer to an upload, once the store was asked to keep the artifact:
/// `201` where it did, `500` where it did not.
pub open spec fn upload_view(stored: bool) -> ResponseView {
    if stored {
        uploaded_artifact_view()
    } else {
        server_error_view("Failed to upload artifact. Contact the maven owner for details"@)
    }
}

/// The answer to an upload, once the store was asked to keep the artifact.
/// `stored` says whether it did. The store is not asked again.
pub fn upload_artifact(stored: bool) -> (response: HttpResponse)
    ensures
        response@ == upload_view(stored),
{
    if stored {
        ResponseBuilder::uploaded_artifact()
    } else {
        ErrorResponseBuilder::server_error(
            "Failed to upload artifact. Contact the maven owner for details",
        )
    }
}

} // verus!
