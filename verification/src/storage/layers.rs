//! The tree that mirrors the `/`-separated hierarchy of the object keys.

use crate::text::{str_equal, string_views, views};
use vstd::prelude::*;

verus! {

/// `names` with `name` added at the end, unless it is there already.
pub open spec fn with_name(names: Seq<Seq<char>>, name: Seq<char>) -> Seq<Seq<char>> {
    if names.contains(name) {
        names
    } else {
        names.push(name)
    }
}

/// Whether `later` holds the names of `earlier`, in their order, before any
/// other.
pub open spec fn extends(earlier: Seq<Seq<char>>, later: Seq<Seq<char>>) -> bool {
    earlier.len() <= later.len() && later.take(earlier.len() as int) == earlier
}

/// What a node of the tree states: the packages and files known directly
/// under it, and the node of each child that was ever entered.
pub struct LayerView {
    pub packages: Seq<Seq<char>>,
    pub files: Seq<Seq<char>>,
    pub children: Map<Seq<char>, LayerView>,
}

impl LayerView {
    /// A node of which nothing is known.
    pub open spec fn empty() -> LayerView {
        LayerView { packages: Seq::empty(), files: Seq::empty(), children: Map::empty() }
    }

    /// No name occurs twice, and every child was registered as a package.
    pub open spec fn wf(self) -> bool
        decreases self,
    {
        &&& self.packages.no_duplicates()
        &&& self.files.no_duplicates()
        &&& forall|k: Seq<char>| #[trigger]
            self.children.contains_key(k) ==> self.packages.contains(k) && self.children[k].wf()
    }

    /// Whether this tree has grown out of `earlier`: every node of
    /// `earlier` is still there, and lists what it listed, in the same
    /// order, before anything that was added.
    pub open spec fn grown_from(self, earlier: LayerView) -> bool
        decreases earlier,
    {
        &&& extends(earlier.packages, self.packages)
        &&& extends(earlier.files, self.files)
        &&& forall|k: Seq<char>| #[trigger]
            earlier.children.contains_key(k) ==> self.children.contains_key(k)
                && self.children[k].grown_from(earlier.children[k])
    }

    /// The child called `name`, or an empty node where there is none.
    pub open spec fn child(self, name: Seq<char>) -> LayerView {
        if self.children.contains_key(name) {
            self.children[name]
        } else {
            LayerView::empty()
        }
    }

    /// Whether every segment of `ids` names a node, one below the other.
    pub open spec fn contains_path(self, ids: Seq<Seq<char>>) -> bool
        decreases ids.len(),
    {
        ids.len() == 0 || (self.children.contains_key(ids[0]) && self.children[ids[0]].contains_path(
            ids.drop_first(),
        ))
    }

    /// The node reached by following `ids` from this one.
    pub open spec fn descend(self, ids: Seq<Seq<char>>) -> LayerView
        decreases ids.len(),
    {
        if ids.len() == 0 {
            self
        } else {
            self.child(ids[0]).descend(ids.drop_first())
        }
    }

    /// Whether the node at `ids` exists and knows of a package or a file.
    pub open spec fn has_children(self, ids: Seq<Seq<char>>) -> bool {
        self.contains_path(ids) && (self.descend(ids).packages.len() > 0 || self.descend(
            ids,
        ).files.len() > 0)
    }

    /// This tree with the node at `ids` replaced by `node`.
    pub open spec fn put(self, ids: Seq<Seq<char>>, node: LayerView) -> LayerView
        decreases ids.len(),
    {
        if ids.len() == 0 {
            node
        } else {
            LayerView {
                children: self.children.insert(
                    ids[0],
                    self.child(ids[0]).put(ids.drop_first(), node),
                ),
                ..self
            }
        }
    }

    /// This tree with every segment of `ids` registered as a package of the
    /// node above it, and a node for each.
    pub open spec fn populate(self, ids: Seq<Seq<char>>) -> LayerView
        decreases ids.len(),
    {
        if ids.len() == 0 {
            self
        } else {
            LayerView {
                packages: with_name(self.packages, ids[0]),
                files: self.files,
                children: self.children.insert(
                    ids[0],
                    self.child(ids[0]).populate(ids.drop_first()),
                ),
            }
        }
    }

    /// This node with `name` among its files.
    pub open spec fn add_file(self, name: Seq<char>) -> LayerView {
        LayerView { files: with_name(self.files, name), ..self }
    }

    /// The packages and files of this node, without the nodes below it.
    pub open spec fn snapshot(self) -> LayerView {
        LayerView { children: Map::empty(), ..self }
    }
}

/// The path that `ids` spells from position `index` on.
pub open spec fn path_from(ids: Seq<&str>, index: int) -> Seq<Seq<char>> {
    if 0 <= index <= ids.len() {
        views(ids).skip(index)
    } else {
        Seq::empty()
    }
}

/// Adds `name` at the end of `names` unless it is there already.
fn insert_name(names: &mut Vec<String>, name: &str)
    requires
        string_views(old(names)@).no_duplicates(),
    ensures
        string_views(final(names)@) == with_name(string_views(old(names)@), name@),
        string_views(final(names)@).no_duplicates(),
{
    let mut i: usize = 0;
    while i < names.len()
        invariant
            i <= names@.len(),
            *names == *old(names),
            string_views(names@).no_duplicates(),
            forall|j: int| 0 <= j < i ==> string_views(names@)[j] != name@,
        decreases names@.len() - i,
    {
        if str_equal(names[i].as_str(), name) {
            assert(string_views(names@)[i as int] == name@);
            return ;
        }
        i += 1;
    }
    names.push(name.to_owned());
}

/// A child node with the segment that leads to it.
#[derive(Debug)]
struct Child {
    name: String,
    node: Layer,
}

/// A node of the index tree. It owns the nodes below it.
#[derive(Debug)]
pub struct Layer {
    children: Vec<Child>,
    packages: Vec<String>,
    files: Vec<String>,
}

impl View for Layer {
    type V = LayerView;

    closed spec fn view(&self) -> LayerView
        decreases self,
    {
        LayerView {
            packages: string_views(self.packages@),
            files: string_views(self.files@),
            children: Map::new(
                |k: Seq<char>| self.has_child(k),
                |k: Seq<char>|
                    {
                        let i = self.child_index(k);
                        if 0 <= i < self.children@.len() {
                            self.children@[i].node.view()
                        } else {
                            LayerView::empty()
                        }
                    },
            ),
        }
    }
}

impl Layer {
    /// Whether a child is stored under `name`.
    spec fn has_child(&self, name: Seq<char>) -> bool {
        exists|i: int| 0 <= i < self.children@.len() && self.children@[i].name@ == name
    }

    /// Where the child called `name` is stored.
    spec fn child_index(&self, name: Seq<char>) -> int {
        choose|i: int| 0 <= i < self.children@.len() && self.children@[i].name@ == name
    }

    /// No two children are stored under one name.
    spec fn names_distinct(&self) -> bool {
        forall|i: int, j: int|
            0 <= i < j < self.children@.len() ==> self.children@[i].name@
                != self.children@[j].name@
    }

    /// The representation is sound: no name is held twice, every child is
    /// listed as a package, and the same holds below.
    pub closed spec fn wf(&self) -> bool
        decreases self,
    {
        &&& self.names_distinct()
        &&& string_views(self.packages@).no_duplicates()
        &&& string_views(self.files@).no_duplicates()
        &&& forall|i: int|
            0 <= i < self.children@.len() ==> string_views(self.packages@).contains(
                (#[trigger] self.children@[i]).name@,
            ) && self.children@[i].node.wf()
    }

    /// `after` is `before` but for the node of the child stored at `i`.
    spec fn child_swapped(before: Layer, after: Layer, i: int) -> bool {
        &&& 0 <= i < before.children@.len()
        &&& after.children@.len() == before.children@.len()
        &&& forall|j: int|
            0 <= j < before.children@.len() && j != i ==> after.children@[j]
                == before.children@[j]
        &&& after.children@[i].name == before.children@[i].name
        &&& after.packages == before.packages
        &&& after.files == before.files
    }

    /// Replacing the node of the child stored at `i` replaces it in the view.
    proof fn lemma_child_replaced(before: Layer, after: Layer, i: int)
        requires
            before.names_distinct(),
            Layer::child_swapped(before, after, i),
        ensures
            after.names_distinct(),
            after@ == (LayerView {
                children: before@.children.insert(
                    before.children@[i].name@,
                    after.children@[i].node@,
                ),
                ..before@
            }),
            before.wf() && after.children@[i].node.wf() ==> after.wf(),
    {
        assert(after@.children =~= before@.children.insert(
            before.children@[i].name@,
            after.children@[i].node@,
        ));
    }

    /// Listing one more package keeps the representation sound and leaves
    /// the rest of the view as it was.
    proof fn lemma_packages_extended(&self, before: Layer, name: Seq<char>)
        requires
            before.wf(),
            self.children == before.children,
            self.files == before.files,
            string_views(self.packages@) == with_name(string_views(before.packages@), name),
            string_views(self.packages@).no_duplicates(),
        ensures
            self.wf(),
            self@ == (LayerView { packages: with_name(before@.packages, name), ..before@ }),
            self@.packages.contains(name),
    {
        let grown = string_views(self.packages@);
        let olds = string_views(before.packages@);
        if !olds.contains(name) {
            assert(grown[olds.len() as int] == name);
        }
        assert forall|i: int| 0 <= i < self.children@.len() implies grown.contains(
            (#[trigger] self.children@[i]).name@,
        ) && self.children@[i].node.wf() by {
            let k = before.children@[i].name@;
            let j = choose|j: int| 0 <= j < olds.len() && olds[j] == k;
            assert(grown[j] == k);
        }
        assert(self@.children =~= before@.children);
    }

    /// A sound representation has a sound view.
    pub proof fn lemma_view_wf(&self)
        requires
            self.wf(),
        ensures
            self@.wf(),
        decreases self,
    {
        assert forall|k: Seq<char>| #[trigger] self@.children.contains_key(k) implies self@.packages.contains(
            k,
        ) && self@.children[k].wf() by {
            let i = self.child_index(k);
            self.children@[i].node.lemma_view_wf();
        }
    }

    /// An empty node.
    pub fn new() -> (layer: Layer)
        ensures
            layer.wf(),
            layer@ == LayerView::empty(),
    {
        let layer = Layer { children: Vec::new(), packages: Vec::new(), files: Vec::new() };
        assert(layer@.children =~= Map::empty());
        assert(layer@.files =~= Seq::empty());
        layer
    }

    /// The packages known directly under this node, in the order in which
    /// they were found.
    pub fn packages(&self) -> (names: &Vec<String>)
        ensures
            string_views(names@) == self@.packages,
    {
        &self.packages
    }

    /// The files known directly under this node, in the order in which they
    /// were found.
    pub fn files(&self) -> (names: &Vec<String>)
        ensures
            string_views(names@) == self@.files,
    {
        &self.files
    }

    /// Where the child called `name` is stored, if there is one.
    fn find_child(&self, name: &str) -> (found: Option<usize>)
        requires
            self.wf(),
        ensures
            found is Some <==> self@.children.contains_key(name@),
            found matches Some(i) ==> i < self.children@.len() && self.children@[i as int].name@
                == name@ && self.children@[i as int].node@ == self@.children[name@]
                && self.children@[i as int].node.wf(),
    {
        let mut i: usize = 0;
        while i < self.children.len()
            invariant
                i <= self.children@.len(),
                forall|j: int| 0 <= j < i ==> self.children@[j].name@ != name@,
                self.wf(),
            decreases self.children@.len() - i,
        {
            if str_equal(self.children[i].name.as_str(), name) {
                return Some(i);
            }
            i += 1;
        }
        None
    }

    /// Whether the node that `ids` leads to from position `index` on exists
    /// and knows of a package or a file.
    pub fn has_children(&self, ids: &Vec<&str>, index: usize) -> (known: bool)
        requires
            self.wf(),
        ensures
            known == self@.has_children(path_from(ids@, index as int)),
        decreases ids@.len() - index,
    {
        if index >= ids.len() {
            return !(self.packages.is_empty() && self.files.is_empty());
        }
        let ghost path = path_from(ids@, index as int);
        assert(path.drop_first() == path_from(ids@, index + 1));
        match self.find_child(ids[index]) {
            Some(i) => self.children[i].node.has_children(ids, index + 1),
            None => false,
        }
    }

    /// The node that `ids` leads to from position `index` on.
    pub fn descend(&self, ids: &Vec<&str>, index: usize) -> (node: &Layer)
        requires
            self.wf(),
            self@.contains_path(path_from(ids@, index as int)),
        ensures
            node.wf(),
            node@ == self@.descend(path_from(ids@, index as int)),
        decreases ids@.len() - index,
    {
        if index >= ids.len() {
            return self;
        }
        let ghost path = path_from(ids@, index as int);
        assert(path.drop_first() == path_from(ids@, index + 1));
        let found = self.find_child(ids[index]);
        let i = found.unwrap();
        self.children[i].node.descend(ids, index + 1)
    }
}

impl Layer {
    /// Records `name` among the files of this node, unless it is there
    /// already.
    pub fn add_file(&mut self, name: &str)
        requires
            old(self).wf(),
        ensures
            final(self).wf(),
            final(self)@ == old(self)@.add_file(name@),
    {
        insert_name(&mut self.files, name);
        assert(self@.children =~= old(self)@.children);
    }

    /// The child called `id`, made empty where there was none. `id` is
    /// already listed as a package.
    fn get_or_compute_layer(&mut self, id: &str) -> (child: &mut Layer)
        requires
            old(self).wf(),
            old(self)@.packages.contains(id@),
        ensures
            child.wf(),
            child@ == old(self)@.child(id@),
            final(child).wf() ==> final(self).wf(),
            final(self)@ == (LayerView {
                children: old(self)@.children.insert(id@, final(child)@),
                ..old(self)@
            }),
    {
        let found = self.find_child(id);
        let i = match found {
            Some(i) => i,
            None => {
                let fresh = Layer::new();
                self.children.push(Child { name: id.to_owned(), node: fresh });
                assert(self.children@.drop_last() =~= old(self).children@);
                self.children.len() - 1
            },
        };
        let ghost cur = *self;
        proof {
            assert(cur@.children.insert(id@, final(self).children@[i as int].node@)
                =~= old(self)@.children.insert(id@, final(self).children@[i as int].node@));
            assert(Layer::child_swapped(cur, *final(self), i as int) ==> final(self)@
                == (LayerView {
                children: cur@.children.insert(id@, final(self).children@[i as int].node@),
                ..cur@
            }) && (final(self).children@[i as int].node.wf() ==> final(self).wf())) by {
                if Layer::child_swapped(cur, *final(self), i as int) {
                    Layer::lemma_child_replaced(cur, *final(self), i as int);
                }
            }
        }
        &mut self.children[i].node
    }

    /// Registers each segment of `ids`, from position `index` on, as a
    /// package of the node above it, and hands out the node the last one
    /// leads to.
    pub fn populate(&mut self, ids: &Vec<&str>, index: usize) -> (node: &mut Layer)
        requires
            old(self).wf(),
        ensures
            node.wf(),
            node@ == old(self)@.populate(path_from(ids@, index as int)).descend(
                path_from(ids@, index as int),
            ),
            final(node).wf() ==> final(self).wf(),
            final(self)@ == old(self)@.populate(path_from(ids@, index as int)).put(
                path_from(ids@, index as int),
                final(node)@,
            ),
        decreases ids@.len() - index,
    {
        if index >= ids.len() {
            return self;
        }
        let ghost path = path_from(ids@, index as int);
        let ghost rest = path_from(ids@, index + 1);
        let ghost name = ids@[index as int]@;
        assert(path.drop_first() == rest);
        insert_name(&mut self.packages, ids[index]);
        proof {
            self.lemma_packages_extended(*old(self), name);
        }
        let child = self.get_or_compute_layer(ids[index]);
        let ghost below = old(self)@.child(name);
        assert forall|node: LayerView| #[trigger]
            old(self)@.populate(path).put(path, node) == (LayerView {
                children: old(self)@.children.insert(name, below.populate(rest).put(rest, node)),
                ..old(self)@.populate(path)
            }) by {
            assert(old(self)@.populate(path).children.insert(
                name,
                below.populate(rest).put(rest, node),
            ) =~= old(self)@.children.insert(name, below.populate(rest).put(rest, node)));
        }
        child.populate(ids, index + 1)
    }
}

/// Adding a name keeps the names that were there, in their place.
pub proof fn lemma_with_name_extends(names: Seq<Seq<char>>, name: Seq<char>)
    ensures
        extends(names, with_name(names, name)),
{
    assert(with_name(names, name).take(names.len() as int) =~= names);
}

/// Every tree has grown out of itself.
pub proof fn lemma_grown_from_itself(tree: LayerView)
    ensures
        tree.grown_from(tree),
    decreases tree,
{
    assert(tree.packages.take(tree.packages.len() as int) =~= tree.packages);
    assert(tree.files.take(tree.files.len() as int) =~= tree.files);
    assert forall|k: Seq<char>| #[trigger] tree.children.contains_key(k) implies tree.children[k].grown_from(
        tree.children[k],
    ) by {
        lemma_grown_from_itself(tree.children[k]);
    }
}

/// What has grown out of a tree that has grown out of another, has grown
/// out of that one.
pub proof fn lemma_grown_from_chain(first: LayerView, second: LayerView, third: LayerView)
    requires
        second.grown_from(first),
        third.grown_from(second),
    ensures
        third.grown_from(first),
    decreases first,
{
    assert(third.packages.take(first.packages.len() as int) =~= third.packages.take(
        second.packages.len() as int,
    ).take(first.packages.len() as int));
    assert(third.files.take(first.files.len() as int) =~= third.files.take(
        second.files.len() as int,
    ).take(first.files.len() as int));
    assert forall|k: Seq<char>| #[trigger] first.children.contains_key(k) implies third.children.contains_key(
        k,
    ) && third.children[k].grown_from(first.children[k]) by {
        lemma_grown_from_chain(first.children[k], second.children[k], third.children[k]);
    }
}

/// Populating only adds: the tree grows out of what it was.
pub proof fn lemma_populate_grows(tree: LayerView, ids: Seq<Seq<char>>)
    ensures
        tree.populate(ids).grown_from(tree),
    decreases ids.len(),
{
    if ids.len() == 0 {
        lemma_grown_from_itself(tree);
    } else {
        let name = ids[0];
        let grown = tree.populate(ids);
        lemma_with_name_extends(tree.packages, name);
        assert(grown.files.take(tree.files.len() as int) =~= tree.files);
        lemma_populate_grows(tree.child(name), ids.drop_first());
        assert forall|k: Seq<char>| #[trigger] tree.children.contains_key(k) implies grown.children.contains_key(
            k,
        ) && grown.children[k].grown_from(tree.children[k]) by {
            if k != name {
                lemma_grown_from_itself(tree.children[k]);
            }
        }
    }
}

/// Replacing a node by one that has grown out of it makes the tree grow.
pub proof fn lemma_put_grows(tree: LayerView, ids: Seq<Seq<char>>, node: LayerView)
    requires
        node.grown_from(tree.descend(ids)),
    ensures
        tree.put(ids, node).grown_from(tree),
    decreases ids.len(),
{
    if ids.len() > 0 {
        let name = ids[0];
        let changed = tree.put(ids, node);
        lemma_put_grows(tree.child(name), ids.drop_first(), node);
        assert(changed.packages.take(tree.packages.len() as int) =~= tree.packages);
        assert(changed.files.take(tree.files.len() as int) =~= tree.files);
        assert forall|k: Seq<char>| #[trigger] tree.children.contains_key(k) implies changed.children.contains_key(
            k,
        ) && changed.children[k].grown_from(tree.children[k]) by {
            if k != name {
                lemma_grown_from_itself(tree.children[k]);
            }
        }
    }
}

/// Recording a file only adds.
pub proof fn lemma_add_file_grows(node: LayerView, name: Seq<char>)
    ensures
        node.add_file(name).grown_from(node),
{
    lemma_grown_from_itself(node);
    lemma_with_name_extends(node.files, name);
}

/// In a tree that has grown out of another, every path of the other still
/// leads to a node, and that node has grown out of the one it led to.
pub proof fn lemma_grown_keeps_paths(earlier: LayerView, later: LayerView, ids: Seq<Seq<char>>)
    requires
        later.grown_from(earlier),
        earlier.contains_path(ids),
    ensures
        later.contains_path(ids),
        later.descend(ids).grown_from(earlier.descend(ids)),
    decreases ids.len(),
{
    if ids.len() > 0 {
        lemma_grown_keeps_paths(earlier.children[ids[0]], later.children[ids[0]], ids.drop_first());
    }
}

/// What a tree knew, the tree that has grown out of it knows: a listing
/// that could be given can still be given, and holds what it held before
/// anything new.
pub proof fn lemma_grown_keeps_listings(earlier: LayerView, later: LayerView, ids: Seq<Seq<char>>)
    requires
        later.grown_from(earlier),
        earlier.has_children(ids),
    ensures
        later.has_children(ids),
        extends(earlier.descend(ids).packages, later.descend(ids).packages),
        extends(earlier.descend(ids).files, later.descend(ids).files),
{
    lemma_grown_keeps_paths(earlier, later, ids);
}

/// The nodes of a sound tree are sound.
pub proof fn lemma_descend_wf(tree: LayerView, ids: Seq<Seq<char>>)
    requires
        tree.wf(),
        tree.contains_path(ids),
    ensures
        tree.descend(ids).wf(),
    decreases ids.len(),
{
    if ids.len() > 0 {
        lemma_descend_wf(tree.children[ids[0]], ids.drop_first());
    }
}

/// Populating a path whose segments are all there already, below a node
/// that was put at its end, changes nothing.
pub proof fn lemma_populate_put(tree: LayerView, ids: Seq<Seq<char>>, node: LayerView)
    requires
        tree.populate(ids) == tree,
    ensures
        tree.put(ids, node).populate(ids) == tree.put(ids, node),
    decreases ids.len(),
{
    if ids.len() > 0 {
        let name = ids[0];
        let below = tree.child(name);
        lemma_populate_put(below, ids.drop_first(), node);
        let changed = tree.put(ids, node);
        assert(changed.populate(ids).children =~= changed.children);
    }
}

/// Of two nodes put at the same place, one after the other, the second is
/// the one that stays.
pub proof fn lemma_put_put(
    tree: LayerView,
    ids: Seq<Seq<char>>,
    first: LayerView,
    second: LayerView,
)
    ensures
        tree.put(ids, first).put(ids, second) == tree.put(ids, second),
    decreases ids.len(),
{
    if ids.len() > 0 {
        lemma_put_put(tree.child(ids[0]), ids.drop_first(), first, second);
        assert(tree.put(ids, first).put(ids, second).children =~= tree.put(ids, second).children);
    }
}

impl Clone for Layer {
    /// A copy of the packages and files of this node. The nodes below it
    /// are not copied.
    fn clone(&self) -> (copy: Self)
        ensures
            copy@ == self@.snapshot(),
            self.wf() ==> copy.wf(),
    {
        let packages = self.packages.clone();
        let files = self.files.clone();
        let copy = Layer { children: Vec::new(), packages, files };
        assert(copy@.children =~= Map::empty());
        copy
    }
}

/// Adding a name that is already there changes nothing.
pub proof fn lemma_with_name_idempotent(names: Seq<Seq<char>>, name: Seq<char>)
    ensures
        with_name(names, name).contains(name),
        with_name(with_name(names, name), name) == with_name(names, name),
        names.no_duplicates() ==> with_name(names, name).no_duplicates(),
        forall|other: Seq<char>| names.contains(other) ==> with_name(names, name).contains(other),
{
    if !names.contains(name) {
        assert(names.push(name)[names.len() as int] == name);
    }
    assert forall|other: Seq<char>| names.contains(other) implies with_name(names, name).contains(
        other,
    ) by {
        let j = choose|j: int| 0 <= j < names.len() && names[j] == other;
        assert(with_name(names, name)[j] == other);
    }
}

/// Populating keeps a sound tree sound: no package and no file comes to
/// stand twice.
pub proof fn lemma_populate_wf(tree: LayerView, ids: Seq<Seq<char>>)
    requires
        tree.wf(),
    ensures
        tree.populate(ids).wf(),
    decreases ids.len(),
{
    if ids.len() > 0 {
        let name = ids[0];
        let below = tree.child(name);
        lemma_populate_wf(below, ids.drop_first());
        lemma_with_name_idempotent(tree.packages, name);
    }
}

/// Populating the same path a second time changes nothing.
pub proof fn lemma_populate_idempotent(tree: LayerView, ids: Seq<Seq<char>>)
    ensures
        tree.populate(ids).populate(ids) == tree.populate(ids),
    decreases ids.len(),
{
    if ids.len() > 0 {
        let name = ids[0];
        let below = tree.child(name);
        let once = tree.populate(ids);
        lemma_populate_idempotent(below, ids.drop_first());
        lemma_with_name_idempotent(tree.packages, name);
        assert(once.populate(ids).children =~= once.children);
    }
}

/// Recording the same file a second time changes nothing, and a sound node
/// stays sound.
pub proof fn lemma_add_file_idempotent(node: LayerView, name: Seq<char>)
    ensures
        node.add_file(name).add_file(name) == node.add_file(name),
        node.wf() ==> node.add_file(name).wf(),
{
    lemma_with_name_idempotent(node.files, name);
}

/// After populating, the path exists, and a node put there is the node
/// found there.
pub proof fn lemma_populate_reaches(tree: LayerView, ids: Seq<Seq<char>>, node: LayerView)
    ensures
        tree.populate(ids).contains_path(ids),
        tree.populate(ids).put(ids, node).contains_path(ids),
        tree.populate(ids).put(ids, node).descend(ids) == node,
    decreases ids.len(),
{
    if ids.len() > 0 {
        lemma_populate_reaches(tree.child(ids[0]), ids.drop_first(), node);
    }
}

/// Replacing a node of a sound tree by a sound node leaves the tree sound.
pub proof fn lemma_put_wf(tree: LayerView, ids: Seq<Seq<char>>, node: LayerView)
    requires
        tree.wf(),
        tree.contains_path(ids),
        node.wf(),
    ensures
        tree.put(ids, node).wf(),
    decreases ids.len(),
{
    if ids.len() > 0 {
        lemma_put_wf(tree.child(ids[0]), ids.drop_first(), node);
    }
}

} // verus!
