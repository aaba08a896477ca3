//! The changed files as a tree.

use vstd::prelude::*;
use vstd::string::*;
use crate::git::changes;
use crate::git::changes::StatusEntry;
use crate::order;
use crate::sets::TextSet;
use crate::text;

verus! {

/// A directory or a file, by the parts of the paths. What comes under it is in the order of the
/// names.
#[derive(Debug)]
pub struct TreeNode {
    pub children: Vec<(String, TreeNode)>,
    pub entry_index: Option<usize>,
}

pub ghost struct TreeNodeView {
    pub children: Seq<(Seq<char>, TreeNodeView)>,
    pub entry_index: Option<usize>,
}

pub open spec fn tree_view(n: TreeNode) -> TreeNodeView
    decreases n,
{
    TreeNodeView { children: child_views(n.children@), entry_index: n.entry_index }
}

/// What a list of named nodes says.
pub open spec fn child_views(s: Seq<(String, TreeNode)>) -> Seq<(Seq<char>, TreeNodeView)>
    decreases s,
{
    if s.len() == 0 {
        Seq::empty()
    } else {
        child_views(s.drop_last()).push((s.last().0@, tree_view(s.last().1)))
    }
}

proof fn child_views_index(s: Seq<(String, TreeNode)>)
    ensures
        child_views(s).len() == s.len(),
        forall|i: int|
            0 <= i < s.len() ==> #[trigger] child_views(s)[i] == (s[i].0@, tree_view(s[i].1)),
    decreases s.len(),
{
    if s.len() > 0 {
        child_views_index(s.drop_last());
        assert forall|i: int| 0 <= i < s.len() implies #[trigger] child_views(s)[i] == (
            s[i].0@,
            tree_view(s[i].1),
        ) by {
            if i < s.len() - 1 {
                assert(s.drop_last()[i] == s[i]);
            }
        }
    }
}

/// A node has as many children as it says.
pub proof fn tree_children(n: TreeNode)
    ensures
        tree_view(n).children.len() == n.children@.len(),
{
    child_views_index(n.children@);
}

/// A node with nothing in it.
pub open spec fn empty_tree() -> TreeNodeView {
    TreeNodeView { children: Seq::empty(), entry_index: None }
}

/// The place of a name among others in order: before the first that does not precede it.
pub open spec fn name_place(c: Seq<(Seq<char>, TreeNodeView)>, name: Seq<char>, from: int) -> int
    decreases c.len() - from,
{
    if from >= c.len() || !order::precedes(c[from].0, name) {
        from
    } else {
        name_place(c, name, from + 1)
    }
}

/// The node with an entry added under a path of parts.
pub open spec fn with_entry(n: TreeNodeView, parts: Seq<Seq<char>>, entry: usize) -> TreeNodeView
    decreases parts.len(),
{
    if parts.len() == 0 {
        TreeNodeView { entry_index: Some(entry), ..n }
    } else {
        let i = name_place(n.children, parts[0], 0);
        if i < n.children.len() && n.children[i].0 == parts[0] {
            TreeNodeView {
                children: n.children.update(
                    i,
                    (parts[0], with_entry(n.children[i].1, parts.skip(1), entry)),
                ),
                ..n
            }
        } else {
            TreeNodeView {
                children: n.children.insert(
                    i,
                    (parts[0], with_entry(empty_tree(), parts.skip(1), entry)),
                ),
                ..n
            }
        }
    }
}

/// The tree of the first `k` paths.
pub open spec fn tree_of(paths: Seq<Seq<char>>, k: int) -> TreeNodeView
    decreases k,
{
    if k <= 0 {
        empty_tree()
    } else {
        with_entry(tree_of(paths, k - 1), text::pieces(paths[k - 1], '/'), (k - 1) as usize)
    }
}

fn find_child(children: &Vec<(String, TreeNode)>, name: &str) -> (r: usize)
    ensures
        r == name_place(child_views(children@), name@, 0),
        r <= children@.len(),
{
    let ghost views = child_views(children@);
    proof {
        child_views_index(children@);
    }
    let mut i: usize = 0;
    while i < children.len()
        invariant
            i <= children@.len(),
            views == child_views(children@),
            views.len() == children@.len(),
            forall|j: int|
                0 <= j < children@.len() ==> #[trigger] views[j] == (
                    children@[j].0@,
                    tree_view(children@[j].1),
                ),
            name_place(views, name@, 0) == name_place(views, name@, i as int),
        decreases children@.len() - i,
    {
        assert(views[i as int] == (children@[i as int].0@, tree_view(children@[i as int].1)));
        if !order::less(children[i].0.as_str(), name) {
            return i;
        }
        i = i + 1;
    }
    i
}

fn insert_parts(node: &mut TreeNode, parts: &Vec<String>, from: usize, entry_index: usize)
    requires
        from <= parts@.len(),
    ensures
        tree_view(*final(node)) == with_entry(
            tree_view(*old(node)),
            text::texts(parts@).skip(from as int),
            entry_index,
        ),
    decreases parts@.len() - from,
{
    let ghost all = text::texts(parts@);
    let ghost rest = all.skip(from as int);
    if from == parts.len() {
        node.entry_index = Some(entry_index);
        return;
    }
    let ghost before = *node;
    let ghost views = child_views(before.children@);
    proof {
        child_views_index(before.children@);
        assert(rest[0] == parts@[from as int]@);
        assert(rest.skip(1) =~= all.skip(from + 1));
    }
    let i = find_child(&node.children, parts[from].as_str());
    if i < node.children.len() && text::same(
        node.children[i].0.as_str(),
        parts[from].as_str(),
    ) {
        let mut child = TreeNode { children: Vec::new(), entry_index: None };
        std::mem::swap(&mut node.children[i].1, &mut child);
        assert(tree_view(child) == views[i as int].1);
        insert_parts(&mut child, parts, from + 1, entry_index);
        std::mem::swap(&mut node.children[i].1, &mut child);
        proof {
            child_views_index(node.children@);
            let want = with_entry(tree_view(before), rest, entry_index).children;
            assert forall|j: int| 0 <= j < node.children@.len() implies #[trigger] child_views(
                node.children@,
            )[j] == want[j] by {
                if j != i {
                    assert(node.children@[j] == before.children@[j]);
                }
            }
            assert(child_views(node.children@) =~= want);
        }
    } else {
        let mut child = TreeNode { children: Vec::new(), entry_index: None };
        assert(tree_view(child).children =~= Seq::<(Seq<char>, TreeNodeView)>::empty());
        insert_parts(&mut child, parts, from + 1, entry_index);
        let ghost added = child;
        node.children.insert(i, (parts[from].clone(), child));
        proof {
            child_views_index(node.children@);
            let want = with_entry(tree_view(before), rest, entry_index).children;
            assert(want == views.insert(i as int, (rest[0], tree_view(added))));
            assert forall|j: int| 0 <= j < node.children@.len() implies #[trigger] child_views(
                node.children@,
            )[j] == want[j] by {
                if j < i {
                    assert(node.children@[j] == before.children@[j]);
                } else if j > i {
                    assert(node.children@[j] == before.children@[j - 1]);
                }
            }
            assert(child_views(node.children@) =~= want);
        }
    }
}

/// Adds an entry to the tree, under its path.
pub fn insert_entry(root: &mut TreeNode, path: &str, entry_index: usize)
    ensures
        tree_view(*final(root)) == with_entry(
            tree_view(*old(root)),
            text::pieces(path@, '/'),
            entry_index,
        ),
{
    let parts = text::split(path, '/');
    assert(text::texts(parts@).skip(0) =~= text::texts(parts@));
    insert_parts(root, &parts, 0, entry_index);
}

/// The paths of the entries.
pub open spec fn entry_paths(entries: Seq<changes::StatusEntryView>) -> Seq<Seq<char>> {
    Seq::new(entries.len(), |i: int| entries[i].path)
}

/// The tree of the entries.
pub fn build_tree(entries: &Vec<StatusEntry>) -> (r: TreeNode)
    ensures
        tree_view(r) == tree_of(
            entry_paths(changes::entry_views(entries@)),
            entries@.len() as int,
        ),
{
    let ghost paths = entry_paths(changes::entry_views(entries@));
    let mut root = TreeNode { children: Vec::new(), entry_index: None };
    assert(tree_view(root).children =~= Seq::<(Seq<char>, TreeNodeView)>::empty());
    let mut i: usize = 0;
    while i < entries.len()
        invariant
            i <= entries@.len(),
            paths == entry_paths(changes::entry_views(entries@)),
            tree_view(root) == tree_of(paths, i as int),
        decreases entries@.len() - i,
    {
        assert(paths[i as int] == entries@[i as int].path@);
        insert_entry(&mut root, entries[i].path.as_str(), i);
        i = i + 1;
    }
    root
}

pub open spec fn number_order() -> spec_fn(usize, usize) -> bool {
    |a: usize, b: usize| a < b
}

/// The entries at and under a node, in order.
pub open spec fn indexes(n: TreeNodeView) -> Seq<usize>
    decreases n, 1int, 0int,
{
    order::arranged(
        (match n.entry_index {
            Some(i) => seq![i],
            None => seq![],
        }) + indexes_under(n, n.children.len() as int),
        number_order(),
    )
}

/// The entries under the first `k` children of a node.
pub open spec fn indexes_under(n: TreeNodeView, k: int) -> Seq<usize>
    decreases n, 0int, k
    when 0 <= k <= n.children.len()
{
    if k <= 0 {
        Seq::empty()
    } else {
        indexes_under(n, k - 1) + indexes(n.children[k - 1].1)
    }
}

fn sort_numbers(v: &mut Vec<usize>)
    ensures
        final(v)@ == order::arranged(old(v)@, number_order()),
{
    let ghost before = v@;
    let ghost same = |n: usize| n;
    let comes_first = |a: &usize, b: &usize| -> (r: bool)
        ensures
            r == (*a < *b),
        { *a < *b };
    order::sort_by::<usize, usize, _>(v, comes_first, Ghost(same), Ghost(number_order()));
    proof {
        assert(v@.map_values(same) =~= v@);
        assert(before.map_values(same) =~= before);
    }
}

/// The entries at and under a node, in order.
pub fn collect_entry_indexes(node: &TreeNode) -> (r: Vec<usize>)
    ensures
        r@ == indexes(tree_view(*node)),
    decreases node,
{
    let ghost view = tree_view(*node);
    let mut found: Vec<usize> = Vec::new();
    match node.entry_index {
        Some(i) => {
            found.push(i);
        },
        None => {},
    }
    let ghost own = match view.entry_index {
        Some(i) => seq![i],
        None => seq![],
    };
    assert(found@ =~= own);
    let mut k: usize = 0;
    proof {
        child_views_index(node.children@);
        assert(own + indexes_under(view, 0) =~= own);
    }
    while k < node.children.len()
        invariant
            k <= node.children@.len(),
            view == tree_view(*node),
            view.children.len() == node.children@.len(),
            forall|j: int|
                0 <= j < node.children@.len() ==> #[trigger] view.children[j] == (
                    node.children@[j].0@,
                    tree_view(node.children@[j].1),
                ),
            found@ == own + indexes_under(view, k as int),
        decreases node.children@.len() - k,
    {
        let child = &node.children[k].1;
        proof {
            assert(view.children[k as int].1 == tree_view(*child));
            assert(decreases_to!(node => node.children));
            assert(decreases_to!(node.children => node.children@));
            assert(decreases_to!(node.children@ => node.children@[k as int]));
            assert(decreases_to!(node.children@[k as int] => node.children@[k as int].1));
        }
        let mut more = collect_entry_indexes(child);
        let ghost added = more@;
        found.append(&mut more);
        assert(found@ =~= own + indexes_under(view, k + 1));
        k = k + 1;
    }
    sort_numbers(&mut found);
    found
}

/// A row of the tree.
#[derive(Debug)]
pub struct TreeRow {
    pub path: String,
    pub is_dir: bool,
    pub is_expanded: bool,
    pub has_children: bool,
    pub label: String,
    pub entry_indexes: Vec<usize>,
}

pub ghost struct RowView {
    pub path: Seq<char>,
    pub is_dir: bool,
    pub is_expanded: bool,
    pub has_children: bool,
    pub label: Seq<char>,
    pub entry_indexes: Seq<usize>,
}

impl View for TreeRow {
    type V = RowView;

    open spec fn view(&self) -> RowView {
        RowView {
            path: self.path@,
            is_dir: self.is_dir,
            is_expanded: self.is_expanded,
            has_children: self.has_children,
            label: self.label@,
            entry_indexes: self.entry_indexes@,
        }
    }
}

/// What a list of rows shows.
pub open spec fn row_views(v: Seq<TreeRow>) -> Seq<RowView> {
    Seq::new(v.len(), |i: int| v[i]@)
}

/// The sign for how a file is changed.
pub open spec fn icon(e: changes::StatusEntryView) -> Seq<char> {
    if e.deleted {
        "✖"@
    } else if e.untracked {
        "✚"@
    } else {
        "●"@
    }
}

pub fn status_icon(entry: &StatusEntry) -> (r: &'static str)
    ensures
        r@ == icon(entry@),
{
    if entry.deleted {
        "✖"
    } else if entry.untracked {
        "✚"
    } else {
        "●"
    }
}

/// Whether one of the entries with these numbers is as said.
pub open spec fn any_entry(
    indexes: Seq<usize>,
    entries: Seq<changes::StatusEntryView>,
    what: spec_fn(changes::StatusEntryView) -> bool,
) -> bool {
    exists|i: int|
        0 <= i < indexes.len() && #[trigger] indexes[i] < entries.len() && what(
            entries[indexes[i] as int],
        )
}

pub open spec fn is_deleted() -> spec_fn(changes::StatusEntryView) -> bool {
    |e: changes::StatusEntryView| e.deleted
}

pub open spec fn is_untracked() -> spec_fn(changes::StatusEntryView) -> bool {
    |e: changes::StatusEntryView| e.untracked
}

pub open spec fn is_modified() -> spec_fn(changes::StatusEntryView) -> bool {
    |e: changes::StatusEntryView| !e.untracked && !e.deleted
}

/// Which sorts of change there are among some entries.
pub fn sorts_of_change(indexes: &Vec<usize>, entries: &Vec<StatusEntry>) -> (r: (
    bool,
    bool,
    bool,
))
    ensures
        r.0 == any_entry(indexes@, changes::entry_views(entries@), is_deleted()),
        r.1 == any_entry(indexes@, changes::entry_views(entries@), is_untracked()),
        r.2 == any_entry(indexes@, changes::entry_views(entries@), is_modified()),
{
    let ghost all = changes::entry_views(entries@);
    let mut deleted = false;
    let mut untracked = false;
    let mut modified = false;
    let mut i: usize = 0;
    while i < indexes.len()
        invariant
            i <= indexes@.len(),
            all == changes::entry_views(entries@),
            deleted == exists|j: int|
                0 <= j < i && #[trigger] indexes@[j] < all.len() && is_deleted()(
                    all[indexes@[j] as int],
                ),
            untracked == exists|j: int|
                0 <= j < i && #[trigger] indexes@[j] < all.len() && is_untracked()(
                    all[indexes@[j] as int],
                ),
            modified == exists|j: int|
                0 <= j < i && #[trigger] indexes@[j] < all.len() && is_modified()(
                    all[indexes@[j] as int],
                ),
        decreases indexes@.len() - i,
    {
        let index = indexes[i];
        if index < entries.len() {
            let entry = &entries[index];
            assert(all[indexes@[i as int] as int] == entry@);
            deleted = deleted || entry.deleted;
            untracked = untracked || entry.untracked;
            modified = modified || (!entry.untracked && !entry.deleted);
        }
        i = i + 1;
    }
    (deleted, untracked, modified)
}

/// The sign for how the files of a directory are changed.
pub open spec fn dir_icon(indexes: Seq<usize>, entries: Seq<changes::StatusEntryView>) -> Seq<char> {
    if any_entry(indexes, entries, is_deleted()) {
        "✖"@
    } else if any_entry(indexes, entries, is_untracked()) {
        "✚"@
    } else if any_entry(indexes, entries, is_modified()) {
        "●"@
    } else {
        "·"@
    }
}

pub fn status_icon_for_indexes(indexes: &Vec<usize>, entries: &Vec<StatusEntry>) -> (r:
    &'static str)
    ensures
        r@ == dir_icon(indexes@, changes::entry_views(entries@)),
{
    let (deleted, untracked, modified) = sorts_of_change(indexes, entries);
    if deleted {
        "✖"
    } else if untracked {
        "✚"
    } else if modified {
        "●"
    } else {
        "·"
    }
}

/// What every row of a part of the tree is drawn with.
pub ghost struct Drawing {
    pub entries: Seq<changes::StatusEntryView>,
    pub expanded: Set<Seq<char>>,
}

/// What joins a node to the one above it.
pub open spec fn connector(is_root: bool, is_last: bool) -> Seq<char> {
    if is_root {
        ""@
    } else if is_last {
        "└─ "@
    } else {
        "├─ "@
    }
}

/// What stands before the nodes under a node.
pub open spec fn prefix_under(visual_prefix: Seq<char>, is_root: bool, is_last: bool) -> Seq<char> {
    if is_root {
        Seq::empty()
    } else if is_last {
        visual_prefix + "   "@
    } else {
        visual_prefix + "│  "@
    }
}

/// The path of a name in a directory.
pub open spec fn path_in(path_prefix: Seq<char>, name: Seq<char>) -> Seq<char> {
    if path_prefix.len() == 0 {
        name
    } else {
        path_prefix + "/"@ + name
    }
}

/// The sign for whether a directory is opened.
pub open spec fn fold_mark(has_children: bool, is_expanded: bool) -> Seq<char> {
    if has_children {
        if is_expanded {
            "▾"@
        } else {
            "▸"@
        }
    } else {
        " "@
    }
}

/// The row of a file or a directory.
pub open spec fn row_of(
    name: Seq<char>,
    child: TreeNodeView,
    visual_prefix: Seq<char>,
    path: Seq<char>,
    joint: Seq<char>,
    d: Drawing,
) -> RowView {
    match child.entry_index {
        Some(i) => RowView {
            path,
            is_dir: false,
            is_expanded: false,
            has_children: false,
            label: visual_prefix + joint + icon(d.entries[i as int]) + " "@ + name,
            entry_indexes: seq![i],
        },
        None => {
            let has_children = child.children.len() > 0;
            let is_expanded = d.expanded.contains(path);
            RowView {
                path,
                is_dir: true,
                is_expanded,
                has_children,
                label: visual_prefix + joint + dir_icon(indexes(child), d.entries) + " "@
                    + fold_mark(has_children, is_expanded) + " "@ + name + "/"@,
                entry_indexes: indexes(child),
            }
        },
    }
}

/// The rows of the first `k` children of a node, each followed by what is under it, where it is
/// opened.
pub open spec fn rows_of(
    n: TreeNodeView,
    k: int,
    visual_prefix: Seq<char>,
    path_prefix: Seq<char>,
    is_root: bool,
    d: Drawing,
) -> Seq<RowView>
    decreases n, k
    when 0 <= k <= n.children.len()
{
    if k <= 0 {
        Seq::empty()
    } else {
        let (name, child) = n.children[k - 1];
        let is_last = k == n.children.len();
        let path = path_in(path_prefix, name);
        let row = row_of(name, child, visual_prefix, path, connector(is_root, is_last), d);
        rows_of(n, k - 1, visual_prefix, path_prefix, is_root, d).push(row)
            + if child.children.len() > 0 && d.expanded.contains(path) {
            rows_of(
                n.children[k - 1].1,
                child.children.len() as int,
                prefix_under(visual_prefix, is_root, is_last),
                path,
                false,
                d,
            )
        } else {
            Seq::empty()
        }
    }
}

/// Whether the entries at and under a node are among the first `count`.
pub open spec fn within(n: TreeNodeView, count: int) -> bool
    decreases n,
{
    &&& n.entry_index matches Some(i) ==> i < count
    &&& forall|k: int|
        0 <= k < n.children.len() ==> within((#[trigger] n.children[k]).1, count)
}

/// Whether the entries that are named by the rows of files, under the directories that are opened, are
/// among the first `count`.
pub open spec fn drawable(
    n: TreeNodeView,
    path_prefix: Seq<char>,
    expanded: Set<Seq<char>>,
    count: int,
) -> bool
    decreases n,
{
    forall|k: int|
        0 <= k < n.children.len() ==> {
            let path = path_in(path_prefix, (#[trigger] n.children[k]).0);
            &&& n.children[k].1.entry_index matches Some(i) ==> i < count
            &&& n.children[k].1.children.len() > 0 && expanded.contains(path) ==> drawable(
                n.children[k].1,
                path,
                expanded,
                count,
            )
        }
}

/// A tree whose entries are all there can be drawn, whatever is opened.
pub proof fn whole_trees_are_drawable(
    n: TreeNodeView,
    path_prefix: Seq<char>,
    expanded: Set<Seq<char>>,
    count: int,
)
    requires
        within(n, count),
    ensures
        drawable(n, path_prefix, expanded, count),
    decreases n,
{
    assert forall|k: int| 0 <= k < n.children.len() implies {
        let path = path_in(path_prefix, (#[trigger] n.children[k]).0);
        &&& n.children[k].1.entry_index matches Some(i) ==> i < count
        &&& n.children[k].1.children.len() > 0 && expanded.contains(path) ==> drawable(
            n.children[k].1,
            path,
            expanded,
            count,
        )
    } by {
        assert(within(n.children[k].1, count));
        whole_trees_are_drawable(
            n.children[k].1,
            path_in(path_prefix, n.children[k].0),
            expanded,
            count,
        );
    }
}

/// The row of a file or a directory.
fn make_row(
    name: &str,
    child: &TreeNode,
    visual_prefix: &str,
    path: &str,
    joint: &str,
    expanded: bool,
    entries: &Vec<StatusEntry>,
) -> (r: TreeRow)
    requires
        child.entry_index matches Some(i) ==> i < entries@.len(),
    ensures
        forall|d: Drawing|
            d.entries == changes::entry_views(entries@) && d.expanded.contains(path@) == expanded
                ==> r@ == #[trigger] row_of(
                name@,
                tree_view(*child),
                visual_prefix@,
                path@,
                joint@,
                d,
            ),
{
    proof {
        child_views_index(child.children@);
    }
    let mut label = visual_prefix.to_string();
    label.append(joint);
    match child.entry_index {
        Some(entry_index) => {
            assert(changes::entry_views(entries@)[entry_index as int]
                == entries@[entry_index as int]@);
            label.append(status_icon(&entries[entry_index]));
            label.append(" ");
            label.append(name);
            let mut entry_indexes: Vec<usize> = Vec::new();
            entry_indexes.push(entry_index);
            assert(entry_indexes@ =~= seq![entry_index]);
            TreeRow {
                path: path.to_string(),
                is_dir: false,
                is_expanded: false,
                has_children: false,
                label,
                entry_indexes,
            }
        },
        None => {
            let entry_indexes = collect_entry_indexes(child);
            let has_children = child.children.len() > 0;
            let mark = if has_children {
                if expanded {
                    "▾"
                } else {
                    "▸"
                }
            } else {
                " "
            };
            label.append(status_icon_for_indexes(&entry_indexes, entries));
            label.append(" ");
            label.append(mark);
            label.append(" ");
            label.append(name);
            label.append("/");
            TreeRow {
                path: path.to_string(),
                is_dir: true,
                is_expanded: expanded,
                has_children,
                label,
                entry_indexes,
            }
        },
    }
}

/// The rows of the tree.
pub fn build_tree_rows(
    rows: &mut Vec<TreeRow>,
    node: &TreeNode,
    visual_prefix: &str,
    path_prefix: &str,
    is_root: bool,
    entries: &Vec<StatusEntry>,
    expanded_dirs: &TextSet,
)
    requires
        expanded_dirs.wf(),
        drawable(tree_view(*node), path_prefix@, expanded_dirs@, entries@.len() as int),
    ensures
        row_views(final(rows)@) == row_views(old(rows)@) + rows_of(
            tree_view(*node),
            node.children@.len() as int,
            visual_prefix@,
            path_prefix@,
            is_root,
            (Drawing { entries: changes::entry_views(entries@), expanded: expanded_dirs@ }),
        ),
    decreases node,
{
    let ghost view = tree_view(*node);
    let ghost d = Drawing {
        entries: changes::entry_views(entries@),
        expanded: expanded_dirs@,
    };
    let ghost before = row_views(rows@);
    let child_count = node.children.len();
    let mut k: usize = 0;
    proof {
        child_views_index(node.children@);
        assert(before + rows_of(view, 0, visual_prefix@, path_prefix@, is_root, d) =~= before);
        reveal_strlit("");
        assert(""@ =~= Seq::<char>::empty());
    }
    while k < child_count
        invariant
            k <= child_count,
            child_count == node.children@.len(),
            expanded_dirs.wf(),
            view == tree_view(*node),
            drawable(view, path_prefix@, expanded_dirs@, entries@.len() as int),
            d == (Drawing { entries: changes::entry_views(entries@), expanded: expanded_dirs@ }),
            view.children.len() == node.children@.len(),
            ""@ == Seq::<char>::empty(),
            forall|j: int|
                0 <= j < node.children@.len() ==> #[trigger] view.children[j] == (
                    node.children@[j].0@,
                    tree_view(node.children@[j].1),
                ),
            row_views(rows@) == before + rows_of(
                view,
                k as int,
                visual_prefix@,
                path_prefix@,
                is_root,
                d,
            ),
        decreases child_count - k,
    {
        let name = node.children[k].0.as_str();
        let child = &node.children[k].1;
        let ghost child_view = tree_view(*child);
        assert(view.children[k as int] == (name@, child_view));
        proof {
            child_views_index(child.children@);
            assert(child_view.entry_index matches Some(i) ==> i < entries@.len());
        }
        let is_last = k + 1 == child_count;
        let joint = if is_root {
            ""
        } else if is_last {
            "└─ "
        } else {
            "├─ "
        };
        let path = if text::byte_len(path_prefix) == 0 {
            name.to_string()
        } else {
            let mut p = path_prefix.to_string();
            p.append("/");
            p.append(name);
            p
        };
        let expanded = expanded_dirs.contains(path.as_str());
        assert(joint@ == connector(is_root, is_last));
        assert(path@ == path_in(path_prefix@, name@));
        let row = make_row(name, child, visual_prefix, path.as_str(), joint, expanded, entries);
        let ghost so_far = row_views(rows@);
        let ghost row_view = row@;
        assert(row_view == row_of(
            name@,
            child_view,
            visual_prefix@,
            path@,
            connector(is_root, is_last),
            d,
        ));
        assert(row_views(rows@.push(row)) =~= so_far.push(row_view));
        rows.push(row);
        if child.children.len() > 0 && expanded {
            let under = if is_root {
                String::new()
            } else if is_last {
                text::concat(visual_prefix, "   ")
            } else {
                text::concat(visual_prefix, "│  ")
            };
            assert(under@ =~= prefix_under(visual_prefix@, is_root, is_last));
            proof {
                assert(decreases_to!(node => node.children));
                assert(decreases_to!(node.children => node.children@));
                assert(decreases_to!(node.children@ => node.children@[k as int]));
                assert(decreases_to!(node.children@[k as int] => node.children@[k as int].1));
            }
            build_tree_rows(
                rows,
                child,
                under.as_str(),
                path.as_str(),
                false,
                entries,
                expanded_dirs,
            );
        }
        proof {
            let now = rows_of(view, k as int, visual_prefix@, path_prefix@, is_root, d);
            let next = rows_of(view, k + 1, visual_prefix@, path_prefix@, is_root, d);
            assert(row_views(rows@) =~= before + next);
        }
        k = k + 1;
    }
}

/// Whether the names under each node come in order, none twice.
pub open spec fn in_name_order(n: TreeNodeView) -> bool
    decreases n,
{
    &&& forall|i: int, j: int|
        0 <= i < j < n.children.len() ==> order::precedes(
            (#[trigger] n.children[i]).0,
            (#[trigger] n.children[j]).0,
        )
    &&& forall|i: int| 0 <= i < n.children.len() ==> in_name_order((#[trigger] n.children[i]).1)
}

proof fn name_place_splits(n: TreeNodeView, name: Seq<char>, from: int)
    requires
        in_name_order(n),
        0 <= from <= n.children.len(),
        forall|j: int| 0 <= j < from ==> order::precedes((#[trigger] n.children[j]).0, name),
    ensures
        from <= name_place(n.children, name, from) <= n.children.len(),
        forall|j: int|
            0 <= j < name_place(n.children, name, from) ==> order::precedes(
                (#[trigger] n.children[j]).0,
                name,
            ),
        forall|j: int|
            name_place(n.children, name, from) <= j < n.children.len() ==> !order::precedes(
                (#[trigger] n.children[j]).0,
                name,
            ),
    decreases n.children.len() - from,
{
    if from < n.children.len() && order::precedes(n.children[from].0, name) {
        name_place_splits(n, name, from + 1);
    } else if from < n.children.len() {
        assert forall|j: int| from <= j < n.children.len() implies !order::precedes(
            (#[trigger] n.children[j]).0,
            name,
        ) by {
            if j > from && order::precedes(n.children[j].0, name) {
                assert(order::precedes(n.children[from].0, n.children[j].0));
                order::precedes_transitive(n.children[from].0, n.children[j].0, name);
            }
        }
    }
}

/// The name at a place where it is to go is that name, or comes after it.
proof fn name_after_place(n: TreeNodeView, name: Seq<char>)
    requires
        in_name_order(n),
    ensures
        ({
            let p = name_place(n.children, name, 0);
            &&& 0 <= p <= n.children.len()
            &&& forall|j: int|
                0 <= j < p ==> order::precedes((#[trigger] n.children[j]).0, name)
            &&& forall|j: int|
                p < j < n.children.len() ==> order::precedes(name, (#[trigger] n.children[j]).0)
            &&& p < n.children.len() && n.children[p].0 != name ==> order::precedes(
                name,
                n.children[p].0,
            )
        }),
{
    let p = name_place(n.children, name, 0);
    name_place_splits(n, name, 0);
    if p < n.children.len() {
        order::precedes_total(name, n.children[p].0);
        assert(!order::precedes(n.children[p].0, name));
        assert forall|j: int| p < j < n.children.len() implies order::precedes(
            name,
            (#[trigger] n.children[j]).0,
        ) by {
            assert(order::precedes(n.children[p].0, n.children[j].0));
            if n.children[p].0 != name {
                order::precedes_transitive(name, n.children[p].0, n.children[j].0);
            }
        }
    }
}

proof fn adding_keeps_order(n: TreeNodeView, parts: Seq<Seq<char>>, entry: usize)
    requires
        in_name_order(n),
    ensures
        in_name_order(with_entry(n, parts, entry)),
    decreases parts.len(),
{
    let next = with_entry(n, parts, entry);
    if parts.len() == 0 {
        assert forall|i: int, j: int| 0 <= i < j < next.children.len() implies order::precedes(
            (#[trigger] next.children[i]).0,
            (#[trigger] next.children[j]).0,
        ) by {
            assert(order::precedes(n.children[i].0, n.children[j].0));
        }
    } else {
        let name = parts[0];
        let p = name_place(n.children, name, 0);
        name_after_place(n, name);
        if p < n.children.len() && n.children[p].0 == name {
            assert(in_name_order(n.children[p].1));
            adding_keeps_order(n.children[p].1, parts.skip(1), entry);
            assert forall|i: int, j: int| 0 <= i < j < next.children.len() implies order::precedes(
                (#[trigger] next.children[i]).0,
                (#[trigger] next.children[j]).0,
            ) by {
                assert(order::precedes(n.children[i].0, n.children[j].0));
            }
            assert forall|i: int| 0 <= i < next.children.len() implies in_name_order(
                (#[trigger] next.children[i]).1,
            ) by {
                assert(in_name_order(n.children[i].1));
            }
        } else {
            adding_keeps_order(empty_tree(), parts.skip(1), entry);
            assert forall|i: int, j: int| 0 <= i < j < next.children.len() implies order::precedes(
                (#[trigger] next.children[i]).0,
                (#[trigger] next.children[j]).0,
            ) by {
                if i < p && j < p {
                    assert(order::precedes(n.children[i].0, n.children[j].0));
                } else if i < p && j > p {
                    assert(order::precedes(n.children[i].0, n.children[j - 1].0));
                } else if i > p {
                    assert(order::precedes(n.children[i - 1].0, n.children[j - 1].0));
                } else if j == p {
                    assert(order::precedes(n.children[i].0, name));
                } else {
                    assert(order::precedes(name, n.children[j - 1].0));
                }
            }
            assert forall|i: int| 0 <= i < next.children.len() implies in_name_order(
                (#[trigger] next.children[i]).1,
            ) by {
                if i < p {
                    assert(in_name_order(n.children[i].1));
                } else if i > p {
                    assert(in_name_order(n.children[i - 1].1));
                }
            }
        }
    }
}

/// In the tree of any paths, the names under each node come in order, none twice.
pub proof fn trees_are_in_order(paths: Seq<Seq<char>>, k: int)
    ensures
        in_name_order(tree_of(paths, k)),
    decreases k,
{
    if k > 0 {
        trees_are_in_order(paths, k - 1);
        adding_keeps_order(
            tree_of(paths, k - 1),
            text::pieces(paths[k - 1], '/'),
            (k - 1) as usize,
        );
    }
}

proof fn adding_stays_within(n: TreeNodeView, parts: Seq<Seq<char>>, entry: usize, count: int)
    requires
        within(n, count),
        entry < count,
        in_name_order(n),
    ensures
        within(with_entry(n, parts, entry), count),
    decreases parts.len(),
{
    let next = with_entry(n, parts, entry);
    if parts.len() == 0 {
        assert forall|k: int| 0 <= k < next.children.len() implies within(
            (#[trigger] next.children[k]).1,
            count,
        ) by {
            assert(within(n.children[k].1, count));
        }
    } else {
        let p = name_place(n.children, parts[0], 0);
        name_after_place(n, parts[0]);
        if p < n.children.len() && n.children[p].0 == parts[0] {
            assert(within(n.children[p].1, count));
            assert(in_name_order(n.children[p].1));
            adding_stays_within(n.children[p].1, parts.skip(1), entry, count);
            assert forall|k: int| 0 <= k < next.children.len() implies within(
                (#[trigger] next.children[k]).1,
                count,
            ) by {
                assert(within(n.children[k].1, count));
            }
        } else {
            adding_stays_within(empty_tree(), parts.skip(1), entry, count);
            assert forall|k: int| 0 <= k < next.children.len() implies within(
                (#[trigger] next.children[k]).1,
                count,
            ) by {
                if k < p {
                    assert(within(n.children[k].1, count));
                } else if k > p {
                    assert(within(n.children[k - 1].1, count));
                }
            }
        }
    }
}

/// The tree of some paths holds the numbers of these paths only.
pub proof fn trees_hold_their_paths_only(paths: Seq<Seq<char>>, k: int, count: int)
    requires
        k <= count <= usize::MAX,
    ensures
        within(tree_of(paths, k), count),
    decreases k,
{
    if k > 0 {
        trees_hold_their_paths_only(paths, k - 1, count);
        trees_are_in_order(paths, k - 1);
        adding_stays_within(
            tree_of(paths, k - 1),
            text::pieces(paths[k - 1], '/'),
            (k - 1) as usize,
            count,
        );
    }
}

/// The entries at and under a node are within the bound that the node is within.
proof fn indexes_stay_within(n: TreeNodeView, count: int, x: usize)
    requires
        within(n, count),
        indexes(n).contains(x),
    ensures
        x < count,
    decreases n, 1int, 0int,
{
    let own = match n.entry_index {
        Some(i) => seq![i],
        None => seq![],
    };
    let all = own + indexes_under(n, n.children.len() as int);
    order::arranged_adds_nothing(all, number_order(), x);
    let j = choose|j: int| 0 <= j < all.len() && all[j] == x;
    if j >= own.len() {
        assert(indexes_under(n, n.children.len() as int)[j - own.len()] == x);
        under_stays_within(n, n.children.len() as int, count, x);
    }
}

proof fn under_stays_within(n: TreeNodeView, k: int, count: int, x: usize)
    requires
        0 <= k <= n.children.len(),
        within(n, count),
        indexes_under(n, k).contains(x),
    ensures
        x < count,
    decreases n, 0int, k,
{
    if k > 0 {
        let before = indexes_under(n, k - 1);
        let here = indexes(n.children[k - 1].1);
        let j = choose|j: int| 0 <= j < (before + here).len() && (before + here)[j] == x;
        assert(within(n.children[k - 1].1, count));
        if j < before.len() {
            assert(before[j] == x);
            under_stays_within(n, k - 1, count, x);
        } else {
            assert(here[j - before.len()] == x);
            indexes_stay_within(n.children[k - 1].1, count, x);
        }
    }
}

/// Whether the rows name entries among the first `count` only.
pub open spec fn point_within(rows: Seq<RowView>, count: int) -> bool {
    forall|i: int, j: int|
        0 <= i < rows.len() && 0 <= j < rows[i].entry_indexes.len()
            ==> #[trigger] rows[i].entry_indexes[j] < count
}

/// The rows of a tree name the entries that the tree holds only.
pub proof fn rows_point_within(
    n: TreeNodeView,
    k: int,
    visual_prefix: Seq<char>,
    path_prefix: Seq<char>,
    is_root: bool,
    d: Drawing,
    count: int,
)
    requires
        0 <= k <= n.children.len(),
        within(n, count),
    ensures
        point_within(rows_of(n, k, visual_prefix, path_prefix, is_root, d), count),
    decreases n, k,
{
    if k > 0 {
        let (name, child) = n.children[k - 1];
        let is_last = k == n.children.len();
        let path = path_in(path_prefix, name);
        let row = row_of(name, child, visual_prefix, path, connector(is_root, is_last), d);
        let front = rows_of(n, k - 1, visual_prefix, path_prefix, is_root, d);
        rows_point_within(n, k - 1, visual_prefix, path_prefix, is_root, d, count);
        let under = if child.children.len() > 0 && d.expanded.contains(path) {
            rows_of(
                n.children[k - 1].1,
                child.children.len() as int,
                prefix_under(visual_prefix, is_root, is_last),
                path,
                false,
                d,
            )
        } else {
            Seq::empty()
        };
        assert(within(n.children[k - 1].1, count));
        rows_point_within(
            n.children[k - 1].1,
            child.children.len() as int,
            prefix_under(visual_prefix, is_root, is_last),
            path,
            false,
            d,
            count,
        );
        let all = rows_of(n, k, visual_prefix, path_prefix, is_root, d);
        assert(all == front.push(row) + under);
        assert forall|i: int, j: int|
            0 <= i < all.len() && 0 <= j < all[i].entry_indexes.len() implies #[trigger] all[i].entry_indexes[j]
            < count by {
            if i < front.len() {
                assert(all[i] == front[i]);
                assert(front[i].entry_indexes[j] < count);
            } else if i == front.len() {
                assert(all[i] == row);
                if child.entry_index is None {
                    let x = row.entry_indexes[j];
                    assert(indexes(child)[j] == x);
                    indexes_stay_within(child, count, x);
                }
            } else {
                assert(all[i] == under[i - front.len() - 1]);
                assert(under[i - front.len() - 1].entry_indexes[j] < count);
            }
        }
    }
}

/// Where the first of several pieces is empty, the text begins with the separator.
pub proof fn first_piece_is_empty(s: Seq<char>, sep: char)
    requires
        text::pieces(s, sep).len() > 1,
        text::pieces(s, sep)[0].len() == 0,
    ensures
        s[0] == sep,
    decreases s.len(),
{
    let front = s.drop_last();
    text::pieces_nonempty(front, sep);
    if text::pieces(front, sep).len() > 1 {
        first_piece_is_empty(front, sep);
    } else if front.len() > 0 {
        text::pieces_join_back(front, sep);
        assert(text::joined(text::pieces(front, sep), seq![sep]) == text::pieces(front, sep)[0]);
    }
}

/// Whether nothing is under a nameless node at the top.
spec fn nameless_are_bare(n: TreeNodeView) -> bool {
    forall|k: int|
        0 <= k < n.children.len() && (#[trigger] n.children[k]).0.len() == 0
            ==> n.children[k].1.children.len() == 0
}

proof fn trees_have_names(paths: Seq<Seq<char>>, k: int)
    requires
        k <= paths.len(),
        forall|i: int| 0 <= i < paths.len() ==> !text::begins(#[trigger] paths[i], "/"@),
    ensures
        nameless_are_bare(tree_of(paths, k)),
    decreases k,
{
    if k > 0 {
        trees_have_names(paths, k - 1);
        let n = tree_of(paths, k - 1);
        let path = paths[k - 1];
        let parts = text::pieces(path, '/');
        text::pieces_nonempty(path, '/');
        if parts.len() > 1 && parts[0].len() == 0 {
            first_piece_is_empty(path, '/');
            reveal_strlit("/");
            assert(path.take(1) =~= "/"@);
            assert(text::begins(path, "/"@));
        }
        let next = with_entry(n, parts, (k - 1) as usize);
        trees_are_in_order(paths, k - 1);
        name_after_place(n, parts[0]);
        let p = name_place(n.children, parts[0], 0);
        assert forall|j: int|
            0 <= j < next.children.len() && (#[trigger] next.children[j]).0.len()
                == 0 implies next.children[j].1.children.len() == 0 by {
            if j == p {
                let under = if p < n.children.len() && n.children[p].0 == parts[0] {
                    n.children[p].1
                } else {
                    empty_tree()
                };
                assert(with_entry(under, parts.skip(1), (k - 1) as usize).children
                    == under.children);
            }
            if p < n.children.len() && n.children[p].0 == parts[0] {
                assert(n.children[j].0 == next.children[j].0);
            } else if j < p {
                assert(n.children[j].0 == next.children[j].0);
            } else if j > p {
                assert(n.children[j - 1].0 == next.children[j].0);
            }
        }
    }
}

/// The rows under a directory have longer paths than the directory.
proof fn rows_under_are_longer(
    n: TreeNodeView,
    k: int,
    visual_prefix: Seq<char>,
    path_prefix: Seq<char>,
    d: Drawing,
    i: int,
)
    requires
        0 <= k <= n.children.len(),
        path_prefix.len() > 0,
        0 <= i < rows_of(n, k, visual_prefix, path_prefix, false, d).len(),
    ensures
        rows_of(n, k, visual_prefix, path_prefix, false, d)[i].path.len() > path_prefix.len(),
    decreases n, k,
{
    reveal_strlit("/");
    if k > 0 {
        let (name, child) = n.children[k - 1];
        let is_last = k == n.children.len();
        let path = path_in(path_prefix, name);
        let front = rows_of(n, k - 1, visual_prefix, path_prefix, false, d);
        if i < front.len() {
            rows_under_are_longer(n, k - 1, visual_prefix, path_prefix, d, i);
        } else if i > front.len() {
            rows_under_are_longer(
                n.children[k - 1].1,
                child.children.len() as int,
                prefix_under(visual_prefix, false, is_last),
                path,
                d,
                i - front.len() - 1,
            );
        }
    }
}

/// Opening or closing what stands at a path keeps the row with that path.
proof fn folding_keeps_path(
    n: TreeNodeView,
    k: int,
    visual_prefix: Seq<char>,
    path_prefix: Seq<char>,
    is_root: bool,
    d: Drawing,
    e: Drawing,
    i: int,
) -> (j: int)
    requires
        0 <= k <= n.children.len(),
        path_prefix.len() > 0 || nameless_are_bare(n),
        0 <= i < rows_of(n, k, visual_prefix, path_prefix, is_root, d).len(),
        ({
            let p = rows_of(n, k, visual_prefix, path_prefix, is_root, d)[i].path;
            forall|q: Seq<char>| q != p ==> (#[trigger] e.expanded.contains(q) == d.expanded.contains(q))
        }),
    ensures
        0 <= j < rows_of(n, k, visual_prefix, path_prefix, is_root, e).len(),
        rows_of(n, k, visual_prefix, path_prefix, is_root, e)[j].path == rows_of(
            n,
            k,
            visual_prefix,
            path_prefix,
            is_root,
            d,
        )[i].path,
    decreases n, k,
{
    let (name, child) = n.children[k - 1];
    let is_last = k == n.children.len();
    let path = path_in(path_prefix, name);
    let front = rows_of(n, k - 1, visual_prefix, path_prefix, is_root, d);
    let other = rows_of(n, k - 1, visual_prefix, path_prefix, is_root, e);
    let all = rows_of(n, k, visual_prefix, path_prefix, is_root, d);
    if i < front.len() {
        assert(all[i] == front[i]);
        folding_keeps_path(n, k - 1, visual_prefix, path_prefix, is_root, d, e, i)
    } else if i == front.len() {
        other.len() as int
    } else {
        let under = rows_of(
            n.children[k - 1].1,
            child.children.len() as int,
            prefix_under(visual_prefix, is_root, is_last),
            path,
            false,
            d,
        );
        let m = i - front.len() - 1;
        assert(all[i] == under[m]);
        reveal_strlit("/");
        assert(path.len() > 0);
        rows_under_are_longer(
            n.children[k - 1].1,
            child.children.len() as int,
            prefix_under(visual_prefix, is_root, is_last),
            path,
            d,
            m,
        );
        assert(e.expanded.contains(path) == d.expanded.contains(path));
        let j = folding_keeps_path(
            n.children[k - 1].1,
            child.children.len() as int,
            prefix_under(visual_prefix, is_root, is_last),
            path,
            false,
            d,
            e,
            m,
        );
        other.len() + 1 + j
    }
}

/// Opening or closing a directory of the tree of some paths, none of which begins with a slash,
/// keeps its row.
pub proof fn folding_keeps_row(
    paths: Seq<Seq<char>>,
    entries: Seq<changes::StatusEntryView>,
    before: Set<Seq<char>>,
    after: Set<Seq<char>>,
    i: int,
) -> (j: int)
    requires
        forall|i: int| 0 <= i < paths.len() ==> !text::begins(#[trigger] paths[i], "/"@),
        0 <= i < top_rows(paths, entries, before).len(),
        ({
            let p = top_rows(paths, entries, before)[i].path;
            forall|q: Seq<char>| q != p ==> (#[trigger] after.contains(q) == before.contains(q))
        }),
    ensures
        0 <= j < top_rows(paths, entries, after).len(),
        top_rows(paths, entries, after)[j].path == top_rows(paths, entries, before)[i].path,
{
    let tree = tree_of(paths, paths.len() as int);
    trees_have_names(paths, paths.len() as int);
    folding_keeps_path(
        tree,
        tree.children.len() as int,
        Seq::empty(),
        Seq::empty(),
        true,
        (Drawing { entries, expanded: before }),
        (Drawing { entries, expanded: after }),
        i,
    )
}

/// The rows of the tree of some paths.
pub open spec fn top_rows(
    paths: Seq<Seq<char>>,
    entries: Seq<changes::StatusEntryView>,
    expanded: Set<Seq<char>>,
) -> Seq<RowView> {
    let tree = tree_of(paths, paths.len() as int);
    rows_of(
        tree,
        tree.children.len() as int,
        Seq::empty(),
        Seq::empty(),
        true,
        (Drawing { entries, expanded }),
    )
}

/// The entry that a path of parts leads to.
pub open spec fn entry_at(n: TreeNodeView, parts: Seq<Seq<char>>) -> Option<usize>
    decreases parts.len(),
{
    if parts.len() == 0 {
        n.entry_index
    } else {
        let p = name_place(n.children, parts[0], 0);
        if p < n.children.len() && n.children[p].0 == parts[0] {
            entry_at(n.children[p].1, parts.skip(1))
        } else {
            None
        }
    }
}

proof fn place_is(n: TreeNodeView, name: Seq<char>, p: int)
    requires
        in_name_order(n),
        0 <= p <= n.children.len(),
        forall|j: int| 0 <= j < p ==> order::precedes((#[trigger] n.children[j]).0, name),
        p < n.children.len() ==> !order::precedes(n.children[p].0, name),
    ensures
        name_place(n.children, name, 0) == p,
{
    name_place_splits(n, name, 0);
    let q = name_place(n.children, name, 0);
    if q < p {
        assert(order::precedes(n.children[q].0, name));
    } else if p < q {
        assert(order::precedes(n.children[p].0, name));
    }
}

proof fn empty_holds_none(parts: Seq<Seq<char>>)
    ensures
        entry_at(empty_tree(), parts) == None::<usize>,
{
}

/// An entry that was added is found at its path, and every other where it was.
pub proof fn adding_an_entry(
    n: TreeNodeView,
    parts: Seq<Seq<char>>,
    entry: usize,
    other: Seq<Seq<char>>,
)
    requires
        in_name_order(n),
    ensures
        entry_at(with_entry(n, parts, entry), parts) == Some(entry),
        other != parts ==> entry_at(with_entry(n, parts, entry), other) == entry_at(n, other),
    decreases parts.len(),
{
    let next = with_entry(n, parts, entry);
    adding_keeps_order(n, parts, entry);
    if parts.len() == 0 {
        if other.len() == 0 {
            assert(other =~= parts);
        } else {
            assert(next.children == n.children);
        }
    } else {
        let name = parts[0];
        let p = name_place(n.children, name, 0);
        name_after_place(n, name);
        order::precedes_irreflexive(name);
        if p < n.children.len() && n.children[p].0 == name {
            assert(in_name_order(n.children[p].1));
            place_is(next, name, p);
            adding_an_entry(n.children[p].1, parts.skip(1), entry, other.skip(1));
            if other.len() > 0 {
                let q = name_place(n.children, other[0], 0);
                name_place_splits(n, other[0], 0);
                assert forall|j: int| 0 <= j < q implies order::precedes(
                    (#[trigger] next.children[j]).0,
                    other[0],
                ) by {
                    assert(order::precedes(n.children[j].0, other[0]));
                }
                if q < n.children.len() {
                    assert(!order::precedes(n.children[q].0, other[0]));
                }
                place_is(next, other[0], q);
                if other != parts && other[0] == name {
                    assert(other.skip(1) != parts.skip(1)) by {
                        if other.skip(1) == parts.skip(1) {
                            assert(other =~= seq![name] + other.skip(1));
                            assert(parts =~= seq![name] + parts.skip(1));
                        }
                    }
                }
            }
        } else {
            adding_an_entry(empty_tree(), parts.skip(1), entry, other.skip(1));
            empty_holds_none(other.skip(1));
            assert(next.children[p] == (name, with_entry(empty_tree(), parts.skip(1), entry)));
            assert forall|j: int| 0 <= j < p implies order::precedes(
                (#[trigger] next.children[j]).0,
                name,
            ) by {
                assert(next.children[j] == n.children[j]);
            }
            place_is(next, name, p);
            if other.len() > 0 {
                let o = other[0];
                let q = name_place(n.children, o, 0);
                name_place_splits(n, o, 0);
                if o == name {
                    if other != parts {
                        assert(other.skip(1) != parts.skip(1)) by {
                            if other.skip(1) == parts.skip(1) {
                                assert(other =~= seq![name] + other.skip(1));
                                assert(parts =~= seq![name] + parts.skip(1));
                            }
                        }
                        assert(entry_at(next, other) == None::<usize>);
                        assert(entry_at(n, other) == None::<usize>);
                    }
                } else {
                    order::precedes_total(o, name);
                    let r = if order::precedes(name, o) {
                        q + 1
                    } else {
                        q
                    };
                    if order::precedes(name, o) {
                        assert(p <= q) by {
                            if q < p {
                                assert(order::precedes(n.children[q].0, name));
                                order::precedes_transitive(n.children[q].0, name, o);
                            }
                        }
                    } else {
                        assert(q <= p) by {
                            if p < q {
                                assert(order::precedes(n.children[p].0, o));
                                order::precedes_transitive(n.children[p].0, o, name);
                                order::precedes_transitive(name, n.children[p].0, name);
                            }
                        }
                    }
                    assert forall|j: int| 0 <= j < r implies order::precedes(
                        (#[trigger] next.children[j]).0,
                        o,
                    ) by {
                        if j < p {
                            assert(next.children[j] == n.children[j]);
                            if j >= q {
                                assert(order::precedes(n.children[j].0, name));
                                order::precedes_transitive(n.children[j].0, name, o);
                            } else {
                                assert(order::precedes(n.children[j].0, o));
                            }
                        } else if j > p {
                            assert(next.children[j] == n.children[j - 1]);
                            assert(order::precedes(n.children[j - 1].0, o));
                        }
                    }
                    if r < next.children.len() {
                        assert(!order::precedes(next.children[r].0, o)) by {
                            if r < p {
                                assert(next.children[r] == n.children[r]);
                            } else if r == p {
                                assert(!order::precedes(name, o));
                            } else {
                                assert(next.children[r] == n.children[r - 1]);
                            }
                        }
                    }
                    place_is(next, o, r);
                    if r < next.children.len() {
                        if r < p {
                            assert(next.children[r] == n.children[q]);
                        } else if r > p {
                            assert(next.children[r] == n.children[q]);
                        } else {
                            assert(next.children[r].0 == name);
                            if q < n.children.len() {
                                assert(n.children[q].0 != o) by {
                                    if n.children[q].0 == o {
                                        assert(q == p);
                                        assert(order::precedes(name, n.children[p].0));
                                    }
                                }
                            }
                        }
                    }
                }
            }
        }
    }
}

/// Each changed file is in the tree, at its path, as long as no two have one path.
pub proof fn every_entry_is_in_the_tree(paths: Seq<Seq<char>>, k: int, i: int)
    requires
        0 <= i < k <= paths.len() <= usize::MAX,
        paths.no_duplicates(),
    ensures
        entry_at(tree_of(paths, k), text::pieces(paths[i], '/')) == Some(i as usize),
    decreases k,
{
    let last = text::pieces(paths[k - 1], '/');
    let own = text::pieces(paths[i], '/');
    trees_are_in_order(paths, k - 1);
    adding_an_entry(tree_of(paths, k - 1), last, (k - 1) as usize, own);
    if i < k - 1 {
        every_entry_is_in_the_tree(paths, k - 1, i);
        assert(own != last) by {
            text::pieces_join_back(paths[i], '/');
            text::pieces_join_back(paths[k - 1], '/');
            assert(paths[i] != paths[k - 1]);
        }
    }
}

// ---------------------------------------------------------------------------------------------
// What the rows of the tree stand for

/// The node that a row of names leads to.
pub open spec fn node_at(n: TreeNodeView, names: Seq<Seq<char>>) -> Option<TreeNodeView>
    decreases names.len(),
{
    if names.len() == 0 {
        Some(n)
    } else {
        let p = name_place(n.children, names[0], 0);
        if p < n.children.len() && n.children[p].0 == names[0] {
            node_at(n.children[p].1, names.skip(1))
        } else {
            None
        }
    }
}

/// The path of what the names lead to, from the path where they begin.
pub open spec fn path_under(from: Seq<char>, names: Seq<Seq<char>>) -> Seq<char>
    decreases names.len(),
{
    if names.len() == 0 {
        from
    } else {
        path_under(path_in(from, names[0]), names.skip(1))
    }
}

/// Whether a row shows a node of the tree: a file with its sort of change, or a directory with all
/// that is below it.
spec fn shows(row: RowView, name: Seq<char>, m: TreeNodeView, d: Drawing) -> bool {
    match m.entry_index {
        Some(i) => {
            &&& !row.is_dir
            &&& row.entry_indexes == seq![i]
            &&& text::ends(row.label, icon(d.entries[i as int]) + " "@ + name)
        },
        None => {
            &&& row.is_dir
            &&& row.entry_indexes == indexes(m)
            &&& text::ends(row.label, " "@ + name + "/"@)
        },
    }
}

proof fn row_shows_its_node(
    name: Seq<char>,
    child: TreeNodeView,
    visual_prefix: Seq<char>,
    path: Seq<char>,
    joint: Seq<char>,
    d: Drawing,
)
    ensures
        shows(row_of(name, child, visual_prefix, path, joint, d), name, child, d),
{
    let row = row_of(name, child, visual_prefix, path, joint, d);
    match child.entry_index {
        Some(i) => {
            let tail = icon(d.entries[i as int]) + " "@ + name;
            assert(row.label =~= visual_prefix + joint + tail);
            assert(row.label.subrange(row.label.len() - tail.len(), row.label.len() as int)
                =~= tail);
        },
        None => {
            let tail = " "@ + name + "/"@;
            assert(row.label.subrange(row.label.len() - tail.len(), row.label.len() as int)
                =~= tail);
        },
    }
}

proof fn child_is_found(n: TreeNodeView, p: int)
    requires
        in_name_order(n),
        0 <= p < n.children.len(),
    ensures
        name_place(n.children, n.children[p].0, 0) == p,
{
    order::precedes_irreflexive(n.children[p].0);
    place_is(n, n.children[p].0, p);
}

proof fn index_leads(n: TreeNodeView, x: usize) -> (names: Seq<Seq<char>>)
    requires
        in_name_order(n),
        indexes(n).contains(x),
    ensures
        entry_at(n, names) == Some(x),
    decreases n, 1int, 0int,
{
    let own = match n.entry_index {
        Some(i) => seq![i],
        None => seq![],
    };
    let all = own + indexes_under(n, n.children.len() as int);
    order::arranged_adds_nothing(all, number_order(), x);
    let j = choose|j: int| 0 <= j < all.len() && all[j] == x;
    if j >= own.len() {
        assert(indexes_under(n, n.children.len() as int)[j - own.len()] == x);
        index_under_leads(n, n.children.len() as int, x)
    } else {
        assert(n.entry_index == Some(x));
        Seq::empty()
    }
}

proof fn index_under_leads(n: TreeNodeView, k: int, x: usize) -> (names: Seq<Seq<char>>)
    requires
        in_name_order(n),
        0 <= k <= n.children.len(),
        indexes_under(n, k).contains(x),
    ensures
        entry_at(n, names) == Some(x),
    decreases n, 0int, k,
{
    assert(k > 0);
    let before = indexes_under(n, k - 1);
    let here = indexes(n.children[k - 1].1);
    let j = choose|j: int| 0 <= j < (before + here).len() && (before + here)[j] == x;
    if j < before.len() {
        assert(before[j] == x);
        index_under_leads(n, k - 1, x)
    } else {
        assert(here[j - before.len()] == x);
        let rest = index_leads(n.children[k - 1].1, x);
        let names = seq![n.children[k - 1].0] + rest;
        child_is_found(n, k - 1);
        assert(names.skip(1) =~= rest);
        names
    }
}

proof fn index_under_is_held(n: TreeNodeView, k: int, p: int, x: usize)
    requires
        0 <= p < k <= n.children.len(),
        indexes(n.children[p].1).contains(x),
    ensures
        indexes_under(n, k).contains(x),
    decreases k,
{
    let before = indexes_under(n, k - 1);
    let here = indexes(n.children[k - 1].1);
    if p < k - 1 {
        index_under_is_held(n, k - 1, p, x);
        let j = choose|j: int| 0 <= j < before.len() && before[j] == x;
        assert((before + here)[j] == x);
    } else {
        let j = choose|j: int| 0 <= j < here.len() && here[j] == x;
        assert((before + here)[before.len() + j] == x);
    }
}

proof fn index_is_held(n: TreeNodeView, names: Seq<Seq<char>>, x: usize)
    requires
        in_name_order(n),
        entry_at(n, names) == Some(x),
    ensures
        indexes(n).contains(x),
    decreases names.len(),
{
    broadcast use vstd::seq_lib::group_to_multiset_ensures;

    let own = match n.entry_index {
        Some(i) => seq![i],
        None => seq![],
    };
    let under = indexes_under(n, n.children.len() as int);
    let all = own + under;
    if names.len() == 0 {
        assert(all[0] == x);
    } else {
        let p = name_place(n.children, names[0], 0);
        name_after_place(n, names[0]);
        assert(in_name_order(n.children[p].1));
        index_is_held(n.children[p].1, names.skip(1), x);
        index_under_is_held(n, n.children.len() as int, p, x);
        let j = choose|j: int| 0 <= j < under.len() && under[j] == x;
        assert(all[own.len() + j] == x);
    }
    assert(all.contains(x));
    order::arranged_is_sorted_permutation(all, number_order());
    assert(all.to_multiset().count(x) > 0);
    assert(order::arranged(all, number_order()).to_multiset().count(x) > 0);
}

/// What is found in the tree of some paths is found at its own path.
proof fn entries_stand_at_their_paths(
    paths: Seq<Seq<char>>,
    k: int,
    names: Seq<Seq<char>>,
    x: usize,
)
    requires
        k <= paths.len() <= usize::MAX,
        entry_at(tree_of(paths, k), names) == Some(x),
    ensures
        x < k,
        text::pieces(paths[x as int], '/') == names,
    decreases k,
{
    if k <= 0 {
        empty_holds_none(names);
    } else {
        let parts = text::pieces(paths[k - 1], '/');
        trees_are_in_order(paths, k - 1);
        adding_an_entry(tree_of(paths, k - 1), parts, (k - 1) as usize, names);
        if names != parts {
            entries_stand_at_their_paths(paths, k - 1, names, x);
        }
    }
}

proof fn names_go_on(n: TreeNodeView, names: Seq<Seq<char>>, rest: Seq<Seq<char>>)
    requires
        in_name_order(n),
        node_at(n, names) is Some,
    ensures
        entry_at(n, names + rest) == entry_at(node_at(n, names)->0, rest),
        in_name_order(node_at(n, names)->0),
    decreases names.len(),
{
    if names.len() == 0 {
        assert(names + rest =~= rest);
    } else {
        let p = name_place(n.children, names[0], 0);
        name_after_place(n, names[0]);
        assert(in_name_order(n.children[p].1));
        names_go_on(n.children[p].1, names.skip(1), rest);
        assert((names + rest).skip(1) =~= names.skip(1) + rest);
    }
}

/// Whether no name holds a slash.
spec fn plain_names(n: TreeNodeView) -> bool
    decreases n,
{
    forall|k: int|
        0 <= k < n.children.len() ==> !(#[trigger] n.children[k]).0.contains('/') && plain_names(
            n.children[k].1,
        )
}

proof fn adding_keeps_plain(n: TreeNodeView, parts: Seq<Seq<char>>, entry: usize)
    requires
        plain_names(n),
        in_name_order(n),
        forall|i: int| 0 <= i < parts.len() ==> !(#[trigger] parts[i]).contains('/'),
    ensures
        plain_names(with_entry(n, parts, entry)),
    decreases parts.len(),
{
    let next = with_entry(n, parts, entry);
    if parts.len() == 0 {
        assert forall|k: int| 0 <= k < next.children.len() implies !(
        #[trigger] next.children[k]).0.contains('/') && plain_names(next.children[k].1) by {
            assert(plain_names(n.children[k].1));
        }
    } else {
        let p = name_place(n.children, parts[0], 0);
        name_after_place(n, parts[0]);
        assert forall|i: int| 0 <= i < parts.skip(1).len() implies !(
        #[trigger] parts.skip(1)[i]).contains('/') by {
            assert(parts.skip(1)[i] == parts[i + 1]);
        }
        if p < n.children.len() && n.children[p].0 == parts[0] {
            assert(plain_names(n.children[p].1));
            assert(in_name_order(n.children[p].1));
            adding_keeps_plain(n.children[p].1, parts.skip(1), entry);
            assert forall|k: int| 0 <= k < next.children.len() implies !(
            #[trigger] next.children[k]).0.contains('/') && plain_names(next.children[k].1) by {
                assert(plain_names(n.children[k].1));
            }
        } else {
            adding_keeps_plain(empty_tree(), parts.skip(1), entry);
            assert forall|k: int| 0 <= k < next.children.len() implies !(
            #[trigger] next.children[k]).0.contains('/') && plain_names(next.children[k].1) by {
                if k < p {
                    assert(plain_names(n.children[k].1));
                } else if k > p {
                    assert(plain_names(n.children[k - 1].1));
                }
            }
        }
    }
}

proof fn trees_are_plain(paths: Seq<Seq<char>>, k: int)
    ensures
        plain_names(tree_of(paths, k)),
    decreases k,
{
    if k > 0 {
        trees_are_plain(paths, k - 1);
        trees_are_in_order(paths, k - 1);
        text::pieces_hold_no_separator(paths[k - 1], '/');
        adding_keeps_plain(
            tree_of(paths, k - 1),
            text::pieces(paths[k - 1], '/'),
            (k - 1) as usize,
        );
    }
}

proof fn plain_nodes_have_plain_names(n: TreeNodeView, names: Seq<Seq<char>>)
    requires
        plain_names(n),
        in_name_order(n),
        node_at(n, names) is Some,
    ensures
        forall|i: int| 0 <= i < names.len() ==> !(#[trigger] names[i]).contains('/'),
    decreases names.len(),
{
    if names.len() > 0 {
        let p = name_place(n.children, names[0], 0);
        name_after_place(n, names[0]);
        assert(plain_names(n.children[p].1));
        plain_nodes_have_plain_names(n.children[p].1, names.skip(1));
        assert forall|i: int| 0 <= i < names.len() implies !(#[trigger] names[i]).contains('/') by {
            if i == 0 {
                assert(!n.children[p].0.contains('/'));
            } else {
                assert(names[i] == names.skip(1)[i - 1]);
            }
        }
    }
}

proof fn last_name_goes_on(from: Seq<char>, names: Seq<Seq<char>>)
    requires
        names.len() > 0,
    ensures
        path_under(from, names) == path_in(path_under(from, names.drop_last()), names.last()),
    decreases names.len(),
{
    let next = path_in(from, names[0]);
    if names.len() == 1 {
        assert(path_under(next, names.skip(1)) == next);
        assert(names.drop_last().len() == 0);
    } else {
        last_name_goes_on(next, names.skip(1));
        assert(names.skip(1).drop_last() =~= names.drop_last().skip(1));
        assert(names.skip(1).last() == names.last());
        assert(names.drop_last()[0] == names[0]);
    }
}

/// The path that names lead to is the names with slashes between them.
proof fn names_make_the_path(names: Seq<Seq<char>>)
    requires
        names.len() > 1 ==> names[0].len() > 0,
    ensures
        path_under(Seq::empty(), names) == text::joined(names, seq!['/']),
        names.len() > 0 && names[0].len() > 0 ==> path_under(Seq::empty(), names).len() > 0,
    decreases names.len(),
{
    if names.len() > 0 {
        let front = names.drop_last();
        last_name_goes_on(Seq::empty(), names);
        reveal_strlit("/");
        assert("/"@ =~= seq!['/']);
        if names.len() == 1 {
            assert(path_under(Seq::<char>::empty(), front) == Seq::<char>::empty());
            assert(names.last() == names[0]);
        } else {
            assert(front[0] == names[0]);
            names_make_the_path(front);
        }
    }
}

proof fn joined_adds_up(a: Seq<Seq<char>>, b: Seq<Seq<char>>)
    requires
        a.len() > 0,
        b.len() > 0,
    ensures
        text::joined(a + b, seq!['/']) == text::joined(a, seq!['/']) + seq!['/'] + text::joined(
            b,
            seq!['/'],
        ),
    decreases b.len(),
{
    assert((a + b).last() == b.last());
    if b.len() == 1 {
        assert((a + b).drop_last() =~= a);
    } else {
        assert((a + b).drop_last() =~= a + b.drop_last());
        joined_adds_up(a, b.drop_last());
        assert(text::joined(a + b, seq!['/']) =~= text::joined(a, seq!['/']) + seq!['/']
            + text::joined(b, seq!['/']));
    }
}

/// Where a row stands in the tree.
proof fn rows_stand_at_nodes(
    n: TreeNodeView,
    k: int,
    visual_prefix: Seq<char>,
    path_prefix: Seq<char>,
    is_root: bool,
    d: Drawing,
    i: int,
) -> (names: Seq<Seq<char>>)
    requires
        in_name_order(n),
        0 <= k <= n.children.len(),
        0 <= i < rows_of(n, k, visual_prefix, path_prefix, is_root, d).len(),
    ensures
        names.len() > 0,
        node_at(n, names) is Some,
        rows_of(n, k, visual_prefix, path_prefix, is_root, d)[i].path == path_under(
            path_prefix,
            names,
        ),
        shows(
            rows_of(n, k, visual_prefix, path_prefix, is_root, d)[i],
            names.last(),
            node_at(n, names)->0,
            d,
        ),
    decreases n, k,
{
    assert(k > 0);
    let (name, child) = n.children[k - 1];
    let is_last = k == n.children.len();
    let path = path_in(path_prefix, name);
    let joint = connector(is_root, is_last);
    let front = rows_of(n, k - 1, visual_prefix, path_prefix, is_root, d);
    child_is_found(n, k - 1);
    if i < front.len() {
        rows_stand_at_nodes(n, k - 1, visual_prefix, path_prefix, is_root, d, i)
    } else if i == front.len() {
        let names = seq![name];
        row_shows_its_node(name, child, visual_prefix, path, joint, d);
        assert(names.skip(1).len() == 0);
        assert(node_at(child, names.skip(1)) == Some(child));
        assert(path_under(path, names.skip(1)) == path);
        names
    } else {
        assert(in_name_order(n.children[k - 1].1));
        let rest = rows_stand_at_nodes(
            n.children[k - 1].1,
            child.children.len() as int,
            prefix_under(visual_prefix, is_root, is_last),
            path,
            false,
            d,
            i - front.len() - 1,
        );
        let names = seq![name] + rest;
        assert(names.skip(1) =~= rest);
        assert(names.last() == rest.last());
        names
    }
}

proof fn rows_hold_a_child(
    n: TreeNodeView,
    k: int,
    visual_prefix: Seq<char>,
    path_prefix: Seq<char>,
    is_root: bool,
    d: Drawing,
    p: int,
    row: RowView,
)
    requires
        0 <= p < k <= n.children.len(),
        ({
            let (name, child) = n.children[p];
            let is_last = p + 1 == n.children.len();
            let path = path_in(path_prefix, name);
            ||| row == row_of(name, child, visual_prefix, path, connector(is_root, is_last), d)
            ||| child.children.len() > 0 && d.expanded.contains(path) && rows_of(
                child,
                child.children.len() as int,
                prefix_under(visual_prefix, is_root, is_last),
                path,
                false,
                d,
            ).contains(row)
        }),
    ensures
        rows_of(n, k, visual_prefix, path_prefix, is_root, d).contains(row),
    decreases k,
{
    let (name, child) = n.children[k - 1];
    let is_last = k == n.children.len();
    let path = path_in(path_prefix, name);
    let here = row_of(name, child, visual_prefix, path, connector(is_root, is_last), d);
    let front = rows_of(n, k - 1, visual_prefix, path_prefix, is_root, d);
    let under = if child.children.len() > 0 && d.expanded.contains(path) {
        rows_of(
            n.children[k - 1].1,
            child.children.len() as int,
            prefix_under(visual_prefix, is_root, is_last),
            path,
            false,
            d,
        )
    } else {
        Seq::empty()
    };
    let all = rows_of(n, k, visual_prefix, path_prefix, is_root, d);
    assert(all == front.push(here) + under);
    if p < k - 1 {
        rows_hold_a_child(n, k - 1, visual_prefix, path_prefix, is_root, d, p, row);
        let j = choose|j: int| 0 <= j < front.len() && front[j] == row;
        assert(all[j] == row);
    } else if row == here {
        assert(all[front.len() as int] == row);
    } else {
        let j = choose|j: int| 0 <= j < under.len() && under[j] == row;
        assert(all[front.len() + 1 + j] == row);
    }
}

/// What names lead to has a row where all that they lead through is open.
proof fn nodes_have_rows(
    n: TreeNodeView,
    names: Seq<Seq<char>>,
    visual_prefix: Seq<char>,
    path_prefix: Seq<char>,
    is_root: bool,
    d: Drawing,
) -> (row: RowView)
    requires
        in_name_order(n),
        names.len() > 0,
        node_at(n, names) is Some,
        forall|j: int|
            0 < j < names.len() ==> d.expanded.contains(
                #[trigger] path_under(path_prefix, names.take(j)),
            ),
    ensures
        rows_of(
            n,
            n.children.len() as int,
            visual_prefix,
            path_prefix,
            is_root,
            d,
        ).contains(row),
        row.path == path_under(path_prefix, names),
        shows(row, names.last(), node_at(n, names)->0, d),
    decreases names.len(),
{
    let p = name_place(n.children, names[0], 0);
    name_after_place(n, names[0]);
    let (name, child) = n.children[p];
    let is_last = p + 1 == n.children.len();
    let path = path_in(path_prefix, name);
    let joint = connector(is_root, is_last);
    let rest = names.skip(1);
    let row = if names.len() == 1 {
        row_shows_its_node(name, child, visual_prefix, path, joint, d);
        assert(node_at(child, rest) == Some(child));
        assert(path_under(path, rest) == path);
        row_of(name, child, visual_prefix, path, joint, d)
    } else {
        assert(in_name_order(n.children[p].1));
        assert forall|j: int| 0 < j < rest.len() implies d.expanded.contains(
            #[trigger] path_under(path, rest.take(j)),
        ) by {
            let taken = names.take(j + 1);
            assert(taken.skip(1) =~= rest.take(j));
            assert(taken[0] == name);
            assert(d.expanded.contains(path_under(path_prefix, taken)));
        }
        let taken = names.take(1);
        assert(taken[0] == name);
        assert(path_under(path, taken.skip(1)) == path);
        assert(d.expanded.contains(path_under(path_prefix, taken)));
        let under = nodes_have_rows(
            child,
            rest,
            prefix_under(visual_prefix, is_root, is_last),
            path,
            false,
            d,
        );
        name_after_place(child, rest[0]);
        assert(names.last() == rest.last());
        under
    };
    rows_hold_a_child(
        n,
        n.children.len() as int,
        visual_prefix,
        path_prefix,
        is_root,
        d,
        p,
        row,
    );
    row
}

proof fn entry_has_node(n: TreeNodeView, names: Seq<Seq<char>>)
    requires
        entry_at(n, names) is Some,
    ensures
        node_at(n, names) matches Some(m) && m.entry_index == entry_at(n, names),
    decreases names.len(),
{
    if names.len() > 0 {
        let p = name_place(n.children, names[0], 0);
        entry_has_node(n.children[p].1, names.skip(1));
    }
}

/// Whether these are the paths of changes: no two alike, and none with a slash at its head.
pub open spec fn are_paths(paths: Seq<Seq<char>>) -> bool {
    &&& paths.no_duplicates()
    &&& paths.len() <= usize::MAX
    &&& forall|i: int| 0 <= i < paths.len() ==> ((#[trigger] paths[i]).len() > 0 ==> paths[i][0] != '/')
}

proof fn path_of_row(
    entries: Seq<changes::StatusEntryView>,
    expanded: Set<Seq<char>>,
    i: int,
) -> (names: Seq<Seq<char>>)
    requires
        are_paths(entry_paths(entries)),
        0 <= i < top_rows(entry_paths(entries), entries, expanded).len(),
    ensures
        names.len() > 0,
        ({
            let paths = entry_paths(entries);
            let tree = tree_of(paths, paths.len() as int);
            let row = top_rows(paths, entries, expanded)[i];
            &&& in_name_order(tree)
            &&& node_at(tree, names) matches Some(m)
            &&& shows(row, names.last(), m, (Drawing { entries, expanded }))
            &&& row.path == text::joined(names, seq!['/'])
            &&& text::pieces(row.path, '/') == names
        }),
{
    let paths = entry_paths(entries);
    let tree = tree_of(paths, paths.len() as int);
    let d = Drawing { entries, expanded };
    trees_are_in_order(paths, paths.len() as int);
    let names = rows_stand_at_nodes(
        tree,
        tree.children.len() as int,
        Seq::empty(),
        Seq::empty(),
        true,
        d,
        i,
    );
    trees_are_plain(paths, paths.len() as int);
    plain_nodes_have_plain_names(tree, names);
    slashes_come_later(paths);
    trees_have_names(paths, paths.len() as int);
    name_after_place(tree, names[0]);
    let p = name_place(tree.children, names[0], 0);
    if names.len() > 1 && names[0].len() == 0 {
        assert(tree.children[p].1.children.len() == 0);
        assert(node_at(tree.children[p].1, names.skip(1)) is None);
    }
    names_make_the_path(names);
    text::joined_parts_come_apart(names, '/');
    names
}

/// No path begins with a slash.
pub proof fn slashes_come_later(paths: Seq<Seq<char>>)
    requires
        are_paths(paths),
    ensures
        forall|i: int| 0 <= i < paths.len() ==> !text::begins(#[trigger] paths[i], "/"@),
{
    reveal_strlit("/");
    assert forall|i: int| 0 <= i < paths.len() implies !text::begins(#[trigger] paths[i], "/"@) by {
        if text::begins(paths[i], "/"@) {
            assert(paths[i].subrange(0, 1)[0] == '/');
        }
    }
}

/// A row that is no directory is one changed file: it has the path of that file, and shows the
/// file's sort of change before its name.
pub proof fn file_rows_are_files(
    entries: Seq<changes::StatusEntryView>,
    expanded: Set<Seq<char>>,
    i: int,
) -> (x: int)
    requires
        are_paths(entry_paths(entries)),
        0 <= i < top_rows(entry_paths(entries), entries, expanded).len(),
        !top_rows(entry_paths(entries), entries, expanded)[i].is_dir,
    ensures
        0 <= x < entries.len(),
        ({
            let row = top_rows(entry_paths(entries), entries, expanded)[i];
            &&& row.entry_indexes == seq![x as usize]
            &&& row.path == entries[x].path
            &&& text::ends(
                row.label,
                (if entries[x].deleted {
                    "✖ "@
                } else if entries[x].untracked {
                    "✚ "@
                } else {
                    "● "@
                }) + text::pieces(entries[x].path, '/').last(),
            )
        }),
{
    let paths = entry_paths(entries);
    let tree = tree_of(paths, paths.len() as int);
    let names = path_of_row(entries, expanded, i);
    let x = (node_at(tree, names)->0).entry_index->0;
    names_go_on(tree, names, Seq::empty());
    assert(names + Seq::<Seq<char>>::empty() =~= names);
    entries_stand_at_their_paths(paths, paths.len() as int, names, x);
    text::pieces_join_back(paths[x as int], '/');
    reveal_strlit("✖");
    reveal_strlit("✚");
    reveal_strlit("●");
    reveal_strlit("✖ ");
    reveal_strlit("✚ ");
    reveal_strlit("● ");
    reveal_strlit(" ");
    assert("✖"@ + " "@ =~= "✖ "@);
    assert("✚"@ + " "@ =~= "✚ "@);
    assert("●"@ + " "@ =~= "● "@);
    x as int
}

/// The row of a directory stands for the changed files below that directory, for each of them and
/// for no other.
pub proof fn directory_rows_hold_what_is_below(
    entries: Seq<changes::StatusEntryView>,
    expanded: Set<Seq<char>>,
    i: int,
    x: int,
)
    requires
        are_paths(entry_paths(entries)),
        0 <= i < top_rows(entry_paths(entries), entries, expanded).len(),
        top_rows(entry_paths(entries), entries, expanded)[i].is_dir,
        0 <= x < entries.len(),
    ensures
        ({
            let row = top_rows(entry_paths(entries), entries, expanded)[i];
            row.entry_indexes.contains(x as usize) <==> text::begins(
                entries[x].path,
                row.path + seq!['/'],
            )
        }),
{
    let paths = entry_paths(entries);
    let tree = tree_of(paths, paths.len() as int);
    let row = top_rows(paths, entries, expanded)[i];
    let names = path_of_row(entries, expanded, i);
    let m = node_at(tree, names)->0;
    let head = row.path + seq!['/'];
    let path = entries[x].path;
    names_go_on(tree, names, Seq::empty());
    if row.entry_indexes.contains(x as usize) {
        let rest = index_leads(m, x as usize);
        names_go_on(tree, names, rest);
        entries_stand_at_their_paths(paths, paths.len() as int, names + rest, x as usize);
        text::pieces_join_back(paths[x], '/');
        assert(rest.len() > 0);
        joined_adds_up(names, rest);
        assert(path.subrange(0, head.len() as int) =~= head);
    }
    if text::begins(path, head) {
        let tail = path.skip(head.len() as int);
        assert(path =~= row.path + seq!['/'] + tail);
        text::pieces_add_up(row.path, tail, '/');
        let rest = text::pieces(tail, '/');
        every_entry_is_in_the_tree(paths, paths.len() as int, x);
        names_go_on(tree, names, rest);
        index_is_held(m, rest, x as usize);
    }
}

/// Each changed file has a row of its own where every directory above it is open.
pub proof fn every_file_has_a_row(
    entries: Seq<changes::StatusEntryView>,
    expanded: Set<Seq<char>>,
    x: int,
) -> (i: int)
    requires
        are_paths(entry_paths(entries)),
        0 <= x < entries.len(),
        forall|dir: Seq<char>| #[trigger]
            text::begins(entries[x].path, dir + seq!['/']) ==> expanded.contains(dir),
    ensures
        0 <= i < top_rows(entry_paths(entries), entries, expanded).len(),
        ({
            let row = top_rows(entry_paths(entries), entries, expanded)[i];
            &&& row.path == entries[x].path
            &&& !row.is_dir
            &&& row.entry_indexes == seq![x as usize]
        }),
{
    let paths = entry_paths(entries);
    let tree = tree_of(paths, paths.len() as int);
    let path = entries[x].path;
    let names = text::pieces(path, '/');
    let d = Drawing { entries, expanded };
    assert(paths[x] == path);
    trees_are_in_order(paths, paths.len() as int);
    every_entry_is_in_the_tree(paths, paths.len() as int, x);
    entry_has_node(tree, names);
    text::pieces_nonempty(path, '/');
    text::pieces_join_back(path, '/');
    if names.len() > 1 && names[0].len() == 0 {
        first_piece_is_empty(path, '/');
        assert(path.len() > 0);
    }
    assert forall|j: int| 0 < j < names.len() implies d.expanded.contains(
        #[trigger] path_under(Seq::<char>::empty(), names.take(j)),
    ) by {
        let front = names.take(j);
        assert(front[0] == names[0]);
        names_make_the_path(front);
        joined_adds_up(front, names.skip(j));
        assert(front + names.skip(j) =~= names);
        let dir = text::joined(front, seq!['/']);
        let head = dir + seq!['/'];
        assert(path.subrange(0, head.len() as int) =~= head);
        assert(text::begins(path, dir + seq!['/']));
    }
    names_make_the_path(names);
    let row = nodes_have_rows(tree, names, Seq::empty(), Seq::empty(), true, d);
    let rows = top_rows(paths, entries, expanded);
    let i = choose|i: int| 0 <= i < rows.len() && rows[i] == row;
    i
}

/// Two rows with one path are alike in what they stand for, whichever directories are open.
pub proof fn rows_with_one_path_are_alike(
    entries: Seq<changes::StatusEntryView>,
    before: Set<Seq<char>>,
    after: Set<Seq<char>>,
    i: int,
    j: int,
)
    requires
        are_paths(entry_paths(entries)),
        0 <= i < top_rows(entry_paths(entries), entries, before).len(),
        0 <= j < top_rows(entry_paths(entries), entries, after).len(),
        top_rows(entry_paths(entries), entries, before)[i].path == top_rows(
            entry_paths(entries),
            entries,
            after,
        )[j].path,
    ensures
        ({
            let a = top_rows(entry_paths(entries), entries, before)[i];
            let b = top_rows(entry_paths(entries), entries, after)[j];
            a.is_dir == b.is_dir && a.entry_indexes == b.entry_indexes
        }),
{
    path_of_row(entries, before, i);
    path_of_row(entries, after, j);
}

} // verus!
