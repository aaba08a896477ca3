//! The references as a tree.

use semver::Version;
use vstd::prelude::*;
use vstd::string::*;
use crate::color::{Color, ColorTheme};
use crate::git;
use crate::git::Ref;
use crate::order;
use crate::text;
use crate::widget::branch_visual::BranchVisuals;

verus! {

pub const TREE_BRANCH_ROOT_IDENT: &'static str = "__branches__";

pub const TREE_REMOTE_ROOT_IDENT: &'static str = "__remotes__";

pub const TREE_TAG_ROOT_IDENT: &'static str = "__tags__";

pub const TREE_STASH_ROOT_IDENT: &'static str = "__stashes__";

pub const TREE_BRANCH_ROOT_TEXT: &'static str = "Branches";

pub const TREE_REMOTE_ROOT_TEXT: &'static str = "Remotes";

pub const TREE_TAG_ROOT_TEXT: &'static str = "Tags";

pub const TREE_STASH_ROOT_TEXT: &'static str = "Stashes";

/// A part of a reference's name, and what comes under it.
#[derive(Debug)]
pub struct RefTreeNode {
    pub identifier: String,
    pub name: String,
    pub children: Vec<RefTreeNode>,
}

pub ghost struct NodeView {
    pub identifier: Seq<char>,
    pub name: Seq<char>,
    pub children: Seq<NodeView>,
}

pub open spec fn node_view(n: RefTreeNode) -> NodeView
    decreases n,
{
    NodeView { identifier: n.identifier@, name: n.name@, children: node_views(n.children@) }
}

/// What a list of nodes says.
pub open spec fn node_views(s: Seq<RefTreeNode>) -> Seq<NodeView>
    decreases s,
{
    if s.len() == 0 {
        Seq::empty()
    } else {
        node_views(s.drop_last()).push(node_view(s.last()))
    }
}

proof fn node_views_index(s: Seq<RefTreeNode>)
    ensures
        node_views(s).len() == s.len(),
        forall|i: int| 0 <= i < s.len() ==> #[trigger] node_views(s)[i] == node_view(s[i]),
    decreases s.len(),
{
    if s.len() > 0 {
        node_views_index(s.drop_last());
        assert forall|i: int| 0 <= i < s.len() implies #[trigger] node_views(s)[i] == node_view(
            s[i],
        ) by {
            if i < s.len() - 1 {
                assert(s.drop_last()[i] == s[i]);
            }
        }
    }
}

proof fn node_views_mapped(s: Seq<RefTreeNode>)
    ensures
        node_views(s) == s.map_values(|n: RefTreeNode| node_view(n)),
{
    node_views_index(s);
    assert(node_views(s) =~= s.map_values(|n: RefTreeNode| node_view(n)));
}

/// The identifier of a part under a parent.
pub open spec fn under(parent: Seq<char>, part: Seq<char>) -> Seq<char> {
    if parent.len() == 0 {
        part
    } else {
        parent + "/"@ + part
    }
}

pub fn identifier_under(parent: &str, part: &str) -> (r: String)
    ensures
        r@ == under(parent@, part@),
{
    if text::byte_len(parent) == 0 {
        part.to_string()
    } else {
        let mut r = parent.to_string();
        r.append("/");
        r.append(part);
        r
    }
}

/// The place of the node with this name, or the end.
pub open spec fn node_place(nodes: Seq<NodeView>, name: Seq<char>, from: int) -> int
    decreases nodes.len() - from,
{
    if from >= nodes.len() || nodes[from].name == name {
        from
    } else {
        node_place(nodes, name, from + 1)
    }
}

/// The nodes with a path of parts added: it goes along the nodes that are there as far as it can.
pub open spec fn with_path(
    nodes: Seq<NodeView>,
    parent: Seq<char>,
    parts: Seq<Seq<char>>,
) -> Seq<NodeView>
    decreases parts.len(),
{
    if parts.len() == 0 {
        nodes
    } else {
        let i = node_place(nodes, parts[0], 0);
        if i < nodes.len() {
            nodes.update(
                i,
                NodeView {
                    children: with_path(nodes[i].children, nodes[i].identifier, parts.skip(1)),
                    ..nodes[i]
                },
            )
        } else {
            let identifier = under(parent, parts[0]);
            nodes.push(
                NodeView {
                    identifier,
                    name: parts[0],
                    children: with_path(Seq::empty(), identifier, parts.skip(1)),
                },
            )
        }
    }
}

/// The tree of the names, each cut at its slashes.
pub open spec fn tree_of(names: Seq<Seq<char>>) -> Seq<NodeView>
    decreases names.len(),
{
    if names.len() == 0 {
        Seq::empty()
    } else {
        with_path(
            tree_of(names.drop_last()),
            Seq::empty(),
            text::pieces(names.last(), '/'),
        )
    }
}

proof fn node_place_bounds(nodes: Seq<NodeView>, name: Seq<char>, from: int)
    requires
        0 <= from <= nodes.len(),
    ensures
        from <= node_place(nodes, name, from) <= nodes.len(),
        node_place(nodes, name, from) < nodes.len() ==> nodes[node_place(nodes, name, from)].name
            == name,
        forall|j: int|
            from <= j < node_place(nodes, name, from) ==> (#[trigger] nodes[j]).name != name,
    decreases nodes.len() - from,
{
    if from < nodes.len() && nodes[from].name != name {
        node_place_bounds(nodes, name, from + 1);
    }
}

fn find_node(nodes: &Vec<RefTreeNode>, name: &str) -> (r: usize)
    ensures
        r == node_place(node_views(nodes@), name@, 0),
        r <= nodes@.len(),
{
    let ghost views = node_views(nodes@);
    proof {
        node_views_index(nodes@);
    }
    let mut i: usize = 0;
    while i < nodes.len()
        invariant
            i <= nodes@.len(),
            views == node_views(nodes@),
            views.len() == nodes@.len(),
            forall|j: int| 0 <= j < nodes@.len() ==> #[trigger] views[j] == node_view(nodes@[j]),
            node_place(views, name@, 0) == node_place(views, name@, i as int),
        decreases nodes@.len() - i,
    {
        assert(views[i as int] == node_view(nodes@[i as int]));
        if text::same(nodes[i].name.as_str(), name) {
            return i;
        }
        i = i + 1;
    }
    i
}

/// Adds the parts from `from` on under the parent.
fn add_path(nodes: &mut Vec<RefTreeNode>, parent: &str, parts: &Vec<String>, from: usize)
    requires
        from <= parts@.len(),
    ensures
        node_views(final(nodes)@) == with_path(
            node_views(old(nodes)@),
            parent@,
            text::texts(parts@).skip(from as int),
        ),
    decreases parts@.len() - from,
{
    let ghost all = text::texts(parts@);
    let ghost rest = all.skip(from as int);
    if from == parts.len() {
        return;
    }
    let ghost before = nodes@;
    let ghost views = node_views(before);
    proof {
        node_views_index(before);
        assert(rest[0] == parts@[from as int]@);
        assert(rest.skip(1) =~= all.skip(from + 1));
    }
    let i = find_node(nodes, parts[from].as_str());
    if i < nodes.len() {
        let mut children: Vec<RefTreeNode> = Vec::new();
        std::mem::swap(&mut nodes[i].children, &mut children);
        assert(node_view(before[i as int]) == views[i as int]);
        let identifier = nodes[i].identifier.clone();
        add_path(&mut children, identifier.as_str(), parts, from + 1);
        std::mem::swap(&mut nodes[i].children, &mut children);
        proof {
            node_views_index(nodes@);
            let want = with_path(views, parent@, rest);
            assert forall|j: int| 0 <= j < nodes@.len() implies #[trigger] node_views(nodes@)[j]
                == want[j] by {
                if j != i {
                    assert(nodes@[j] == before[j]);
                }
            }
            assert(node_views(nodes@) =~= want);
        }
    } else {
        let identifier = identifier_under(parent, parts[from].as_str());
        let mut children: Vec<RefTreeNode> = Vec::new();
        assert(node_views(children@) =~= Seq::<NodeView>::empty());
        add_path(&mut children, identifier.as_str(), parts, from + 1);
        let node = RefTreeNode { identifier, name: parts[from].clone(), children };
        nodes.push(node);
        proof {
            assert(nodes@.drop_last() =~= before);
            assert(node_views(nodes@) == views.push(node_view(node)));
            assert(with_path(views, parent@, rest) == views.push(node_view(node)));
        }
    }
}

/// The tree of the names, each cut at its slashes.
pub fn refs_to_ref_tree_nodes(ref_names: &Vec<String>) -> (r: Vec<RefTreeNode>)
    ensures
        node_views(r@) == tree_of(text::texts(ref_names@)),
{
    let ghost all = text::texts(ref_names@);
    let mut nodes: Vec<RefTreeNode> = Vec::new();
    let mut i: usize = 0;
    assert(all.take(0) =~= Seq::<Seq<char>>::empty());
    while i < ref_names.len()
        invariant
            i <= ref_names@.len(),
            all == text::texts(ref_names@),
            node_views(nodes@) == tree_of(all.take(i as int)),
        decreases ref_names@.len() - i,
    {
        let parts = text::split(ref_names[i].as_str(), '/');
        proof {
            assert(all.take(i + 1).drop_last() =~= all.take(i as int));
            assert(all.take(i + 1).last() == ref_names@[i as int]@);
            assert(text::texts(parts@).skip(0) =~= text::texts(parts@));
            reveal_strlit("");
            assert(""@ =~= Seq::<char>::empty());
        }
        add_path(&mut nodes, "", &parts, 0);
        i = i + 1;
    }
    assert(all.take(i as int) =~= all);
    nodes
}

/// The nodes of stashes, which show their messages.
pub open spec fn stash_nodes(refs: Seq<(Seq<char>, Seq<char>)>) -> Seq<NodeView> {
    Seq::new(
        refs.len(),
        |i: int| NodeView { identifier: refs[i].0, name: refs[i].1, children: Seq::empty() },
    )
}

/// What a list of pairs of texts says.
pub open spec fn pairs(v: Seq<(String, String)>) -> Seq<(Seq<char>, Seq<char>)> {
    Seq::new(v.len(), |i: int| (v[i].0@, v[i].1@))
}

pub fn refs_to_stash_ref_tree_nodes(ref_name_messages: &Vec<(String, String)>) -> (r: Vec<
    RefTreeNode,
>)
    ensures
        node_views(r@) == stash_nodes(pairs(ref_name_messages@)),
{
    let mut r: Vec<RefTreeNode> = Vec::new();
    let mut i: usize = 0;
    while i < ref_name_messages.len()
        invariant
            i <= ref_name_messages@.len(),
            r@.len() == i,
            forall|j: int|
                0 <= j < i ==> node_view(#[trigger] r@[j]) == (NodeView {
                    identifier: ref_name_messages@[j].0@,
                    name: ref_name_messages@[j].1@,
                    children: Seq::empty(),
                }),
        decreases ref_name_messages@.len() - i,
    {
        let node = RefTreeNode {
            identifier: ref_name_messages[i].0.clone(),
            name: ref_name_messages[i].1.clone(),
            children: Vec::new(),
        };
        assert(node_view(node).children =~= Seq::<NodeView>::empty());
        r.push(node);
        i = i + 1;
    }
    proof {
        node_views_index(r@);
        assert(node_views(r@) =~= stash_nodes(pairs(ref_name_messages@)));
    }
    r
}

/// Branches come in order of how many parts stand right under them, the most first, and then by
/// their names.
pub open spec fn branch_order() -> spec_fn(NodeView, NodeView) -> bool {
    |a: NodeView, b: NodeView|
        if a.children.len() != b.children.len() {
            a.children.len() > b.children.len()
        } else {
            order::precedes(a.name, b.name)
        }
}

/// The nodes in order, at every level.
pub open spec fn branches_sorted(s: Seq<NodeView>) -> Seq<NodeView>
    decreases s, 1int,
{
    order::arranged(children_sorted(s), branch_order())
}

/// The nodes with what comes under them in order.
pub open spec fn children_sorted(s: Seq<NodeView>) -> Seq<NodeView>
    decreases s, 0int,
{
    if s.len() == 0 {
        Seq::empty()
    } else {
        children_sorted(s.drop_last()).push(
            NodeView { children: branches_sorted(s.last().children), ..s.last() },
        )
    }
}

proof fn children_sorted_index(s: Seq<NodeView>)
    ensures
        children_sorted(s).len() == s.len(),
        forall|i: int|
            0 <= i < s.len() ==> #[trigger] children_sorted(s)[i] == (NodeView {
                children: branches_sorted(s[i].children),
                ..s[i]
            }),
    decreases s.len(),
{
    if s.len() > 0 {
        children_sorted_index(s.drop_last());
        assert forall|i: int| 0 <= i < s.len() implies #[trigger] children_sorted(s)[i] == (
        NodeView { children: branches_sorted(s[i].children), ..s[i] }) by {
            if i < s.len() - 1 {
                assert(s.drop_last()[i] == s[i]);
            }
        }
    }
}

fn branch_before(a: &RefTreeNode, b: &RefTreeNode) -> (r: bool)
    ensures
        r == branch_order()(node_view(*a), node_view(*b)),
{
    proof {
        node_views_index(a.children@);
        node_views_index(b.children@);
    }
    if a.children.len() != b.children.len() {
        a.children.len() > b.children.len()
    } else {
        order::less(a.name.as_str(), b.name.as_str())
    }
}

/// Puts branches in order, at every level.
pub fn sort_branch_tree_nodes(nodes: &mut Vec<RefTreeNode>)
    ensures
        node_views(final(nodes)@) == branches_sorted(node_views(old(nodes)@)),
    decreases old(nodes)@,
{
    let ghost before = nodes@;
    let ghost views = node_views(before);
    let n = nodes.len();
    let mut i: usize = 0;
    proof {
        node_views_index(before);
        children_sorted_index(views);
    }
    while i < n
        invariant
            i <= n,
            n == nodes@.len() == before.len(),
            before == old(nodes)@,
            views == node_views(before),
            views.len() == n,
            forall|j: int| 0 <= j < n ==> #[trigger] views[j] == node_view(before[j]),
            children_sorted(views).len() == n,
            forall|j: int|
                0 <= j < n ==> #[trigger] children_sorted(views)[j] == (NodeView {
                    children: branches_sorted(views[j].children),
                    ..views[j]
                }),
            forall|j: int|
                0 <= j < i ==> node_view(#[trigger] nodes@[j]) == children_sorted(views)[j],
            forall|j: int| i <= j < n ==> #[trigger] nodes@[j] == before[j],
        decreases n - i,
    {
        let ghost now = nodes@;
        let mut children: Vec<RefTreeNode> = Vec::new();
        std::mem::swap(&mut nodes[i].children, &mut children);
        assert(children == before[i as int].children);
        assert(decreases_to!(before => before[i as int]));
        assert(decreases_to!(before[i as int] => before[i as int].children));
        assert(decreases_to!(before[i as int].children => before[i as int].children@));
        sort_branch_tree_nodes(&mut children);
        std::mem::swap(&mut nodes[i].children, &mut children);
        assert(node_view(nodes@[i as int]) == children_sorted(views)[i as int]);
        assert(forall|j: int| 0 <= j < n && j != i ==> nodes@[j] == #[trigger] now[j]);
        i = i + 1;
    }
    proof {
        node_views_index(nodes@);
        assert(node_views(nodes@) =~= children_sorted(views));
        node_views_mapped(nodes@);
    }
    let ghost unsorted = nodes@;
    let comes_first = |a: &RefTreeNode, b: &RefTreeNode| -> (r: bool)
        ensures
            r == branch_order()(node_view(*a), node_view(*b)),
        { branch_before(a, b) };
    order::sort_by::<RefTreeNode, NodeView, _>(
        nodes,
        comes_first,
        Ghost(|n: RefTreeNode| node_view(n)),
        Ghost(branch_order()),
    );
    proof {
        node_views_mapped(nodes@);
        node_views_mapped(unsorted);
    }
}

/// Whether `semver` reads a text as a version.
pub uninterp spec fn is_version(s: Seq<char>) -> bool;

/// Whether the version that `semver` reads in a text is lower than the one in another.
pub uninterp spec fn lower_version(a: Seq<char>, b: Seq<char>) -> bool;

/// `semver::Version::parse`: whether the text is a version, which the text determines.
#[verifier::external_body]
fn reads_as_version(s: &str) -> (r: bool)
    ensures
        r == is_version(s@),
{
    Version::parse(s).is_ok()
}

/// The order of `semver::Version`, of the versions that two texts give: the texts determine it, and
/// it is a total order. So of two versions at most one is lower than the other, and what is lower
/// than one of them is lower than the other, where that is the higher one or as high.
#[verifier::external_body]
fn version_is_lower(a: &str, b: &str) -> (r: bool)
    requires
        is_version(a@),
        is_version(b@),
    ensures
        r == lower_version(a@, b@),
        r ==> !lower_version(b@, a@),
        r ==> forall|c: Seq<char>|
            is_version(c) && #[trigger] lower_version(c, a@) ==> lower_version(c, b@),
        !r ==> forall|c: Seq<char>|
            is_version(c) && #[trigger] lower_version(c, b@) ==> lower_version(c, a@),
{
    match (Version::parse(a), Version::parse(b)) {
        (Ok(a), Ok(b)) => a < b,
        _ => false,
    }
}

/// What may be the version in a tag: the tag without the letters `v` that it begins with.
pub open spec fn version_text(tag: Seq<char>) -> Seq<char> {
    text::stripped_start(tag, Some('v'))
}

/// Tags come by their versions, the highest first, and after those the ones that are no versions,
/// by their names.
pub open spec fn tag_before(a: Seq<char>, b: Seq<char>) -> bool {
    let va = version_text(a);
    let vb = version_text(b);
    if !is_version(va) && !is_version(vb) {
        order::precedes(a, b)
    } else {
        is_version(va) && (!is_version(vb) || lower_version(vb, va))
    }
}

pub open spec fn tag_order() -> spec_fn(NodeView, NodeView) -> bool {
    |a: NodeView, b: NodeView| tag_before(a.name, b.name)
}

/// The version text of a tag, where it is a version.
pub fn parse_semantic_version_tag(tag: &str) -> (r: Option<String>)
    ensures
        text::opt_text(r) == if is_version(version_text(tag@)) {
            Some(version_text(tag@))
        } else {
            None
        },
{
    let v = text::trim_start_matches(tag, 'v');
    if reads_as_version(v.as_str()) {
        Some(v)
    } else {
        None
    }
}

/// What the order of two versions says of a third.
pub open spec fn versions_compare(a: Seq<char>, b: Seq<char>) -> bool {
    if lower_version(a, b) {
        &&& !lower_version(b, a)
        &&& forall|c: Seq<char>|
            is_version(c) && #[trigger] lower_version(c, a) ==> lower_version(c, b)
    } else {
        forall|c: Seq<char>|
            is_version(c) && #[trigger] lower_version(c, b) ==> lower_version(c, a)
    }
}

proof fn tags_compare(a: NodeView, b: NodeView)
    requires
        is_version(version_text(a.name)) && is_version(version_text(b.name)) ==> versions_compare(
            version_text(b.name),
            version_text(a.name),
        ),
    ensures
        order::compares(tag_order(), a, b),
{
    let before = tag_order();
    assert forall|c: NodeView| before(a, b) && #[trigger] before(b, c) implies before(a, c) by {
        if !is_version(version_text(a.name)) {
            order::precedes_transitive(a.name, b.name, c.name);
        }
    }
    assert forall|c: NodeView| !before(a, b) && !#[trigger] before(b, c) implies !before(a, c) by {
        if before(a, c) && !is_version(version_text(a.name)) && !is_version(version_text(b.name)) {
            order::precedes_total(b.name, c.name);
            if b.name != c.name {
                order::precedes_transitive(a.name, c.name, b.name);
            }
        }
    }
    if before(a, b) && before(b, a) {
        order::precedes_transitive(a.name, b.name, a.name);
        order::precedes_irreflexive(a.name);
    }
}

/// Whether a tag goes before another, by the versions that were read in them.
pub fn tag_goes_before(a: &str, b: &str, a_version: &Option<String>, b_version: &Option<String>) -> (r:
    bool)
    requires
        a_version matches Some(v) ==> is_version(v@),
        b_version matches Some(v) ==> is_version(v@),
    ensures
        r == match (text::opt_text(*a_version), text::opt_text(*b_version)) {
            (None, None) => order::precedes(a@, b@),
            (None, Some(_)) => false,
            (Some(_), None) => true,
            (Some(x), Some(y)) => lower_version(y, x),
        },
        a_version matches Some(x) ==> (b_version matches Some(y) ==> versions_compare(y@, x@)),
{
    match (a_version, b_version) {
        (None, None) => order::less(a, b),
        (None, Some(_)) => false,
        (Some(_), None) => true,
        (Some(x), Some(y)) => version_is_lower(y.as_str(), x.as_str()),
    }
}

/// Whether a tag goes before another.
pub fn tag_comes_first(a: &str, b: &str) -> (r: bool)
    ensures
        r == tag_before(a@, b@),
        is_version(version_text(a@)) && is_version(version_text(b@)) ==> versions_compare(
            version_text(b@),
            version_text(a@),
        ),
{
    let a_version = parse_semantic_version_tag(a);
    let b_version = parse_semantic_version_tag(b);
    tag_goes_before(a, b, &a_version, &b_version)
}

/// Puts tags in order: the highest version comes first.
pub fn sort_tag_tree_nodes(nodes: &mut Vec<RefTreeNode>)
    ensures
        node_views(final(nodes)@) == order::arranged(node_views(old(nodes)@), tag_order()),
        order::in_order(node_views(final(nodes)@), tag_order()),
{
    proof {
        node_views_mapped(nodes@);
    }
    let comes_first = |a: &RefTreeNode, b: &RefTreeNode| -> (r: bool)
        ensures
            r == tag_order()(node_view(*a), node_view(*b)),
            order::compares(tag_order(), node_view(*a), node_view(*b)),
        {
            let r = tag_comes_first(a.name.as_str(), b.name.as_str());
            proof {
                tags_compare(node_view(*a), node_view(*b));
            }
            r
        };
    order::sort_by::<RefTreeNode, NodeView, _>(
        nodes,
        comes_first,
        Ghost(|n: RefTreeNode| node_view(n)),
        Ghost(tag_order()),
    );
    proof {
        node_views_mapped(nodes@);
    }
}

pub open spec fn stash_order() -> spec_fn(NodeView, NodeView) -> bool {
    |a: NodeView, b: NodeView| order::precedes(a.identifier, b.identifier)
}

pub fn sort_stash_tree_nodes(nodes: &mut Vec<RefTreeNode>)
    ensures
        node_views(final(nodes)@) == order::arranged(node_views(old(nodes)@), stash_order()),
{
    proof {
        node_views_mapped(nodes@);
    }
    let comes_first = |a: &RefTreeNode, b: &RefTreeNode| -> (r: bool)
        ensures
            r == stash_order()(node_view(*a), node_view(*b)),
        { order::less(a.identifier.as_str(), b.identifier.as_str()) };
    order::sort_by::<RefTreeNode, NodeView, _>(
        nodes,
        comes_first,
        Ghost(|n: RefTreeNode| node_view(n)),
        Ghost(stash_order()),
    );
    proof {
        node_views_mapped(nodes@);
    }
}

/// What the nodes of a tree stand for.
#[derive(Debug, Clone, Copy, PartialEq, Eq, Structural)]
pub enum TreeNodeKind {
    Branch,
    RemoteBranch,
    Other,
}

/// A node as it is drawn.
#[derive(Debug)]
pub struct RefTreeItem {
    pub identifier: String,
    pub text: String,
    pub color: Color,
    pub children: Vec<RefTreeItem>,
}

pub ghost struct ItemView {
    pub identifier: Seq<char>,
    pub text: Seq<char>,
    pub color: Color,
    pub children: Seq<ItemView>,
}

pub open spec fn item_view(n: RefTreeItem) -> ItemView
    decreases n,
{
    ItemView {
        identifier: n.identifier@,
        text: n.text@,
        color: n.color,
        children: item_views(n.children@),
    }
}

/// What a list of items shows.
pub open spec fn item_views(s: Seq<RefTreeItem>) -> Seq<ItemView>
    decreases s,
{
    if s.len() == 0 {
        Seq::empty()
    } else {
        item_views(s.drop_last()).push(item_view(s.last()))
    }
}

/// The colour of a node: a branch has its own, and so has a remote branch, but not the remote.
pub open spec fn node_color(
    identifier: Seq<char>,
    visuals: &BranchVisuals,
    theme: ColorTheme,
    kind: TreeNodeKind,
) -> Color {
    match kind {
        TreeNodeKind::Branch => visuals.name_color(identifier),
        TreeNodeKind::RemoteBranch => if text::holds(identifier, "/"@) {
            visuals.name_color(identifier)
        } else {
            theme.fg
        },
        TreeNodeKind::Other => theme.fg,
    }
}

pub fn tree_item_color(
    identifier: &str,
    branch_visuals: &BranchVisuals,
    color_theme: &ColorTheme,
    kind: TreeNodeKind,
) -> (r: Color)
    requires
        branch_visuals.wf(),
    ensures
        r == node_color(identifier@, branch_visuals, *color_theme, kind),
{
    match kind {
        TreeNodeKind::Branch => branch_visuals.color_for_name(identifier),
        TreeNodeKind::RemoteBranch => if text::contains(identifier, "/") {
            branch_visuals.color_for_name(identifier)
        } else {
            color_theme.fg
        },
        TreeNodeKind::Other => color_theme.fg,
    }
}

/// The nodes as they are drawn.
pub open spec fn items_of(
    nodes: Seq<NodeView>,
    visuals: &BranchVisuals,
    theme: ColorTheme,
    kind: TreeNodeKind,
) -> Seq<ItemView>
    decreases nodes,
{
    if nodes.len() == 0 {
        Seq::empty()
    } else {
        let n = nodes.last();
        items_of(nodes.drop_last(), visuals, theme, kind).push(
            ItemView {
                identifier: n.identifier,
                text: n.name,
                color: node_color(n.identifier, visuals, theme, kind),
                children: items_of(n.children, visuals, theme, kind),
            },
        )
    }
}

fn tree_item(
    identifier: String,
    name: String,
    children: Vec<RefTreeItem>,
    branch_visuals: &BranchVisuals,
    color_theme: &ColorTheme,
    kind: TreeNodeKind,
) -> (r: RefTreeItem)
    requires
        branch_visuals.wf(),
    ensures
        item_view(r) == (ItemView {
            identifier: identifier@,
            text: name@,
            color: node_color(identifier@, branch_visuals, *color_theme, kind),
            children: item_views(children@),
        }),
{
    let color = tree_item_color(identifier.as_str(), branch_visuals, color_theme, kind);
    RefTreeItem { identifier, text: name, color, children }
}

pub fn ref_tree_nodes_to_tree_items(
    nodes: &Vec<RefTreeNode>,
    branch_visuals: &BranchVisuals,
    color_theme: &ColorTheme,
    kind: TreeNodeKind,
) -> (r: Vec<RefTreeItem>)
    requires
        branch_visuals.wf(),
    ensures
        item_views(r@) == items_of(node_views(nodes@), branch_visuals, *color_theme, kind),
    decreases nodes@,
{
    let ghost views = node_views(nodes@);
    let mut items: Vec<RefTreeItem> = Vec::new();
    let mut i: usize = 0;
    proof {
        node_views_index(nodes@);
    }
    assert(views.take(0) =~= Seq::<NodeView>::empty());
    while i < nodes.len()
        invariant
            i <= nodes@.len(),
            branch_visuals.wf(),
            views == node_views(nodes@),
            views.len() == nodes@.len(),
            forall|j: int| 0 <= j < nodes@.len() ==> #[trigger] views[j] == node_view(nodes@[j]),
            item_views(items@) == items_of(
                views.take(i as int),
                branch_visuals,
                *color_theme,
                kind,
            ),
        decreases nodes@.len() - i,
    {
        let node = &nodes[i];
        proof {
            assert(views.take(i + 1).drop_last() =~= views.take(i as int));
            assert(views.take(i + 1).last() == node_view(*node));
            assert(decreases_to!(nodes@ => nodes@[i as int]));
            assert(decreases_to!(nodes@[i as int] => nodes@[i as int].children));
            assert(decreases_to!(nodes@[i as int].children => nodes@[i as int].children@));
        }
        let children = ref_tree_nodes_to_tree_items(
            &node.children,
            branch_visuals,
            color_theme,
            kind,
        );
        let item = tree_item(
            node.identifier.clone(),
            node.name.clone(),
            children,
            branch_visuals,
            color_theme,
            kind,
        );
        assert(items@.push(item).drop_last() =~= items@);
        items.push(item);
        i = i + 1;
    }
    assert(views.take(i as int) =~= views);
    items
}

/// The names of the references of one sort, in their order.
pub open spec fn names_of(refs: Seq<git::RefView>, rank: int) -> Seq<Seq<char>>
    decreases refs.len(),
{
    if refs.len() == 0 {
        Seq::empty()
    } else {
        let rest = names_of(refs.drop_last(), rank);
        if refs.last().rank() == rank {
            rest.push(refs.last().name())
        } else {
            rest
        }
    }
}

/// The names and messages of the stashes, in their order.
pub open spec fn stashes_of(refs: Seq<git::RefView>) -> Seq<(Seq<char>, Seq<char>)>
    decreases refs.len(),
{
    if refs.len() == 0 {
        Seq::empty()
    } else {
        let rest = stashes_of(refs.drop_last());
        if refs.last() is Stash {
            rest.push((refs.last().name(), refs.last().message()))
        } else {
            rest
        }
    }
}

/// One of the four roots of the tree.
pub open spec fn root_item(
    identifier: Seq<char>,
    text: Seq<char>,
    theme: ColorTheme,
    children: Seq<ItemView>,
) -> ItemView {
    ItemView { identifier, text, color: theme.fg, children }
}

/// The tree of all references: branches, remote branches, tags and stashes.
pub open spec fn ref_tree(refs: Seq<git::RefView>, visuals: &BranchVisuals, theme: ColorTheme) -> Seq<
    ItemView,
> {
    seq![
        root_item(
            TREE_BRANCH_ROOT_IDENT@,
            TREE_BRANCH_ROOT_TEXT@,
            theme,
            items_of(
                branches_sorted(tree_of(names_of(refs, 1))),
                visuals,
                theme,
                TreeNodeKind::Branch,
            ),
        ),
        root_item(
            TREE_REMOTE_ROOT_IDENT@,
            TREE_REMOTE_ROOT_TEXT@,
            theme,
            items_of(
                branches_sorted(tree_of(names_of(refs, 2))),
                visuals,
                theme,
                TreeNodeKind::RemoteBranch,
            ),
        ),
        root_item(
            TREE_TAG_ROOT_IDENT@,
            TREE_TAG_ROOT_TEXT@,
            theme,
            items_of(
                order::arranged(tree_of(names_of(refs, 0)), tag_order()),
                visuals,
                theme,
                TreeNodeKind::Other,
            ),
        ),
        root_item(
            TREE_STASH_ROOT_IDENT@,
            TREE_STASH_ROOT_TEXT@,
            theme,
            items_of(
                order::arranged(stash_nodes(stashes_of(refs)), stash_order()),
                visuals,
                theme,
                TreeNodeKind::Other,
            ),
        ),
    ]
}

/// Builds the tree of all references.
pub fn build_ref_tree_items(
    refs: &[Ref],
    branch_visuals: &BranchVisuals,
    color_theme: &ColorTheme,
) -> (r: Vec<RefTreeItem>)
    requires
        branch_visuals.wf(),
    ensures
        item_views(r@) == ref_tree(git::ref_views(refs@), branch_visuals, *color_theme),
{
    let ghost all = git::ref_views(refs@);
    let mut branch_refs: Vec<String> = Vec::new();
    let mut remote_refs: Vec<String> = Vec::new();
    let mut tag_refs: Vec<String> = Vec::new();
    let mut stash_refs: Vec<(String, String)> = Vec::new();
    let mut i: usize = 0;
    proof {
        assert(all.take(0) =~= Seq::<git::RefView>::empty());
        assert(text::texts(branch_refs@) =~= Seq::<Seq<char>>::empty());
        assert(pairs(stash_refs@) =~= Seq::<(Seq<char>, Seq<char>)>::empty());
    }
    while i < refs.len()
        invariant
            i <= refs@.len(),
            all == git::ref_views(refs@),
            text::texts(branch_refs@) == names_of(all.take(i as int), 1),
            text::texts(remote_refs@) == names_of(all.take(i as int), 2),
            text::texts(tag_refs@) == names_of(all.take(i as int), 0),
            pairs(stash_refs@) == stashes_of(all.take(i as int)),
        decreases refs@.len() - i,
    {
        proof {
            assert(all.take(i + 1).drop_last() =~= all.take(i as int));
            assert(all.take(i + 1).last() == refs@[i as int]@);
        }
        match &refs[i] {
            Ref::Tag { name, .. } => {
                let name = name.clone();
                proof {
                    text::texts_push(tag_refs@, name);
                }
                tag_refs.push(name);
            },
            Ref::Branch { name, .. } => {
                let name = name.clone();
                proof {
                    text::texts_push(branch_refs@, name);
                }
                branch_refs.push(name);
            },
            Ref::RemoteBranch { name, .. } => {
                let name = name.clone();
                proof {
                    text::texts_push(remote_refs@, name);
                }
                remote_refs.push(name);
            },
            Ref::Stash { name, message, .. } => {
                let pair = (name.clone(), message.clone());
                assert(pairs(stash_refs@.push(pair)) =~= pairs(stash_refs@).push(
                    (name@, message@),
                ));
                stash_refs.push(pair);
            },
        }
        i = i + 1;
    }
    assert(all.take(i as int) =~= all);

    let mut branch_nodes = refs_to_ref_tree_nodes(&branch_refs);
    let mut remote_nodes = refs_to_ref_tree_nodes(&remote_refs);
    let mut tag_nodes = refs_to_ref_tree_nodes(&tag_refs);
    let mut stash_nodes = refs_to_stash_ref_tree_nodes(&stash_refs);

    sort_branch_tree_nodes(&mut branch_nodes);
    sort_branch_tree_nodes(&mut remote_nodes);
    sort_tag_tree_nodes(&mut tag_nodes);
    sort_stash_tree_nodes(&mut stash_nodes);

    let branch_items = ref_tree_nodes_to_tree_items(
        &branch_nodes,
        branch_visuals,
        color_theme,
        TreeNodeKind::Branch,
    );
    let remote_items = ref_tree_nodes_to_tree_items(
        &remote_nodes,
        branch_visuals,
        color_theme,
        TreeNodeKind::RemoteBranch,
    );
    let tag_items = ref_tree_nodes_to_tree_items(
        &tag_nodes,
        branch_visuals,
        color_theme,
        TreeNodeKind::Other,
    );
    let stash_items = ref_tree_nodes_to_tree_items(
        &stash_nodes,
        branch_visuals,
        color_theme,
        TreeNodeKind::Other,
    );

    let mut r: Vec<RefTreeItem> = Vec::new();
    let branches = tree_item(
        TREE_BRANCH_ROOT_IDENT.to_string(),
        TREE_BRANCH_ROOT_TEXT.to_string(),
        branch_items,
        branch_visuals,
        color_theme,
        TreeNodeKind::Other,
    );
    let remotes = tree_item(
        TREE_REMOTE_ROOT_IDENT.to_string(),
        TREE_REMOTE_ROOT_TEXT.to_string(),
        remote_items,
        branch_visuals,
        color_theme,
        TreeNodeKind::Other,
    );
    let tags = tree_item(
        TREE_TAG_ROOT_IDENT.to_string(),
        TREE_TAG_ROOT_TEXT.to_string(),
        tag_items,
        branch_visuals,
        color_theme,
        TreeNodeKind::Other,
    );
    let stashes = tree_item(
        TREE_STASH_ROOT_IDENT.to_string(),
        TREE_STASH_ROOT_TEXT.to_string(),
        stash_items,
        branch_visuals,
        color_theme,
        TreeNodeKind::Other,
    );
    let ghost four = seq![branches, remotes, tags, stashes];
    r.push(branches);
    r.push(remotes);
    r.push(tags);
    r.push(stashes);
    proof {
        assert(r@ =~= four);
        reveal_with_fuel(item_views, 5);
        assert(four.drop_last() =~= seq![branches, remotes, tags]);
        assert(seq![branches, remotes, tags].drop_last() =~= seq![branches, remotes]);
        assert(seq![branches, remotes].drop_last() =~= seq![branches]);
        assert(seq![branches].drop_last() =~= Seq::<RefTreeItem>::empty());
        assert(item_views(four) =~= ref_tree(all, branch_visuals, *color_theme));
    }
    r
}

/// Whether no two nodes side by side have one name, and each has the identifier that its place in
/// the tree gives it.
pub open spec fn proper(nodes: Seq<NodeView>, parent: Seq<char>) -> bool
    decreases nodes,
{
    &&& forall|i: int, j: int|
        0 <= i < j < nodes.len() ==> (#[trigger] nodes[i]).name != (#[trigger] nodes[j]).name
    &&& forall|i: int|
        0 <= i < nodes.len() ==> (#[trigger] nodes[i]).identifier == under(parent, nodes[i].name)
            && proper(nodes[i].children, nodes[i].identifier)
}

proof fn adding_keeps_proper(nodes: Seq<NodeView>, parent: Seq<char>, parts: Seq<Seq<char>>)
    requires
        proper(nodes, parent),
    ensures
        proper(with_path(nodes, parent, parts), parent),
    decreases parts.len(),
{
    if parts.len() > 0 {
        let p = node_place(nodes, parts[0], 0);
        let next = with_path(nodes, parent, parts);
        node_place_bounds(nodes, parts[0], 0);
        if p < nodes.len() {
            assert(proper(nodes[p].children, nodes[p].identifier));
            adding_keeps_proper(nodes[p].children, nodes[p].identifier, parts.skip(1));
            assert forall|i: int, j: int| 0 <= i < j < next.len() implies (#[trigger] next[i]).name
                != (#[trigger] next[j]).name by {
                assert(nodes[i].name != nodes[j].name);
            }
            assert forall|i: int| 0 <= i < next.len() implies (#[trigger] next[i]).identifier
                == under(parent, next[i].name) && proper(next[i].children, next[i].identifier) by {
                assert(nodes[i].identifier == under(parent, nodes[i].name));
            }
        } else {
            let identifier = under(parent, parts[0]);
            adding_keeps_proper(Seq::empty(), identifier, parts.skip(1));
            assert forall|i: int, j: int| 0 <= i < j < next.len() implies (#[trigger] next[i]).name
                != (#[trigger] next[j]).name by {
                assert(nodes[i].name != parts[0]);
                if j < nodes.len() {
                    assert(nodes[i].name != nodes[j].name);
                }
            }
            assert forall|i: int| 0 <= i < next.len() implies (#[trigger] next[i]).identifier
                == under(parent, next[i].name) && proper(next[i].children, next[i].identifier) by {
                if i < nodes.len() {
                    assert(nodes[i].identifier == under(parent, nodes[i].name));
                }
            }
        }
    }
}

/// In the tree of any names, no two nodes side by side have one name, and each node has the
/// identifier that its place gives it.
pub proof fn trees_are_proper(names: Seq<Seq<char>>)
    ensures
        proper(tree_of(names), Seq::empty()),
    decreases names.len(),
{
    if names.len() > 0 {
        trees_are_proper(names.drop_last());
        adding_keeps_proper(
            tree_of(names.drop_last()),
            Seq::empty(),
            text::pieces(names.last(), '/'),
        );
    }
}

/// Nodes side by side in such a tree have identifiers that differ.
pub proof fn identifiers_differ(nodes: Seq<NodeView>, parent: Seq<char>, i: int, j: int)
    requires
        proper(nodes, parent),
        0 <= i < j < nodes.len(),
    ensures
        nodes[i].identifier != nodes[j].identifier,
{
    let a = nodes[i].name;
    let b = nodes[j].name;
    assert(nodes[i].identifier == under(parent, a));
    assert(nodes[j].identifier == under(parent, b));
    if parent.len() > 0 && under(parent, a) == under(parent, b) {
        let front = parent + "/"@;
        assert((front + a).skip(front.len() as int) =~= a);
        assert((front + b).skip(front.len() as int) =~= b);
    }
}

/// Whether the nodes have a path of these parts.
pub open spec fn has_path(nodes: Seq<NodeView>, parts: Seq<Seq<char>>) -> bool
    decreases parts.len(),
{
    parts.len() == 0 || exists|i: int|
        0 <= i < nodes.len() && (#[trigger] nodes[i]).name == parts[0] && has_path(
            nodes[i].children,
            parts.skip(1),
        )
}

proof fn added_path_is_there(nodes: Seq<NodeView>, parent: Seq<char>, parts: Seq<Seq<char>>)
    ensures
        has_path(with_path(nodes, parent, parts), parts),
    decreases parts.len(),
{
    if parts.len() > 0 {
        let p = node_place(nodes, parts[0], 0);
        let next = with_path(nodes, parent, parts);
        node_place_bounds(nodes, parts[0], 0);
        if p < nodes.len() {
            added_path_is_there(nodes[p].children, nodes[p].identifier, parts.skip(1));
            assert(next[p].name == parts[0]);
        } else {
            added_path_is_there(Seq::empty(), under(parent, parts[0]), parts.skip(1));
            assert(next[nodes.len() as int].name == parts[0]);
        }
    }
}

proof fn other_paths_stay(
    nodes: Seq<NodeView>,
    parent: Seq<char>,
    parts: Seq<Seq<char>>,
    other: Seq<Seq<char>>,
)
    requires
        has_path(nodes, other),
    ensures
        has_path(with_path(nodes, parent, parts), other),
    decreases parts.len(),
{
    if parts.len() > 0 && other.len() > 0 {
        let p = node_place(nodes, parts[0], 0);
        let next = with_path(nodes, parent, parts);
        node_place_bounds(nodes, parts[0], 0);
        let i = choose|i: int|
            0 <= i < nodes.len() && (#[trigger] nodes[i]).name == other[0] && has_path(
                nodes[i].children,
                other.skip(1),
            );
        if i == p {
            other_paths_stay(
                nodes[p].children,
                nodes[p].identifier,
                parts.skip(1),
                other.skip(1),
            );
        }
        assert(next[i].name == other[0]);
    }
}

/// Every name is in the tree.
pub proof fn every_name_is_in_the_tree(names: Seq<Seq<char>>, i: int)
    requires
        0 <= i < names.len(),
    ensures
        has_path(tree_of(names), text::pieces(names[i], '/')),
    decreases names.len(),
{
    let front = names.drop_last();
    let last = text::pieces(names.last(), '/');
    if i == names.len() - 1 {
        added_path_is_there(tree_of(front), Seq::empty(), last);
    } else {
        every_name_is_in_the_tree(front, i);
        assert(front[i] == names[i]);
        other_paths_stay(tree_of(front), Seq::empty(), last, text::pieces(names[i], '/'));
    }
}

proof fn branches_are_ordered()
    ensures
        order::orders(branch_order()),
{
    let before = branch_order();
    assert forall|a: NodeView| !#[trigger] before(a, a) by {
        order::precedes_irreflexive(a.name);
    }
    assert forall|a: NodeView, b: NodeView, c: NodeView| #[trigger] before(a, b) && #[trigger] before(
        b,
        c,
    ) implies before(a, c) by {
        if a.children.len() == b.children.len() && b.children.len() == c.children.len() {
            order::precedes_transitive(a.name, b.name, c.name);
        }
    }
    assert forall|a: NodeView, b: NodeView, c: NodeView|
        #![trigger before(a, b), before(b, c)]
        !before(a, b) && !before(b, c) implies !before(a, c) by {
        if before(a, c) && a.children.len() == c.children.len() {
            order::precedes_total(b.name, c.name);
            if b.name != c.name {
                order::precedes_transitive(a.name, c.name, b.name);
            }
        }
    }
}

/// Whether branches stand in order, at every level.
pub open spec fn tree_in_order(s: Seq<NodeView>) -> bool
    decreases s,
{
    &&& order::in_order(s, branch_order())
    &&& forall|i: int| 0 <= i < s.len() ==> tree_in_order((#[trigger] s[i]).children)
}

/// Sorted branches stand in order, at every level.
pub proof fn branches_come_in_order(s: Seq<NodeView>)
    ensures
        tree_in_order(branches_sorted(s)),
    decreases s,
{
    let inner = children_sorted(s);
    let r = branches_sorted(s);
    children_sorted_index(s);
    branches_are_ordered();
    order::arranged_is_sorted_permutation(inner, branch_order());
    assert forall|i: int| 0 <= i < r.len() implies tree_in_order((#[trigger] r[i]).children) by {
        assert(r.contains(r[i]));
        order::arranged_adds_nothing(inner, branch_order(), r[i]);
        let k = choose|k: int| 0 <= k < inner.len() && inner[k] == r[i];
        assert(decreases_to!(s => s[k]));
        branches_come_in_order(s[k].children);
    }
}

/// Sorted stashes stand in order of their names.
pub proof fn stashes_come_in_order(s: Seq<NodeView>)
    ensures
        order::in_order(order::arranged(s, stash_order()), stash_order()),
{
    let before = stash_order();
    assert forall|a: NodeView| !#[trigger] before(a, a) by {
        order::precedes_irreflexive(a.identifier);
    }
    assert forall|a: NodeView, b: NodeView, c: NodeView| #[trigger] before(a, b) && #[trigger] before(
        b,
        c,
    ) implies before(a, c) by {
        order::precedes_transitive(a.identifier, b.identifier, c.identifier);
    }
    assert forall|a: NodeView, b: NodeView, c: NodeView|
        #![trigger before(a, b), before(b, c)]
        !before(a, b) && !before(b, c) implies !before(a, c) by {
        if before(a, c) {
            order::precedes_total(b.identifier, c.identifier);
            if b.identifier != c.identifier {
                order::precedes_transitive(a.identifier, c.identifier, b.identifier);
            }
        }
    }
    order::arranged_is_sorted_permutation(s, before);
}

proof fn names_of_are(refs: Seq<git::RefView>, rank: int, name: Seq<char>)
    ensures
        names_of(refs, rank).contains(name) <==> exists|i: int|
            0 <= i < refs.len() && (#[trigger] refs[i]).rank() == rank && refs[i].name() == name,
    decreases refs.len(),
{
    if refs.len() > 0 {
        let front = refs.drop_last();
        let rest = names_of(front, rank);
        let all = names_of(refs, rank);
        names_of_are(front, rank, name);
        let here = refs.last().rank() == rank && refs.last().name() == name;
        assert(all.contains(name) <==> rest.contains(name) || here) by {
            if rest.contains(name) {
                let i = choose|i: int| 0 <= i < rest.len() && rest[i] == name;
                assert(all[i] == name);
            }
            if here {
                assert(all[rest.len() as int] == name);
            }
            if all.contains(name) {
                let i = choose|i: int| 0 <= i < all.len() && all[i] == name;
                if i < rest.len() {
                    assert(rest[i] == name);
                }
            }
        }
        if rest.contains(name) {
            let i = choose|i: int|
                0 <= i < front.len() && (#[trigger] front[i]).rank() == rank && front[i].name()
                    == name;
            assert(refs[i] == front[i]);
        }
        if here {
            assert(refs[refs.len() - 1] == refs.last());
        }
        if exists|i: int|
            0 <= i < refs.len() && (#[trigger] refs[i]).rank() == rank && refs[i].name() == name {
            let i = choose|i: int|
                0 <= i < refs.len() && (#[trigger] refs[i]).rank() == rank && refs[i].name() == name;
            if i < front.len() {
                assert(front[i] == refs[i]);
            }
        }
    }
}

/// The four trees are of the branches, of those of remotes, of the tags and of the stashes, in this
/// order, and each name goes into the tree of its sort.
pub proof fn references_go_by_their_sorts(
    refs: Seq<git::RefView>,
    visuals: &BranchVisuals,
    theme: ColorTheme,
    name: Seq<char>,
)
    ensures
        ({
            let trees = ref_tree(refs, visuals, theme);
            &&& trees.len() == 4
            &&& trees[0].text == "Branches"@ && trees[1].text == "Remotes"@ && trees[2].text
                == "Tags"@ && trees[3].text == "Stashes"@
        }),
        names_of(refs, 0).contains(name) <==> exists|i: int|
            0 <= i < refs.len() && #[trigger] refs[i] is Tag && refs[i].name() == name,
        names_of(refs, 1).contains(name) <==> exists|i: int|
            0 <= i < refs.len() && #[trigger] refs[i] is Branch && refs[i].name() == name,
        names_of(refs, 2).contains(name) <==> exists|i: int|
            0 <= i < refs.len() && #[trigger] refs[i] is RemoteBranch && refs[i].name() == name,
{
    names_of_are(refs, 0, name);
    names_of_are(refs, 1, name);
    names_of_are(refs, 2, name);
    if exists|i: int| 0 <= i < refs.len() && #[trigger] refs[i] is Tag && refs[i].name() == name {
        let i = choose|i: int| 0 <= i < refs.len() && #[trigger] refs[i] is Tag && refs[i].name() == name;
        assert(refs[i].rank() == 0);
    }
    if exists|i: int| 0 <= i < refs.len() && #[trigger] refs[i] is Branch && refs[i].name() == name {
        let i = choose|i: int| 0 <= i < refs.len() && #[trigger] refs[i] is Branch && refs[i].name() == name;
        assert(refs[i].rank() == 1);
    }
    if exists|i: int|
        0 <= i < refs.len() && #[trigger] refs[i] is RemoteBranch && refs[i].name() == name {
        let i = choose|i: int|
            0 <= i < refs.len() && #[trigger] refs[i] is RemoteBranch && refs[i].name() == name;
        assert(refs[i].rank() == 2);
    }
}

/// Tags that are versions come before the others, the higher version first, with or without a `v`
/// before it. The others come by their names.
pub proof fn higher_versions_come_first(a: Seq<char>, b: Seq<char>)
    requires
        a.len() > 0 && a[0] != 'v',
        b.len() > 0 && b[0] != 'v',
    ensures
        is_version(a) && is_version(b) ==> (tag_before(a, b) <==> lower_version(b, a)),
        is_version(a) && !is_version(b) ==> tag_before(a, b) && !tag_before(b, a),
        !is_version(a) && !is_version(b) ==> (tag_before(a, b) <==> order::precedes(a, b)),
        is_version(a) && is_version(b) ==> (tag_before(seq!['v'] + a, b) <==> lower_version(b, a)),
{
    assert(version_text(a) == a);
    assert(version_text(b) == b);
    let v = seq!['v'] + a;
    assert(v[0] == 'v');
    assert(v.skip(1) =~= a);
    assert(text::goes('v', Some('v')));
    assert(version_text(v) == text::stripped_start(v.skip(1), Some('v')));
}

/// Nodes with more below them come first, and others by their names.
pub proof fn fuller_nodes_come_first(a: NodeView, b: NodeView)
    ensures
        a.children.len() > b.children.len() ==> branch_order()(a, b) && !branch_order()(b, a),
        a.children.len() == b.children.len() ==> (branch_order()(a, b) <==> order::precedes(
            a.name,
            b.name,
        )),
{
}

} // verus!
