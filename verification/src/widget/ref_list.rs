//! What is selected and opened in the tree of references.

use tui_tree_widget::TreeState;
use vstd::prelude::*;
use vstd::string::*;
use crate::git;
use crate::git::Ref;
use crate::text;
use crate::widget::ref_tree;

verus! {

/// `tui_tree_widget::TreeState`: which node is selected, which are opened, and which were listed
/// when the tree was last drawn. A node is given by the identifiers on the way to it.
#[verifier::external_type_specification]
#[verifier::external_body]
#[verifier::reject_recursive_types(Identifier)]
pub struct ExTreeState<Identifier>(TreeState<Identifier>);

/// The node that is selected.
pub uninterp spec fn tree_selected(s: TreeState<String>) -> Seq<Seq<char>>;

/// The nodes that are opened.
pub uninterp spec fn tree_opened(s: TreeState<String>) -> Set<Seq<Seq<char>>>;

/// The nodes that were listed when the tree was last drawn.
pub uninterp spec fn tree_listed(s: TreeState<String>) -> Seq<Seq<Seq<char>>>;

/// The number of the last row when the tree was last drawn.
pub uninterp spec fn tree_bottom(s: TreeState<String>) -> usize;

/// The row on which a node was listed, if it was.
pub open spec fn row_of(listed: Seq<Seq<Seq<char>>>, node: Seq<Seq<char>>, from: int) -> Option<int>
    decreases listed.len() - from,
{
    if from >= listed.len() {
        None
    } else if listed[from] == node {
        Some(from)
    } else {
        row_of(listed, node, from + 1)
    }
}

/// The node that was listed on a row: none past the end, and no row past the bottom counts.
pub open spec fn node_on(listed: Seq<Seq<Seq<char>>>, bottom: usize, row: int) -> Seq<Seq<char>> {
    let row = if row <= bottom {
        row
    } else {
        bottom as int
    };
    if row < listed.len() {
        listed[row]
    } else {
        Seq::empty()
    }
}

/// The node one row below a node: the first where the node is not listed.
pub open spec fn node_below(
    listed: Seq<Seq<Seq<char>>>,
    bottom: usize,
    node: Seq<Seq<char>>,
) -> Seq<Seq<char>> {
    let row = match row_of(listed, node, 0) {
        Some(i) => i + 1,
        None => 0,
    };
    node_on(listed, bottom, row)
}

/// The node one row above a node: the last where the node is not listed.
pub open spec fn node_above(
    listed: Seq<Seq<Seq<char>>>,
    bottom: usize,
    node: Seq<Seq<char>>,
) -> Seq<Seq<char>> {
    let row = match row_of(listed, node, 0) {
        Some(i) => if i > 0 {
            i - 1
        } else {
            0
        },
        None => usize::MAX as int,
    };
    node_on(listed, bottom, row)
}

/// `TreeState::default`: nothing is selected, opened or listed.
#[verifier::external_body]
fn new_tree() -> (r: TreeState<String>)
    ensures
        tree_selected(r).len() == 0,
        tree_listed(r).len() == 0,
        tree_bottom(r) == 0,
        forall|node: Seq<Seq<char>>| !tree_opened(r).contains(node),
{
    TreeState::default()
}

/// `TreeState::select`: selects the node.
#[verifier::external_body]
fn select(tree: &mut TreeState<String>, node: Vec<String>)
    ensures
        tree_selected(*final(tree)) == text::texts(node@),
        tree_opened(*final(tree)) == tree_opened(*old(tree)),
        tree_listed(*final(tree)) == tree_listed(*old(tree)),
        tree_bottom(*final(tree)) == tree_bottom(*old(tree)),
{
    tree.select(node);
}

/// `TreeState::open`: opens the node, unless it is none.
#[verifier::external_body]
fn open(tree: &mut TreeState<String>, node: Vec<String>)
    ensures
        tree_selected(*final(tree)) == tree_selected(*old(tree)),
        tree_listed(*final(tree)) == tree_listed(*old(tree)),
        tree_bottom(*final(tree)) == tree_bottom(*old(tree)),
        tree_opened(*final(tree)) == if node@.len() == 0 { tree_opened(*old(tree)) } else { tree_opened(*old(tree)).insert(text::texts(node@)) },
{
    tree.open(node);
}

/// `TreeState::close_all`: closes all nodes.
#[verifier::external_body]
fn close_all(tree: &mut TreeState<String>)
    ensures
        tree_selected(*final(tree)) == tree_selected(*old(tree)),
        tree_listed(*final(tree)) == tree_listed(*old(tree)),
        tree_bottom(*final(tree)) == tree_bottom(*old(tree)),
        forall|node: Seq<Seq<char>>| !tree_opened(*final(tree)).contains(node),
{
    tree.close_all();
}

/// `TreeState::selected`: the node that is selected.
#[verifier::external_body]
fn selected_node(tree: &TreeState<String>) -> (r: Vec<String>)
    ensures
        text::texts(r@) == tree_selected(*tree),
{
    tree.selected().to_vec()
}

/// `TreeState::opened`: the nodes that are opened, each once. The set is walked in an order that is
/// left open.
#[verifier::external_body]
fn opened_nodes(tree: &TreeState<String>) -> (r: Vec<Vec<String>>)
    ensures
        text::text_lists(r@).no_duplicates(),
        text::text_lists(r@).to_set() == tree_opened(*tree),
{
    tree.opened().iter().cloned().collect()
}

/// `TreeState::key_down`: selects the node one row down.
#[verifier::external_body]
fn key_down(tree: &mut TreeState<String>)
    ensures
        tree_selected(*final(tree)) == node_below(tree_listed(*old(tree)), tree_bottom(*old(tree)), tree_selected(*old(tree))),
        tree_opened(*final(tree)) == tree_opened(*old(tree)),
        tree_listed(*final(tree)) == tree_listed(*old(tree)),
        tree_bottom(*final(tree)) == tree_bottom(*old(tree)),
{
    tree.key_down();
}

/// `TreeState::key_up`: selects the node one row up.
#[verifier::external_body]
fn key_up(tree: &mut TreeState<String>)
    ensures
        tree_selected(*final(tree)) == node_above(tree_listed(*old(tree)), tree_bottom(*old(tree)), tree_selected(*old(tree))),
        tree_opened(*final(tree)) == tree_opened(*old(tree)),
        tree_listed(*final(tree)) == tree_listed(*old(tree)),
        tree_bottom(*final(tree)) == tree_bottom(*old(tree)),
{
    tree.key_up();
}

/// `TreeState::select_first`: selects the first node that was listed.
#[verifier::external_body]
fn select_first_listed(tree: &mut TreeState<String>)
    ensures
        tree_selected(*final(tree)) == if tree_listed(*old(tree)).len() > 0 { tree_listed(*old(tree)).first() } else { Seq::empty() },
        tree_opened(*final(tree)) == tree_opened(*old(tree)),
        tree_listed(*final(tree)) == tree_listed(*old(tree)),
        tree_bottom(*final(tree)) == tree_bottom(*old(tree)),
{
    tree.select_first();
}

/// `TreeState::select_last`: selects the last node that was listed.
#[verifier::external_body]
fn select_last_listed(tree: &mut TreeState<String>)
    ensures
        tree_selected(*final(tree)) == if tree_listed(*old(tree)).len() > 0 { tree_listed(*old(tree)).last() } else { Seq::empty() },
        tree_opened(*final(tree)) == tree_opened(*old(tree)),
        tree_listed(*final(tree)) == tree_listed(*old(tree)),
        tree_bottom(*final(tree)) == tree_bottom(*old(tree)),
{
    tree.select_last();
}

/// `TreeState::key_right`: opens the selected node.
#[verifier::external_body]
fn key_right(tree: &mut TreeState<String>)
    ensures
        tree_selected(*final(tree)) == tree_selected(*old(tree)),
        tree_listed(*final(tree)) == tree_listed(*old(tree)),
        tree_bottom(*final(tree)) == tree_bottom(*old(tree)),
        tree_opened(*final(tree)) == if tree_selected(*old(tree)).len() == 0 { tree_opened(*old(tree)) } else { tree_opened(*old(tree)).insert(tree_selected(*old(tree))) },
{
    tree.key_right();
}

/// `TreeState::key_left`: closes the selected node, or selects its parent where it is not open.
#[verifier::external_body]
fn key_left(tree: &mut TreeState<String>)
    ensures
        tree_listed(*final(tree)) == tree_listed(*old(tree)),
        tree_bottom(*final(tree)) == tree_bottom(*old(tree)),
        tree_opened(*final(tree)) == tree_opened(*old(tree)).remove(tree_selected(*old(tree))),
        tree_selected(*final(tree)) == if tree_opened(*old(tree)).contains(tree_selected(*old(tree))) || tree_selected(*old(tree)).len() == 0 { tree_selected(*old(tree)) } else { tree_selected(*old(tree)).drop_last() },
{
    tree.key_left();
}

/// What is selected and opened in the tree of references.
#[derive(Debug)]
pub struct RefListState {
    pub tree_state: TreeState<String>,
}

/// What is selected and opened in the tree, and what was listed when it was last drawn.
pub ghost struct RefsState {
    pub selected: Seq<Seq<char>>,
    pub opened: Set<Seq<Seq<char>>>,
    pub listed: Seq<Seq<Seq<char>>>,
    pub bottom: usize,
}

impl View for RefListState {
    type V = RefsState;

    open spec fn view(&self) -> RefsState {
        RefsState {
            selected: tree_selected(self.tree_state),
            opened: tree_opened(self.tree_state),
            listed: tree_listed(self.tree_state),
            bottom: tree_bottom(self.tree_state),
        }
    }
}

impl RefsState {
    pub open spec fn at(self, node: Seq<Seq<char>>) -> RefsState {
        RefsState { selected: node, ..self }
    }

    /// The tree with the node one row down selected.
    pub open spec fn down(self) -> RefsState {
        self.at(node_below(self.listed, self.bottom, self.selected))
    }

    /// The tree with the node one row up selected.
    pub open spec fn up(self) -> RefsState {
        self.at(node_above(self.listed, self.bottom, self.selected))
    }

    pub open spec fn down_by(self, n: int) -> RefsState
        decreases n,
    {
        if n <= 0 {
            self
        } else {
            self.down_by(n - 1).down()
        }
    }

    pub open spec fn up_by(self, n: int) -> RefsState
        decreases n,
    {
        if n <= 0 {
            self
        } else {
            self.up_by(n - 1).up()
        }
    }

    pub open spec fn first(self) -> RefsState {
        self.at(
            if self.listed.len() > 0 {
                self.listed.first()
            } else {
                Seq::empty()
            },
        )
    }

    pub open spec fn last(self) -> RefsState {
        self.at(
            if self.listed.len() > 0 {
                self.listed.last()
            } else {
                Seq::empty()
            },
        )
    }

    /// The tree with the selected node opened.
    pub open spec fn unfolded(self) -> RefsState {
        RefsState {
            opened: if self.selected.len() == 0 {
                self.opened
            } else {
                self.opened.insert(self.selected)
            },
            ..self
        }
    }

    /// The tree with the selected node closed, or with its parent selected where it is not open.
    pub open spec fn folded(self) -> RefsState {
        RefsState {
            opened: self.opened.remove(self.selected),
            selected: if self.opened.contains(self.selected) || self.selected.len() == 0 {
                self.selected
            } else {
                self.selected.drop_last()
            },
            ..self
        }
    }

    /// The tree with what leads somewhere of these nodes opened, and with what leads somewhere of
    /// the way to a node selected.
    pub open spec fn reset_to(
        self,
        refs: Seq<git::RefView>,
        selected: Seq<Seq<char>>,
        opened: Seq<Seq<Seq<char>>>,
    ) -> RefsState {
        RefsState {
            selected: valid_front(refs, selected),
            opened: Set::new(|p: Seq<Seq<char>>| opened.contains(p) && valid_path(refs, p)),
            ..self
        }
    }

    /// The tree with a branch selected, and what leads to it opened.
    pub open spec fn on_branch(self, name: Seq<char>) -> RefsState {
        let root = seq![ref_tree::TREE_BRANCH_ROOT_IDENT@];
        let parts = text::pieces(name, '/');
        RefsState {
            selected: root + steps_to(parts, parts.len() as int),
            opened: Set::new(
                |p: Seq<Seq<char>>|
                    self.opened.contains(p) || p == root || exists|k: int|
                        1 <= k < parts.len() && p == root + #[trigger] steps_to(parts, k),
            ),
            ..self
        }
    }
}

/// The tree before anything is done to it: the branches are selected and opened.
pub open spec fn fresh() -> RefsState {
    RefsState {
        selected: seq![ref_tree::TREE_BRANCH_ROOT_IDENT@],
        opened: set![seq![ref_tree::TREE_BRANCH_ROOT_IDENT@]],
        listed: Seq::empty(),
        bottom: 0,
    }
}

/// The identifiers on the way to the parts of a name, one after the other.
pub open spec fn steps_to(parts: Seq<Seq<char>>, k: int) -> Seq<Seq<char>>
    decreases k,
{
    if k <= 0 {
        Seq::empty()
    } else {
        let rest = steps_to(parts, k - 1);
        rest.push(
            ref_tree::under(
                if k == 1 {
                    Seq::empty()
                } else {
                    rest.last()
                },
                parts[k - 1],
            ),
        )
    }
}

/// Whether a path leads to a part of a branch's name under a root.
pub open spec fn branch_path(root: Seq<char>, name: Seq<char>, path: Seq<Seq<char>>) -> bool {
    let parts = text::pieces(name, '/');
    exists|k: int| 1 <= k <= parts.len() && path == seq![root] + #[trigger] steps_to(parts, k)
}

/// Whether a path leads to one of the four roots.
pub open spec fn root_path(path: Seq<Seq<char>>) -> bool {
    ||| path == seq![ref_tree::TREE_BRANCH_ROOT_IDENT@]
    ||| path == seq![ref_tree::TREE_REMOTE_ROOT_IDENT@]
    ||| path == seq![ref_tree::TREE_TAG_ROOT_IDENT@]
    ||| path == seq![ref_tree::TREE_STASH_ROOT_IDENT@]
}

/// Whether a path leads to a reference.
pub open spec fn ref_path(r: git::RefView, path: Seq<Seq<char>>) -> bool {
    match r {
        git::RefView::Branch { name, .. } => branch_path(
            ref_tree::TREE_BRANCH_ROOT_IDENT@,
            name,
            path,
        ),
        git::RefView::RemoteBranch { name, .. } => branch_path(
            ref_tree::TREE_REMOTE_ROOT_IDENT@,
            name,
            path,
        ),
        git::RefView::Tag { name, .. } => path == seq![ref_tree::TREE_TAG_ROOT_IDENT@, name],
        git::RefView::Stash { name, .. } => path == seq![ref_tree::TREE_STASH_ROOT_IDENT@, name],
    }
}

/// Whether a path leads to a root or a reference.
pub open spec fn valid_path(refs: Seq<git::RefView>, path: Seq<Seq<char>>) -> bool {
    root_path(path) || exists|i: int| 0 <= i < refs.len() && ref_path(#[trigger] refs[i], path)
}

/// The longest front part of a path that leads somewhere, of at most `n` steps; else the root of
/// the branches.
pub open spec fn front_in(
    valid: spec_fn(Seq<Seq<char>>) -> bool,
    path: Seq<Seq<char>>,
    n: int,
) -> Seq<Seq<char>>
    decreases n,
{
    if n <= 0 {
        seq![ref_tree::TREE_BRANCH_ROOT_IDENT@]
    } else if valid(path.take(n)) {
        path.take(n)
    } else {
        front_in(valid, path, n - 1)
    }
}

/// The longest front part of a path that leads to a root or a reference; else the root of the
/// branches.
pub open spec fn valid_front(refs: Seq<git::RefView>, path: Seq<Seq<char>>) -> Seq<Seq<char>> {
    front_in(|p: Seq<Seq<char>>| valid_path(refs, p), path, path.len() as int)
}

proof fn same_fronts(
    a: spec_fn(Seq<Seq<char>>) -> bool,
    b: spec_fn(Seq<Seq<char>>) -> bool,
    path: Seq<Seq<char>>,
    n: int,
)
    requires
        forall|p: Seq<Seq<char>>| #[trigger] a(p) == b(p),
    ensures
        front_in(a, path, n) == front_in(b, path, n),
    decreases n,
{
    if n > 0 {
        assert(a(path.take(n)) == b(path.take(n)));
        same_fronts(a, b, path, n - 1);
    }
}

/// Whether a list holds a path.
pub open spec fn lists_path(paths: Seq<Vec<String>>, path: Seq<Seq<char>>) -> bool {
    exists|i: int| 0 <= i < paths.len() && text::texts((#[trigger] paths[i])@) == path
}

proof fn lists_path_push(paths: Seq<Vec<String>>, p: Vec<String>)
    ensures
        forall|path: Seq<Seq<char>>| #[trigger]
            lists_path(paths.push(p), path) <==> lists_path(paths, path) || path == text::texts(
                p@,
            ),
{
    assert forall|path: Seq<Seq<char>>| #[trigger] lists_path(paths.push(p), path) <==> lists_path(
        paths,
        path,
    ) || path == text::texts(p@) by {
        let next = paths.push(p);
        if lists_path(paths, path) {
            let i = choose|i: int|
                0 <= i < paths.len() && text::texts((#[trigger] paths[i])@) == path;
            assert(text::texts(next[i]@) == path);
        }
        if path == text::texts(p@) {
            assert(text::texts(next[paths.len() as int]@) == path);
        }
        if lists_path(next, path) {
            let i = choose|i: int|
                0 <= i < next.len() && text::texts((#[trigger] next[i])@) == path;
            if i < paths.len() {
                assert(text::texts(paths[i]@) == path);
            }
        }
    }
}

fn same_path(a: &Vec<String>, b: &[String]) -> (r: bool)
    ensures
        r == (text::texts(a@) == text::texts(b@)),
{
    if a.len() != b.len() {
        assert(text::texts(a@).len() != text::texts(b@).len());
        return false;
    }
    let mut i: usize = 0;
    while i < a.len()
        invariant
            i <= a@.len(),
            a@.len() == b@.len(),
            forall|j: int| 0 <= j < i ==> (#[trigger] a@[j])@ == b@[j]@,
        decreases a@.len() - i,
    {
        if !text::same(a[i].as_str(), b[i].as_str()) {
            assert(text::texts(a@)[i as int] != text::texts(b@)[i as int]);
            return false;
        }
        i = i + 1;
    }
    assert(text::texts(a@) =~= text::texts(b@));
    true
}

fn has_listed(paths: &Vec<Vec<String>>, path: &[String]) -> (r: bool)
    ensures
        r == lists_path(paths@, text::texts(path@)),
{
    let mut i: usize = 0;
    while i < paths.len()
        invariant
            i <= paths@.len(),
            forall|j: int|
                0 <= j < i ==> text::texts((#[trigger] paths@[j])@) != text::texts(path@),
        decreases paths@.len() - i,
    {
        if same_path(&paths[i], path) {
            assert(text::texts(paths@[i as int]@) == text::texts(path@));
            return true;
        }
        i = i + 1;
    }
    false
}

fn add_path(paths: &mut Vec<Vec<String>>, path: Vec<String>)
    ensures
        forall|p: Seq<Seq<char>>| #[trigger]
            lists_path(final(paths)@, p) <==> lists_path(old(paths)@, p) || p == text::texts(path@),
{
    proof {
        lists_path_push(paths@, path);
    }
    paths.push(path);
}

/// Adds the paths to the parts of a branch's name.
fn add_ref_path(valid_paths: &mut Vec<Vec<String>>, root: &str, name: &str)
    ensures
        forall|p: Seq<Seq<char>>| #[trigger]
            lists_path(final(valid_paths)@, p) <==> lists_path(old(valid_paths)@, p)
                || branch_path(root@, name@, p),
{
    let ghost before = valid_paths@;
    let parts = text::split(name, '/');
    let ghost pieces = text::pieces(name@, '/');
    let mut path = text::words(&[root]);
    let mut identifier = String::new();
    let mut i: usize = 0;
    proof {
        assert(text::texts(path@) =~= seq![root@]);
        assert(seq![root@] + steps_to(pieces, 0) =~= seq![root@]);
        assert(identifier@ =~= Seq::<char>::empty());
    }
    while i < parts.len()
        invariant
            i <= parts@.len(),
            text::texts(parts@) == pieces,
            text::texts(path@) == seq![root@] + steps_to(pieces, i as int),
            identifier@ == if i == 0 {
                Seq::empty()
            } else {
                steps_to(pieces, i as int).last()
            },
            i > 0 ==> steps_to(pieces, i as int).len() == i,
            forall|p: Seq<Seq<char>>| #[trigger]
                lists_path(valid_paths@, p) <==> lists_path(before, p) || exists|k: int|
                    1 <= k <= i && p == seq![root@] + #[trigger] steps_to(pieces, k),
        decreases parts@.len() - i,
    {
        let ghost now = valid_paths@;
        assert(pieces[i as int] == parts@[i as int]@);
        identifier = ref_tree::identifier_under(identifier.as_str(), parts[i].as_str());
        let step = identifier.clone();
        proof {
            text::texts_push(path@, step);
        }
        path.push(step);
        let ghost goal = seq![root@] + steps_to(pieces, i + 1);
        assert(text::texts(path@) =~= goal);
        let copy = text::clone_texts(&path);
        add_path(valid_paths, copy);
        proof {
            assert forall|p: Seq<Seq<char>>| #[trigger] lists_path(valid_paths@, p) <==> lists_path(
                before,
                p,
            ) || exists|k: int| 1 <= k <= i + 1 && p == seq![root@] + #[trigger] steps_to(
                pieces,
                k,
            ) by {
                assert(lists_path(now, p) <==> lists_path(before, p) || exists|k: int|
                    1 <= k <= i && p == seq![root@] + #[trigger] steps_to(pieces, k));
                if p == goal {
                    assert(p == seq![root@] + steps_to(pieces, i + 1));
                }
            }
        }
        i = i + 1;
    }
    proof {
        assert forall|p: Seq<Seq<char>>| #[trigger] lists_path(valid_paths@, p) <==> lists_path(
            before,
            p,
        ) || branch_path(root@, name@, p) by {}
    }
}

/// The paths that lead to the roots and the references.
pub fn collect_valid_tree_paths(refs: &[Ref]) -> (r: Vec<Vec<String>>)
    ensures
        forall|p: Seq<Seq<char>>| #[trigger]
            lists_path(r@, p) <==> valid_path(git::ref_views(refs@), p),
{
    let ghost all = git::ref_views(refs@);
    let mut paths: Vec<Vec<String>> = Vec::new();
    let branches = text::words(&[ref_tree::TREE_BRANCH_ROOT_IDENT]);
    let remotes = text::words(&[ref_tree::TREE_REMOTE_ROOT_IDENT]);
    let tags = text::words(&[ref_tree::TREE_TAG_ROOT_IDENT]);
    let stashes = text::words(&[ref_tree::TREE_STASH_ROOT_IDENT]);
    proof {
        assert(text::texts(branches@) =~= seq![ref_tree::TREE_BRANCH_ROOT_IDENT@]);
        assert(text::texts(remotes@) =~= seq![ref_tree::TREE_REMOTE_ROOT_IDENT@]);
        assert(text::texts(tags@) =~= seq![ref_tree::TREE_TAG_ROOT_IDENT@]);
        assert(text::texts(stashes@) =~= seq![ref_tree::TREE_STASH_ROOT_IDENT@]);
    }
    add_path(&mut paths, branches);
    add_path(&mut paths, remotes);
    add_path(&mut paths, tags);
    add_path(&mut paths, stashes);
    let mut i: usize = 0;
    while i < refs.len()
        invariant
            i <= refs@.len(),
            all == git::ref_views(refs@),
            forall|p: Seq<Seq<char>>| #[trigger]
                lists_path(paths@, p) <==> valid_path(all.take(i as int), p),
        decreases refs@.len() - i,
    {
        let ghost now = paths@;
        let ghost view = all[i as int];
        assert(view == refs@[i as int]@);
        match &refs[i] {
            Ref::Branch { name, .. } => {
                add_ref_path(&mut paths, ref_tree::TREE_BRANCH_ROOT_IDENT, name.as_str());
            },
            Ref::RemoteBranch { name, .. } => {
                add_ref_path(&mut paths, ref_tree::TREE_REMOTE_ROOT_IDENT, name.as_str());
            },
            Ref::Tag { name, .. } => {
                let path = text::words(&[ref_tree::TREE_TAG_ROOT_IDENT, name.as_str()]);
                assert(text::texts(path@) =~= seq![ref_tree::TREE_TAG_ROOT_IDENT@, name@]);
                add_path(&mut paths, path);
            },
            Ref::Stash { name, .. } => {
                let path = text::words(&[ref_tree::TREE_STASH_ROOT_IDENT, name.as_str()]);
                assert(text::texts(path@) =~= seq![ref_tree::TREE_STASH_ROOT_IDENT@, name@]);
                add_path(&mut paths, path);
            },
        }
        proof {
            let a = all.take(i as int);
            let b = all.take(i + 1);
            assert(b =~= a.push(view));
            assert forall|p: Seq<Seq<char>>| #[trigger] lists_path(paths@, p) <==> valid_path(
                b,
                p,
            ) by {
                assert(lists_path(now, p) <==> valid_path(a, p));
                assert(lists_path(paths@, p) <==> lists_path(now, p) || ref_path(view, p));
                if exists|j: int| 0 <= j < a.len() && ref_path(#[trigger] a[j], p) {
                    let j = choose|j: int| 0 <= j < a.len() && ref_path(#[trigger] a[j], p);
                    assert(ref_path(b[j], p));
                }
                if ref_path(view, p) {
                    assert(ref_path(b[i as int], p));
                }
                if exists|j: int| 0 <= j < b.len() && ref_path(#[trigger] b[j], p) {
                    let j = choose|j: int| 0 <= j < b.len() && ref_path(#[trigger] b[j], p);
                    if j < i {
                        assert(ref_path(a[j], p));
                    }
                }
            }
        }
        i = i + 1;
    }
    assert(all.take(i as int) =~= all);
    paths
}

/// The longest front part of a path that is among the valid ones; else the root of the branches.
pub fn sanitize_selected_path(selected: Vec<String>, valid_paths: &Vec<Vec<String>>) -> (r: Vec<
    String,
>)
    ensures
        text::texts(r@) == front_in(
            |p: Seq<Seq<char>>| lists_path(valid_paths@, p),
            text::texts(selected@),
            selected@.len() as int,
        ),
{
    let ghost all = text::texts(selected@);
    let ghost valid = |p: Seq<Seq<char>>| lists_path(valid_paths@, p);
    let ghost whole = front_in(valid, all, all.len() as int);
    let mut candidate = selected;
    assert(all.take(all.len() as int) =~= all);
    while candidate.len() > 0
        invariant
            candidate@.len() <= all.len(),
            all == text::texts(selected@),
            text::texts(candidate@) == all.take(candidate@.len() as int),
            valid == (|p: Seq<Seq<char>>| lists_path(valid_paths@, p)),
            whole == front_in(valid, all, all.len() as int),
            whole == front_in(valid, all, candidate@.len() as int),
        decreases candidate@.len(),
    {
        if has_listed(valid_paths, &candidate) {
            return candidate;
        }
        let ghost before = candidate@;
        candidate.pop();
        proof {
            assert(candidate@ =~= before.drop_last());
            assert(text::texts(candidate@) =~= all.take(candidate@.len() as int)) by {
                assert forall|j: int| 0 <= j < candidate@.len() implies text::texts(candidate@)[j]
                    == all[j] by {
                    assert(text::texts(before)[j] == all.take(before.len() as int)[j]);
                }
            }
        }
    }
    let r = text::words(&[ref_tree::TREE_BRANCH_ROOT_IDENT]);
    assert(text::texts(r@) =~= seq![ref_tree::TREE_BRANCH_ROOT_IDENT@]);
    r
}

impl RefListState {
    /// The branches are selected and opened.
    pub fn new() -> (r: RefListState)
        ensures
            r@ == fresh(),
    {
        let mut tree_state = new_tree();
        let root = text::words(&[ref_tree::TREE_BRANCH_ROOT_IDENT]);
        let again = text::words(&[ref_tree::TREE_BRANCH_ROOT_IDENT]);
        proof {
            assert(text::texts(root@) =~= seq![ref_tree::TREE_BRANCH_ROOT_IDENT@]);
            assert(text::texts(again@) =~= seq![ref_tree::TREE_BRANCH_ROOT_IDENT@]);
            assert(tree_opened(tree_state) =~= Set::<Seq<Seq<char>>>::empty());
            assert(tree_listed(tree_state) =~= Seq::<Seq<Seq<char>>>::empty());
        }
        select(&mut tree_state, root);
        open(&mut tree_state, again);
        RefListState { tree_state }
    }

    pub fn select_next(&mut self)
        ensures
            final(self)@ == old(self)@.down(),
    {
        key_down(&mut self.tree_state);
    }

    pub fn select_prev(&mut self)
        ensures
            final(self)@ == old(self)@.up(),
    {
        key_up(&mut self.tree_state);
    }

    pub fn select_first(&mut self)
        ensures
            final(self)@ == old(self)@.first(),
    {
        select_first_listed(&mut self.tree_state);
    }

    pub fn select_last(&mut self)
        ensures
            final(self)@ == old(self)@.last(),
    {
        select_last_listed(&mut self.tree_state);
    }

    /// Opens the selected node.
    pub fn open_node(&mut self)
        ensures
            final(self)@ == old(self)@.unfolded(),
    {
        key_right(&mut self.tree_state);
    }

    /// Closes the selected node, or selects its parent where it is not open.
    pub fn close_node(&mut self)
        ensures
            final(self)@ == old(self)@.folded(),
    {
        key_left(&mut self.tree_state);
    }

    pub fn selected_ref_name(&self) -> (r: Option<String>)
        ensures
            text::opt_text(r) == selected_name(self@.selected),
    {
        last_of(&selected_node(&self.tree_state))
    }

    pub fn selected_branch(&self) -> (r: Option<String>)
        ensures
            text::opt_text(r) == branch_at(self@.selected),
    {
        branch_on(&selected_node(&self.tree_state))
    }

    pub fn selected_tag(&self) -> (r: Option<String>)
        ensures
            text::opt_text(r) == tag_at(self@.selected),
    {
        tag_on(&selected_node(&self.tree_state))
    }

    /// The selected node, and the opened ones, each once.
    pub fn current_tree_status(&self) -> (r: (Vec<String>, Vec<Vec<String>>))
        ensures
            text::texts(r.0@) == self@.selected,
            text::text_lists(r.1@).no_duplicates(),
            text::text_lists(r.1@).to_set() == self@.opened,
    {
        (selected_node(&self.tree_state), opened_nodes(&self.tree_state))
    }

    /// Selects and opens nodes of the tree of these references: what is opened of the given nodes
    /// is what leads somewhere, and what is selected is the front part that does.
    pub fn reset_tree_status(
        &mut self,
        refs: &[Ref],
        selected: Vec<String>,
        opened: Vec<Vec<String>>,
    )
        ensures
            final(self)@ == old(self)@.reset_to(
                git::ref_views(refs@),
                text::texts(selected@),
                text::text_lists(opened@),
            ),
    {
        let ghost all = git::ref_views(refs@);
        let valid_paths = collect_valid_tree_paths(refs);
        let ghost asked = text::texts(selected@);
        let selected = sanitize_selected_path(selected, &valid_paths);
        proof {
            same_fronts(
                |p: Seq<Seq<char>>| lists_path(valid_paths@, p),
                |p: Seq<Seq<char>>| valid_path(all, p),
                asked,
                asked.len() as int,
            );
        }
        let ghost start = *self;
        close_all(&mut self.tree_state);
        let mut i: usize = 0;
        while i < opened.len()
            invariant
                i <= opened@.len(),
                tree_listed(self.tree_state) == tree_listed(start.tree_state),
                tree_bottom(self.tree_state) == tree_bottom(start.tree_state),
                forall|p: Seq<Seq<char>>| #[trigger]
                    lists_path(valid_paths@, p) <==> valid_path(all, p),
                forall|p: Seq<Seq<char>>| #[trigger]
                    tree_opened(self.tree_state).contains(p) <==> lists_path(
                        opened@.take(i as int),
                        p,
                    ) && valid_path(all, p),
            decreases opened@.len() - i,
        {
            let ghost now = tree_opened(self.tree_state);
            let ghost node = text::texts(opened@[i as int]@);
            if has_listed(&valid_paths, &opened[i]) {
                let copy = text::clone_texts(&opened[i]);
                proof {
                    assert(copy@.len() == node.len()) by {
                        assert(text::texts(copy@).len() == copy@.len());
                    }
                    valid_path_is_some(all, node);
                }
                open(&mut self.tree_state, copy);
            }
            proof {
                lists_path_push(opened@.take(i as int), opened@[i as int]);
                assert(opened@.take(i + 1) =~= opened@.take(i as int).push(opened@[i as int]));
                assert forall|p: Seq<Seq<char>>| #[trigger] tree_opened(self.tree_state).contains(
                    p,
                ) <==> lists_path(opened@.take(i + 1), p) && valid_path(all, p) by {
                    assert(now.contains(p) <==> lists_path(opened@.take(i as int), p) && valid_path(
                        all,
                        p,
                    ));
                    assert(lists_path(valid_paths@, node) <==> valid_path(all, node));
                }
            }
            i = i + 1;
        }
        assert(opened@.take(i as int) =~= opened@);
        select(&mut self.tree_state, selected);
        proof {
            let lists = text::text_lists(opened@);
            assert forall|p: Seq<Seq<char>>| lists_path(opened@, p) == #[trigger] lists.contains(
                p,
            ) by {
                if lists_path(opened@, p) {
                    let k = choose|k: int|
                        0 <= k < opened@.len() && text::texts((#[trigger] opened@[k])@) == p;
                    assert(lists[k] == p);
                }
                if lists.contains(p) {
                    let k = choose|k: int| 0 <= k < lists.len() && lists[k] == p;
                    assert(text::texts(opened@[k]@) == p);
                }
            }
            assert(self@.opened =~= start@.reset_to(all, asked, lists).opened);
        }
    }

    /// Selects a branch in the tree, and opens what leads to it.
    pub fn select_branch_name(&mut self, name: &str)
        ensures
            final(self)@ == old(self)@.on_branch(name@),
    {
        let ghost start = *self;
        let parts = text::split(name, '/');
        let ghost pieces = text::pieces(name@, '/');
        let ghost root = seq![ref_tree::TREE_BRANCH_ROOT_IDENT@];
        let mut path = text::words(&[ref_tree::TREE_BRANCH_ROOT_IDENT]);
        let mut identifier = String::new();
        let mut i: usize = 0;
        proof {
            text::pieces_nonempty(name@, '/');
            assert(text::texts(path@) =~= root);
            assert(root + steps_to(pieces, 0) =~= root);
            assert(identifier@ =~= Seq::<char>::empty());
        }
        while i < parts.len()
            invariant
                i <= parts@.len(),
                parts@.len() > 0,
                tree_listed(self.tree_state) == tree_listed(start.tree_state),
                tree_bottom(self.tree_state) == tree_bottom(start.tree_state),
                text::texts(parts@) == pieces,
                root.len() == 1,
                root == seq![ref_tree::TREE_BRANCH_ROOT_IDENT@],
                text::texts(path@) == root + steps_to(pieces, i as int),
                identifier@ == if i == 0 {
                    Seq::empty()
                } else {
                    steps_to(pieces, i as int).last()
                },
                i > 0 ==> steps_to(pieces, i as int).len() == i,
                forall|p: Seq<Seq<char>>| #[trigger]
                    tree_opened(self.tree_state).contains(p) <==> tree_opened(
                        start.tree_state,
                    ).contains(p) || (i > 0 && p == root) || exists|k: int|
                        1 <= k < i && p == root + #[trigger] steps_to(pieces, k),
            decreases parts@.len() - i,
        {
            let ghost now = tree_opened(self.tree_state);
            let ghost here = text::texts(path@);
            let copy = text::clone_texts(&path);
            assert(copy@.len() > 0) by {
                assert(text::texts(copy@).len() == copy@.len());
                assert(here[0] == root[0]);
            }
            open(&mut self.tree_state, copy);
            proof {
                assert forall|p: Seq<Seq<char>>| #[trigger] tree_opened(self.tree_state).contains(
                    p,
                ) <==> tree_opened(start.tree_state).contains(p) || p == root || exists|k: int|
                    1 <= k < i + 1 && p == root + #[trigger] steps_to(pieces, k) by {
                    assert(now.contains(p) <==> tree_opened(start.tree_state).contains(p) || (i > 0
                        && p == root) || exists|k: int|
                        1 <= k < i && p == root + #[trigger] steps_to(pieces, k));
                    assert(here == root + steps_to(pieces, i as int));
                    if i == 0 {
                        assert(here =~= root);
                    } else if p == here {
                        assert(p == root + steps_to(pieces, i as int));
                    }
                }
            }
            assert(pieces[i as int] == parts@[i as int]@);
            identifier = ref_tree::identifier_under(identifier.as_str(), parts[i].as_str());
            let step = identifier.clone();
            proof {
                text::texts_push(path@, step);
            }
            path.push(step);
            assert(text::texts(path@) =~= root + steps_to(pieces, i + 1));
            i = i + 1;
        }
        select(&mut self.tree_state, path);
        assert(self@.opened =~= start@.on_branch(name@).opened);
    }
}

proof fn valid_path_is_some(refs: Seq<git::RefView>, path: Seq<Seq<char>>)
    requires
        valid_path(refs, path),
    ensures
        path.len() > 0,
{
}

/// The last identifier on the way to the selected node.
pub open spec fn selected_name(selected: Seq<Seq<char>>) -> Option<Seq<char>> {
    if selected.len() > 0 {
        Some(selected.last())
    } else {
        None
    }
}

/// The branch that a node stands for.
pub open spec fn branch_at(selected: Seq<Seq<char>>) -> Option<Seq<char>> {
    if selected.len() > 1 && (selected[0] == ref_tree::TREE_BRANCH_ROOT_IDENT@ || selected[0]
        == ref_tree::TREE_REMOTE_ROOT_IDENT@) {
        Some(selected.last())
    } else {
        None
    }
}

/// The tag that a node stands for.
pub open spec fn tag_at(selected: Seq<Seq<char>>) -> Option<Seq<char>> {
    if selected.len() > 1 && selected[0] == ref_tree::TREE_TAG_ROOT_IDENT@ {
        Some(selected.last())
    } else {
        None
    }
}

fn last_of(v: &Vec<String>) -> (r: Option<String>)
    ensures
        text::opt_text(r) == selected_name(text::texts(v@)),
{
    if v.len() == 0 {
        None
    } else {
        assert(text::texts(v@).last() == v@.last()@);
        Some(v[v.len() - 1].clone())
    }
}

/// The branch that a node stands for.
pub fn branch_on(selected: &Vec<String>) -> (r: Option<String>)
    ensures
        text::opt_text(r) == branch_at(text::texts(selected@)),
{
    if selected.len() > 1 {
        assert(text::texts(selected@)[0] == selected@[0]@);
        if text::same(selected[0].as_str(), ref_tree::TREE_BRANCH_ROOT_IDENT) || text::same(
            selected[0].as_str(),
            ref_tree::TREE_REMOTE_ROOT_IDENT,
        ) {
            return last_of(selected);
        }
    }
    None
}

/// The tag that a node stands for.
pub fn tag_on(selected: &Vec<String>) -> (r: Option<String>)
    ensures
        text::opt_text(r) == tag_at(text::texts(selected@)),
{
    if selected.len() > 1 {
        assert(text::texts(selected@)[0] == selected@[0]@);
        if text::same(selected[0].as_str(), ref_tree::TREE_TAG_ROOT_IDENT) {
            return last_of(selected);
        }
    }
    None
}

/// What is selected after a reset always leads somewhere.
pub proof fn reset_selects_valid(refs: Seq<git::RefView>, path: Seq<Seq<char>>)
    ensures
        valid_path(refs, valid_front(refs, path)),
{
    front_is_valid(refs, path, path.len() as int);
}

proof fn front_is_valid(refs: Seq<git::RefView>, path: Seq<Seq<char>>, n: int)
    ensures
        valid_path(refs, front_in(|p: Seq<Seq<char>>| valid_path(refs, p), path, n)),
    decreases n,
{
    if n > 0 && !valid_path(refs, path.take(n)) {
        front_is_valid(refs, path, n - 1);
    }
}

/// A path that leads somewhere stays selected over a reset.
pub proof fn reset_keeps_valid(refs: Seq<git::RefView>, path: Seq<Seq<char>>)
    requires
        valid_path(refs, path),
    ensures
        valid_front(refs, path) == path,
{
    valid_path_is_some(refs, path);
    assert(path.take(path.len() as int) =~= path);
}

proof fn steps_are_joined(parts: Seq<Seq<char>>, k: int)
    requires
        1 <= k <= parts.len(),
        parts[0].len() > 0,
    ensures
        steps_to(parts, k).len() == k,
        steps_to(parts, k).last() == text::joined(parts.take(k), seq!['/']),
        steps_to(parts, k).last().len() > 0,
    decreases k,
{
    reveal_strlit("/");
    assert("/"@ =~= seq!['/']);
    let front = parts.take(k);
    assert(front.last() == parts[k - 1]);
    if k == 1 {
        assert(steps_to(parts, 0).len() == 0);
        assert(front[0] == parts[0]);
    } else {
        steps_are_joined(parts, k - 1);
        assert(front.drop_last() =~= parts.take(k - 1));
    }
}

/// The current branch is selected among the branches, by its whole name, and what it stands under
/// is open.
pub proof fn current_branches_are_selected(s: RefsState, parts: Seq<Seq<char>>, k: int)
    requires
        parts.len() > 0,
        parts[0].len() > 0,
        forall|i: int| 0 <= i < parts.len() ==> !(#[trigger] parts[i]).contains('/'),
        1 <= k < parts.len(),
    ensures
        ({
            let name = text::joined(parts, seq!['/']);
            let t = s.on_branch(name);
            &&& branch_at(t.selected) == Some(name)
            &&& tag_at(t.selected) is None
            &&& t.selected[0] == "__branches__"@
            &&& t.opened.contains(seq!["__branches__"@])
            &&& exists|p: Seq<Seq<char>>| #[trigger]
                t.opened.contains(p) && p.last() == text::joined(parts.take(k), seq!['/'])
        }),
{
    let name = text::joined(parts, seq!['/']);
    let t = s.on_branch(name);
    let root = seq!["__branches__"@];
    text::joined_parts_come_apart(parts, '/');
    steps_are_joined(parts, parts.len() as int);
    steps_are_joined(parts, k);
    assert(parts.take(parts.len() as int) =~= parts);
    let steps = steps_to(parts, parts.len() as int);
    assert((root + steps).last() == steps.last());
    let p = root + steps_to(parts, k);
    assert(p.last() == steps_to(parts, k).last());
    assert(t.opened.contains(p));
    reveal_strlit("__branches__");
    reveal_strlit("__tags__");
    assert("__branches__"@[2] == 'b' && "__tags__"@[2] == 't');
}

proof fn rows_are_found(listed: Seq<Seq<Seq<char>>>, node: Seq<Seq<char>>, from: int, i: int)
    requires
        0 <= from <= i < listed.len(),
        listed[i] == node,
        forall|j: int| from <= j < i ==> #[trigger] listed[j] != node,
    ensures
        row_of(listed, node, from) == Some(i),
    decreases i - from,
{
    if from < i {
        assert(listed[from] != node);
        rows_are_found(listed, node, from + 1, i);
    }
}

/// Down and up select the next and the last row of what is listed, no further than its ends.
pub proof fn neighbours_are_selected(s: RefsState, i: int)
    requires
        0 <= i < s.listed.len() <= usize::MAX,
        s.bottom == s.listed.len() - 1,
        s.listed[i] == s.selected,
        forall|j: int| 0 <= j < i ==> #[trigger] s.listed[j] != s.selected,
    ensures
        i + 1 < s.listed.len() ==> s.down().selected == s.listed[i + 1],
        i + 1 == s.listed.len() ==> s.down().selected == s.listed[i],
        i > 0 ==> s.up().selected == s.listed[i - 1],
        i == 0 ==> s.up().selected == s.listed[0],
        s.first().selected == s.listed[0],
        s.last().selected == s.listed[s.listed.len() - 1],
        s.down().opened == s.opened && s.up().opened == s.opened,
{
    rows_are_found(s.listed, s.selected, 0, i);
}

/// Opening a node opens it and keeps it selected. Closing closes it where it was open, and goes up
/// where it was not.
pub proof fn nodes_are_folded(s: RefsState, p: Seq<Seq<char>>)
    requires
        s.selected.len() > 0,
    ensures
        s.unfolded().opened.contains(p) <==> s.opened.contains(p) || p == s.selected,
        s.unfolded().selected == s.selected,
        s.folded().opened.contains(p) <==> s.opened.contains(p) && p != s.selected,
        s.opened.contains(s.selected) ==> s.folded().selected == s.selected,
        !s.opened.contains(s.selected) ==> s.folded().selected == s.selected.take(
            s.selected.len() - 1,
        ),
{
    assert(s.selected.drop_last() =~= s.selected.take(s.selected.len() - 1));
}

/// A node under the branches, of this repository or of a remote, is a branch, one under the tags is
/// a tag, and the nodes at the top are neither.
pub proof fn nodes_are_told_apart(root: Seq<char>, between: Seq<Seq<char>>, name: Seq<char>)
    ensures
        root == "__branches__"@ || root == "__remotes__"@ ==> branch_at(
            seq![root] + between + seq![name],
        ) == Some(name) && tag_at(seq![root] + between + seq![name]) is None,
        root == "__tags__"@ ==> tag_at(seq![root] + between + seq![name]) == Some(name) && branch_at(
            seq![root] + between + seq![name],
        ) is None,
        root == "__stashes__"@ ==> tag_at(seq![root] + between + seq![name]) is None && branch_at(
            seq![root] + between + seq![name],
        ) is None,
        branch_at(seq![root]) is None,
        tag_at(seq![root]) is None,
{
    let path = seq![root] + between + seq![name];
    assert(path[0] == root);
    assert(path.last() == name);
    reveal_strlit("__branches__");
    reveal_strlit("__remotes__");
    reveal_strlit("__tags__");
    reveal_strlit("__stashes__");
    assert("__branches__"@[2] == 'b' && "__remotes__"@[2] == 'r' && "__tags__"@[2] == 't'
        && "__stashes__"@[2] == 's');
}

} // verus!
