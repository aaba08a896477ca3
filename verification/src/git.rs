//! Commits, references and the repository that holds them.

use vstd::prelude::*;
use vstd::string::*;
use crate::decode;
use crate::git::changes::FileChange;
use crate::git::history::{CommitMap, CommitsMap};
use crate::git::refs::RefMap;
use crate::names;
use crate::order;
use crate::text;

pub mod changes;
pub mod commands;
pub mod history;
pub mod log;
pub mod refs;

verus! {

/// The hash that names a commit.
#[derive(Debug, PartialEq, Eq, PartialOrd, Ord, Hash)]
pub struct CommitHash(String);

impl View for CommitHash {
    type V = Seq<char>;

    closed spec fn view(&self) -> Seq<char> {
        self.0@
    }
}

impl Clone for CommitHash {
    fn clone(&self) -> (r: CommitHash)
        ensures
            r == *self,
    {
        CommitHash(self.0.clone())
    }
}

impl Default for CommitHash {
    fn default() -> (r: CommitHash)
        ensures
            r@ == Seq::<char>::empty(),
    {
        CommitHash(String::new())
    }
}

/// How many characters a short hash has, counted in bytes.
pub const SHORT_HASH_BYTES: usize = 7;

/// The first seven bytes of a hash.
pub open spec fn short_hash(hash: Seq<char>) -> Seq<char> {
    hash.take(text::chars_for(hash, SHORT_HASH_BYTES as nat))
}

impl CommitHash {
    /// The hash with this text.
    pub fn from_text(s: &str) -> (r: CommitHash)
        ensures
            r@ == s@,
    {
        CommitHash(s.to_string())
    }

    /// The first seven bytes of the hash.
    pub fn as_short_hash(&self) -> (r: &str)
        requires
            text::splits_at(self@, SHORT_HASH_BYTES as nat),
        ensures
            r@ == short_hash(self@),
            text::byte_count(r@) == SHORT_HASH_BYTES,
    {
        let k = text::chars_in_bytes(self.0.as_str(), SHORT_HASH_BYTES);
        let k = k.unwrap();
        let r = self.0.as_str().substring_char(0, k);
        assert(r@ =~= self@.take(k as int));
        r
    }

    pub fn as_str(&self) -> (r: &str)
        ensures
            r@ == self@,
    {
        self.0.as_str()
    }
}

impl From<&str> for CommitHash {
    fn from(s: &str) -> (r: CommitHash)
        ensures
            r@ == s@,
    {
        CommitHash::from_text(s)
    }
}

impl vstd::std_specs::convert::FromSpecImpl<&str> for CommitHash {
    open spec fn obeys_from_spec() -> bool {
        false
    }

    closed spec fn from_spec(s: &str) -> CommitHash {
        vstd::pervasive::arbitrary()
    }
}

/// The texts of a list of hashes.
pub open spec fn hashes(v: Seq<CommitHash>) -> Seq<Seq<char>> {
    Seq::new(v.len(), |i: int| v[i]@)
}

pub fn clone_hashes(v: &Vec<CommitHash>) -> (r: Vec<CommitHash>)
    ensures
        hashes(r@) == hashes(v@),
        r@ == v@,
{
    let mut r: Vec<CommitHash> = Vec::new();
    let mut i: usize = 0;
    while i < v.len()
        invariant
            i <= v@.len(),
            r@ == v@.take(i as int),
        decreases v@.len() - i,
    {
        r.push(v[i].clone());
        assert(v@.take(i + 1) =~= v@.take(i as int).push(v@[i as int]));
        i = i + 1;
    }
    assert(v@.take(i as int) =~= v@);
    r
}

/// A point in time: the seconds and nanoseconds since 1970 in UTC, and the offset from UTC, in
/// seconds, at which it is written.
#[derive(Debug, Clone, Copy, PartialEq, Eq, Structural, Default)]
pub struct Timestamp {
    pub seconds: i64,
    pub nanos: u32,
    pub offset: i32,
}

/// Whether a commit is an ordinary one or holds a stash.
#[derive(Debug, Clone, Copy, PartialEq, Eq, Structural, Default)]
pub enum CommitType {
    #[default]
    Commit,
    Stash,
}

#[derive(Debug)]
pub struct Commit {
    pub commit_hash: CommitHash,
    pub author_name: String,
    pub author_email: String,
    pub author_date: Timestamp,
    pub committer_name: String,
    pub committer_email: String,
    pub committer_date: Timestamp,
    pub subject: String,
    pub body: String,
    pub parent_commit_hashes: Vec<CommitHash>,
    pub commit_type: CommitType,
}

/// What a commit says.
pub ghost struct CommitView {
    pub hash: Seq<char>,
    pub author_name: Seq<char>,
    pub author_email: Seq<char>,
    pub author_date: Timestamp,
    pub committer_name: Seq<char>,
    pub committer_email: Seq<char>,
    pub committer_date: Timestamp,
    pub subject: Seq<char>,
    pub body: Seq<char>,
    pub parents: Seq<Seq<char>>,
    pub commit_type: CommitType,
}

impl View for Commit {
    type V = CommitView;

    open spec fn view(&self) -> CommitView {
        CommitView {
            hash: self.commit_hash@,
            author_name: self.author_name@,
            author_email: self.author_email@,
            author_date: self.author_date,
            committer_name: self.committer_name@,
            committer_email: self.committer_email@,
            committer_date: self.committer_date,
            subject: self.subject@,
            body: self.body@,
            parents: hashes(self.parent_commit_hashes@),
            commit_type: self.commit_type,
        }
    }
}

impl Clone for Commit {
    fn clone(&self) -> (r: Commit)
        ensures
            r@ == self@,
    {
        Commit {
            commit_hash: self.commit_hash.clone(),
            author_name: self.author_name.clone(),
            author_email: self.author_email.clone(),
            author_date: self.author_date,
            committer_name: self.committer_name.clone(),
            committer_email: self.committer_email.clone(),
            committer_date: self.committer_date,
            subject: self.subject.clone(),
            body: self.body.clone(),
            parent_commit_hashes: clone_hashes(&self.parent_commit_hashes),
            commit_type: self.commit_type,
        }
    }
}

impl Default for Commit {
    fn default() -> (r: Commit)
        ensures
            r.commit_hash@ == Seq::<char>::empty(),
            r.author_name@ == Seq::<char>::empty(),
            r.author_email@ == Seq::<char>::empty(),
            r.author_date == (Timestamp { seconds: 0, nanos: 0, offset: 0 }),
            r.committer_name@ == Seq::<char>::empty(),
            r.committer_email@ == Seq::<char>::empty(),
            r.committer_date == (Timestamp { seconds: 0, nanos: 0, offset: 0 }),
            r.subject@ == Seq::<char>::empty(),
            r.body@ == Seq::<char>::empty(),
            r.parent_commit_hashes@ == Seq::<CommitHash>::empty(),
            r.commit_type == CommitType::Commit,
    {
        Commit {
            commit_hash: CommitHash(String::new()),
            author_name: String::new(),
            author_email: String::new(),
            author_date: Timestamp { seconds: 0, nanos: 0, offset: 0 },
            committer_name: String::new(),
            committer_email: String::new(),
            committer_date: Timestamp { seconds: 0, nanos: 0, offset: 0 },
            subject: String::new(),
            body: String::new(),
            parent_commit_hashes: Vec::new(),
            commit_type: CommitType::Commit,
        }
    }
}

/// What a list of commits says.
pub open spec fn commit_views(v: Seq<Commit>) -> Seq<CommitView> {
    Seq::new(v.len(), |i: int| v[i]@)
}

/// A name that stands for a commit.
#[derive(Debug, PartialEq, Eq, PartialOrd, Ord)]
pub enum Ref {
    Tag { name: String, target: CommitHash },
    Branch { name: String, target: CommitHash },
    RemoteBranch { name: String, target: CommitHash },
    Stash { name: String, message: String, target: CommitHash },
}

/// The four sorts of reference, in the order in which they are listed.
pub ghost enum RefView {
    Tag { name: Seq<char>, target: Seq<char> },
    Branch { name: Seq<char>, target: Seq<char> },
    RemoteBranch { name: Seq<char>, target: Seq<char> },
    Stash { name: Seq<char>, message: Seq<char>, target: Seq<char> },
}

impl RefView {
    pub open spec fn name(self) -> Seq<char> {
        match self {
            RefView::Tag { name, .. } => name,
            RefView::Branch { name, .. } => name,
            RefView::RemoteBranch { name, .. } => name,
            RefView::Stash { name, .. } => name,
        }
    }

    pub open spec fn target(self) -> Seq<char> {
        match self {
            RefView::Tag { target, .. } => target,
            RefView::Branch { target, .. } => target,
            RefView::RemoteBranch { target, .. } => target,
            RefView::Stash { target, .. } => target,
        }
    }

    pub open spec fn message(self) -> Seq<char> {
        match self {
            RefView::Stash { message, .. } => message,
            _ => Seq::empty(),
        }
    }

    pub open spec fn rank(self) -> int {
        match self {
            RefView::Tag { .. } => 0,
            RefView::Branch { .. } => 1,
            RefView::RemoteBranch { .. } => 2,
            RefView::Stash { .. } => 3,
        }
    }

    /// Whether a reference is listed before another: by its sort, then its name, then a stash's
    /// message, then its target.
    pub open spec fn goes_before(self, other: RefView) -> bool {
        if self.rank() != other.rank() {
            self.rank() < other.rank()
        } else if self.name() != other.name() {
            order::precedes(self.name(), other.name())
        } else if self.message() != other.message() {
            order::precedes(self.message(), other.message())
        } else {
            order::precedes(self.target(), other.target())
        }
    }
}

impl View for Ref {
    type V = RefView;

    open spec fn view(&self) -> RefView {
        match self {
            Ref::Tag { name, target } => RefView::Tag { name: name@, target: target@ },
            Ref::Branch { name, target } => RefView::Branch { name: name@, target: target@ },
            Ref::RemoteBranch { name, target } => RefView::RemoteBranch {
                name: name@,
                target: target@,
            },
            Ref::Stash { name, message, target } => RefView::Stash {
                name: name@,
                message: message@,
                target: target@,
            },
        }
    }
}

impl Clone for Ref {
    fn clone(&self) -> (r: Ref)
        ensures
            r == *self,
    {
        match self {
            Ref::Tag { name, target } => Ref::Tag { name: name.clone(), target: target.clone() },
            Ref::Branch { name, target } => Ref::Branch {
                name: name.clone(),
                target: target.clone(),
            },
            Ref::RemoteBranch { name, target } => Ref::RemoteBranch {
                name: name.clone(),
                target: target.clone(),
            },
            Ref::Stash { name, message, target } => Ref::Stash {
                name: name.clone(),
                message: message.clone(),
                target: target.clone(),
            },
        }
    }
}

impl Ref {
    pub fn name(&self) -> (r: &str)
        ensures
            r@ == self@.name(),
    {
        match self {
            Ref::Tag { name, .. } => name.as_str(),
            Ref::Branch { name, .. } => name.as_str(),
            Ref::RemoteBranch { name, .. } => name.as_str(),
            Ref::Stash { name, .. } => name.as_str(),
        }
    }

    pub fn target(&self) -> (r: &CommitHash)
        ensures
            r@ == self@.target(),
    {
        match self {
            Ref::Tag { target, .. } => target,
            Ref::Branch { target, .. } => target,
            Ref::RemoteBranch { target, .. } => target,
            Ref::Stash { target, .. } => target,
        }
    }

    fn message(&self) -> (r: &str)
        ensures
            r@ == self@.message(),
    {
        match self {
            Ref::Stash { message, .. } => message.as_str(),
            _ => {
                proof {
                    reveal_strlit("");
                    assert(""@ =~= Seq::<char>::empty());
                }
                ""
            },
        }
    }

    fn rank(&self) -> (r: u8)
        ensures
            r == self@.rank(),
    {
        match self {
            Ref::Tag { .. } => 0,
            Ref::Branch { .. } => 1,
            Ref::RemoteBranch { .. } => 2,
            Ref::Stash { .. } => 3,
        }
    }

    /// Whether this reference is listed before the other.
    pub fn goes_before(&self, other: &Ref) -> (r: bool)
        ensures
            r == self@.goes_before(other@),
    {
        if self.rank() != other.rank() {
            self.rank() < other.rank()
        } else if !text::same(self.name(), other.name()) {
            order::less(self.name(), other.name())
        } else if !text::same(self.message(), other.message()) {
            order::less(self.message(), other.message())
        } else {
            order::less(self.target().as_str(), other.target().as_str())
        }
    }
}

/// What a list of references says.
pub open spec fn ref_views(v: Seq<Ref>) -> Seq<RefView> {
    Seq::new(v.len(), |i: int| v[i]@)
}

/// The order in which references are listed.
pub open spec fn ref_order() -> spec_fn(RefView, RefView) -> bool {
    |a: RefView, b: RefView| a.goes_before(b)
}

/// The references come in one order only: of two that differ, one goes before the other.
pub proof fn ref_order_is_total()
    ensures
        order::orders(ref_order()),
        forall|a: RefView, b: RefView|
            a == b || #[trigger] a.goes_before(b) || b.goes_before(a),
{
    let o = ref_order();
    assert forall|a: RefView| !#[trigger] o(a, a) by {
        order::precedes_irreflexive(a.target());
    }
    assert forall|a: RefView, b: RefView, c: RefView| #[trigger] o(a, b) && #[trigger] o(b, c) implies o(a, c) by {
        ref_order_transitive(a, b, c);
    }
    assert forall|a: RefView, b: RefView| a == b || #[trigger] a.goes_before(b) || b.goes_before(
        a,
    ) by {
        order::precedes_total(a.name(), b.name());
        order::precedes_total(a.message(), b.message());
        order::precedes_total(a.target(), b.target());
    }
    assert forall|a: RefView, b: RefView, c: RefView| #![trigger o(a, b), o(b, c)] !o(a, b) && !o(b, c) implies !o(a, c) by {
        if o(a, c) {
            if a == b || b == c {
            } else {
                assert(b.goes_before(a));
                assert(c.goes_before(b));
                ref_order_transitive(b, a, c);
                ref_order_transitive(b, c, b);
                order::precedes_irreflexive(b.target());
            }
        }
    }
}

proof fn ref_order_transitive(a: RefView, b: RefView, c: RefView)
    requires
        a.goes_before(b),
        b.goes_before(c),
    ensures
        a.goes_before(c),
{
    if order::precedes(a.name(), b.name()) && order::precedes(b.name(), c.name()) {
        order::precedes_transitive(a.name(), b.name(), c.name());
    }
    if order::precedes(a.message(), b.message()) && order::precedes(b.message(), c.message()) {
        order::precedes_transitive(a.message(), b.message(), c.message());
    }
    if order::precedes(a.target(), b.target()) && order::precedes(b.target(), c.target()) {
        order::precedes_transitive(a.target(), b.target(), c.target());
    }
    order::precedes_irreflexive(a.name());
    order::precedes_irreflexive(a.message());
}

/// What is checked out.
#[derive(Debug, PartialEq, Eq)]
pub enum Head {
    Branch { name: String },
    Detached { target: CommitHash },
    Unborn,
}

impl Clone for Head {
    fn clone(&self) -> (r: Head)
        ensures
            r == *self,
    {
        match self {
            Head::Branch { name } => Head::Branch { name: name.clone() },
            Head::Detached { target } => Head::Detached { target: target.clone() },
            Head::Unborn => Head::Unborn,
        }
    }
}

pub ghost enum HeadView {
    Branch { name: Seq<char> },
    Detached { target: Seq<char> },
    Unborn,
}

impl View for Head {
    type V = HeadView;

    open spec fn view(&self) -> HeadView {
        match self {
            Head::Branch { name } => HeadView::Branch { name: name@ },
            Head::Detached { target } => HeadView::Detached { target: target@ },
            Head::Unborn => HeadView::Unborn,
        }
    }
}

#[derive(Debug, Clone, Copy, PartialEq, Eq, Structural)]
pub enum SortCommit {
    Chronological,
    Topological,
}

/// A repository's commits and references.
#[derive(Debug)]
pub struct Repository {
    path: String,
    commit_map: CommitMap,
    parents_map: CommitsMap,
    children_map: CommitsMap,
    ref_map: RefMap,
    head: Head,
    commit_hashes: Vec<CommitHash>,
}

/// The commits that are filed under the hashes, in the order of the hashes.
pub open spec fn filed_commits(listed: Seq<Seq<char>>, m: Map<Seq<char>, Commit>) -> Seq<Commit>
    decreases listed.len(),
{
    if listed.len() == 0 {
        Seq::empty()
    } else {
        let rest = filed_commits(listed.drop_last(), m);
        if m.contains_key(listed.last()) {
            rest.push(m[listed.last()])
        } else {
            rest
        }
    }
}

/// The lists of the map one after the other, in the order of the hashes.
pub open spec fn chained(walk: Seq<Seq<char>>, m: Map<Seq<char>, Vec<Ref>>) -> Seq<Ref>
    decreases walk.len(),
{
    if walk.len() == 0 {
        Seq::empty()
    } else {
        chained(walk.drop_last(), m) + names::listed(m, walk.last())
    }
}

/// What a list of borrowed items holds.
pub open spec fn held<T>(v: Seq<&T>) -> Seq<T> {
    Seq::new(v.len(), |i: int| *v[i])
}

/// Copies of references.
pub fn clone_refs(v: &Vec<&Ref>) -> (r: Vec<Ref>)
    ensures
        r@ == held(v@),
{
    let mut r: Vec<Ref> = Vec::new();
    let mut i: usize = 0;
    while i < v.len()
        invariant
            i <= v@.len(),
            r@.len() == i,
            forall|j: int| 0 <= j < i ==> #[trigger] r@[j] == *v@[j],
        decreases v@.len() - i,
    {
        r.push(v[i].clone());
        i = i + 1;
    }
    assert(r@ =~= held(v@));
    r
}

/// What was loaded, or why nothing was.
pub open spec fn load_error(r: Result<Repository, String>) -> Option<Seq<char>> {
    match r {
        Ok(_) => None,
        Err(e) => Some(e@),
    }
}

fn borrow_all<T>(v: &Vec<T>) -> (r: Vec<&T>)
    ensures
        held(r@) == v@,
{
    let mut r: Vec<&T> = Vec::new();
    let mut i: usize = 0;
    while i < v.len()
        invariant
            i <= v@.len(),
            r@.len() == i,
            forall|j: int| 0 <= j < i ==> *(#[trigger] r@[j]) == v@[j],
        decreases v@.len() - i,
    {
        r.push(&v[i]);
        i = i + 1;
    }
    assert(held(r@) =~= v@);
    r
}

fn borrow_listed<'a, T>(m: &'a names::NameMap<Vec<T>>, name: &str) -> (r: Vec<&'a T>)
    requires
        m.wf(),
    ensures
        held(r@) == names::listed(m@, name@),
{
    match m.get(name) {
        Some(list) => borrow_all(list),
        None => {
            let r: Vec<&'a T> = Vec::new();
            assert(held(r@) =~= Seq::<T>::empty());
            r
        },
    }
}

impl Repository {
    pub closed spec fn wf(&self) -> bool {
        &&& self.commit_map.wf()
        &&& self.parents_map.wf()
        &&& self.children_map.wf()
        &&& self.ref_map.wf()
    }

    pub closed spec fn path_text(&self) -> Seq<char> {
        self.path@
    }

    pub closed spec fn commits(&self) -> Map<Seq<char>, Commit> {
        self.commit_map@
    }

    pub closed spec fn parents(&self) -> Map<Seq<char>, Vec<CommitHash>> {
        self.parents_map@
    }

    pub closed spec fn children(&self) -> Map<Seq<char>, Vec<CommitHash>> {
        self.children_map@
    }

    pub closed spec fn references(&self) -> Map<Seq<char>, Vec<Ref>> {
        self.ref_map@
    }

    /// The hashes that have references, in the order in which they are walked.
    pub closed spec fn reference_walk(&self) -> Seq<Seq<char>> {
        self.ref_map.order()
    }

    pub closed spec fn checked_out(&self) -> Head {
        self.head
    }

    /// The hashes of the commits in the order of the log.
    pub closed spec fn log_order(&self) -> Seq<Seq<char>> {
        hashes(self.commit_hashes@)
    }

    /// The walk over the references meets each hash that has some once, and no other.
    pub proof fn reference_walk_covers(&self)
        requires
            self.wf(),
        ensures
            self.reference_walk().no_duplicates(),
            self.reference_walk().to_set() == self.references().dom(),
    {
        self.ref_map.order_covers();
    }

    pub fn new(
        path: String,
        commit_map: CommitMap,
        parents_map: CommitsMap,
        children_map: CommitsMap,
        ref_map: RefMap,
        head: Head,
        commit_hashes: Vec<CommitHash>,
    ) -> (r: Repository)
        requires
            commit_map.wf(),
            parents_map.wf(),
            children_map.wf(),
            ref_map.wf(),
        ensures
            r.wf(),
            r.path_text() == path@,
            r.commits() == commit_map@,
            r.parents() == parents_map@,
            r.children() == children_map@,
            r.references() == ref_map@,
            r.reference_walk() == ref_map.order(),
            r.checked_out() == head,
            r.log_order() == hashes(commit_hashes@),
    {
        Repository {
            path,
            commit_map,
            parents_map,
            children_map,
            ref_map,
            head,
            commit_hashes,
        }
    }

    /// Puts together what git told of a repository. One without commits is refused.
    pub fn load(
        path: String,
        commits: Vec<Commit>,
        stashes: Vec<Commit>,
        ref_map: RefMap,
        stash_ref_map: &RefMap,
        head: Head,
    ) -> (r: Result<Repository, String>)
        requires
            ref_map.wf(),
            stash_ref_map.wf(),
            forall|i: int|
                0 <= i < stashes@.len() ==> (#[trigger] stashes@[i]).parent_commit_hashes@.len()
                    > 0,
        ensures
            load_error(r) == if commits@.len() == 0 {
                Some("no commits in the repository"@)
            } else {
                None
            },
            r matches Ok(repo) ==> {
                let all = history::merged(commit_views(commits@), commit_views(stashes@));
                &&& repo.wf()
                &&& repo.path_text() == path@
                &&& repo.log_order() == history::hashes_of(all)
                &&& repo.checked_out() == head
                &&& history::lists(
                    repo.parents(),
                    |hash: Seq<char>| history::parents_of(all, hash),
                )
                &&& history::lists(
                    repo.children(),
                    |hash: Seq<char>| history::children_of(all, hash),
                )
                &&& forall|hash: Seq<char>| #[trigger]
                    history::looked_up(repo.commits(), hash) == history::latest(all, hash)
                &&& forall|hash: Seq<char>| #[trigger]
                    refs::listed_refs(repo.references(), hash) == refs::listed_refs(
                        ref_map@,
                        hash,
                    ) + refs::listed_refs(stash_ref_map@, hash)
            },
    {
        if commits.len() == 0 {
            return Err("no commits in the repository".to_string());
        }
        let mut ref_map = ref_map;
        let commits = history::merge_stashes_to_commits(commits, stashes);
        let mut commit_hashes: Vec<CommitHash> = Vec::new();
        let mut i: usize = 0;
        while i < commits.len()
            invariant
                i <= commits@.len(),
                commit_hashes@.len() == i,
                forall|j: int|
                    0 <= j < i ==> (#[trigger] commit_hashes@[j])@ == commits@[j].commit_hash@,
            decreases commits@.len() - i,
        {
            commit_hashes.push(commits[i].commit_hash.clone());
            i = i + 1;
        }
        assert(hashes(commit_hashes@) =~= history::hashes_of(commit_views(commits@)));
        let (parents_map, children_map) = history::build_commits_maps(&commits);
        let commit_map = history::to_commit_map(commits);
        refs::merge_ref_maps(&mut ref_map, stash_ref_map);
        Ok(
            Repository::new(
                path,
                commit_map,
                parents_map,
                children_map,
                ref_map,
                head,
                commit_hashes,
            ),
        )
    }

    pub fn path(&self) -> (r: &str)
        ensures
            r@ == self.path_text(),
    {
        self.path.as_str()
    }

    pub fn commit(&self, commit_hash: &CommitHash) -> (r: Option<&Commit>)
        requires
            self.wf(),
        ensures
            match r {
                Some(c) => self.commits().contains_key(commit_hash@) && *c
                    == self.commits()[commit_hash@],
                None => !self.commits().contains_key(commit_hash@),
            },
    {
        self.commit_map.get(commit_hash.as_str())
    }

    /// The commits in the order of the log.
    pub fn all_commits(&self) -> (r: Vec<&Commit>)
        requires
            self.wf(),
        ensures
            held(r@) == filed_commits(self.log_order(), self.commits()),
    {
        let ghost all = self.log_order();
        let mut r: Vec<&Commit> = Vec::new();
        let mut i: usize = 0;
        assert(all.take(0) =~= Seq::<Seq<char>>::empty());
        assert(held(r@) =~= Seq::<Commit>::empty());
        while i < self.commit_hashes.len()
            invariant
                i <= self.commit_hashes@.len(),
                self.wf(),
                all == self.log_order(),
                held(r@) == filed_commits(all.take(i as int), self.commits()),
            decreases self.commit_hashes@.len() - i,
        {
            proof {
                assert(all.take(i + 1).drop_last() =~= all.take(i as int));
                assert(all.take(i + 1).last() == self.commit_hashes@[i as int]@);
            }
            match self.commit(&self.commit_hashes[i]) {
                Some(c) => {
                    assert(held(r@.push(c)) =~= held(r@).push(*c));
                    r.push(c);
                },
                None => {},
            }
            i = i + 1;
        }
        assert(all.take(i as int) =~= all);
        r
    }

    pub fn parents_hash(&self, commit_hash: &CommitHash) -> (r: Vec<&CommitHash>)
        requires
            self.wf(),
        ensures
            held(r@) == names::listed(self.parents(), commit_hash@),
    {
        borrow_listed(&self.parents_map, commit_hash.as_str())
    }

    pub fn children_hash(&self, commit_hash: &CommitHash) -> (r: Vec<&CommitHash>)
        requires
            self.wf(),
        ensures
            held(r@) == names::listed(self.children(), commit_hash@),
    {
        borrow_listed(&self.children_map, commit_hash.as_str())
    }

    pub fn refs(&self, commit_hash: &CommitHash) -> (r: Vec<&Ref>)
        requires
            self.wf(),
        ensures
            held(r@) == names::listed(self.references(), commit_hash@),
    {
        borrow_listed(&self.ref_map, commit_hash.as_str())
    }

    /// All references, those of one commit together.
    pub fn all_refs(&self) -> (r: Vec<&Ref>)
        requires
            self.wf(),
        ensures
            held(r@) == chained(self.reference_walk(), self.references()),
    {
        let ghost walk = self.reference_walk();
        proof {
            self.ref_map.order_covers();
        }
        let n = self.ref_map.len();
        let mut r: Vec<&Ref> = Vec::new();
        let mut i: usize = 0;
        assert(walk.take(0) =~= Seq::<Seq<char>>::empty());
        assert(held(r@) =~= Seq::<Ref>::empty());
        while i < n
            invariant
                i <= n,
                n == walk.len(),
                self.wf(),
                walk == self.reference_walk(),
                forall|j: int|
                    0 <= j < walk.len() ==> self.references().contains_key(#[trigger] walk[j]),
                held(r@) == chained(walk.take(i as int), self.references()),
            decreases n - i,
        {
            proof {
                assert(walk.take(i + 1).drop_last() =~= walk.take(i as int));
                assert(self.references().contains_key(walk[i as int]));
            }
            let mut more = borrow_all(self.ref_map.value_at(i));
            assert(held(r@ + more@) =~= held(r@) + held(more@));
            r.append(&mut more);
            i = i + 1;
        }
        assert(walk.take(i as int) =~= walk);
        r
    }

    pub fn head(&self) -> (r: &Head)
        ensures
            *r == self.checked_out(),
    {
        &self.head
    }

    /// How git is asked for what a commit changed: a commit without parents adds all its files.
    pub fn commit_detail_arguments(&self, commit_hash: &CommitHash) -> (r: Vec<String>)
        requires
            self.wf(),
            self.commits().contains_key(commit_hash@),
        ensures
            text::texts(r@) == if self.commits()[commit_hash@].parent_commit_hashes@.len() == 0 {
                seq!["ls-tree"@, "--name-status"@, "-r"@, commit_hash@]
            } else {
                seq!["diff"@, "--name-status"@, commit_hash@ + "^"@, commit_hash@]
            },
    {
        let commit = self.commit(commit_hash).unwrap();
        if commit.parent_commit_hashes.len() == 0 {
            changes::get_initial_commit_additions_arguments(commit_hash)
        } else {
            changes::get_diff_summary_arguments(commit_hash)
        }
    }

    /// A commit and what it changed, by what git printed when asked.
    pub fn commit_detail(&self, commit_hash: &CommitHash, output: &str) -> (r: (
        Commit,
        Vec<FileChange>,
    ))
        requires
            self.wf(),
            self.commits().contains_key(commit_hash@),
            self.commits()[commit_hash@].parent_commit_hashes@.len() > 0 ==> forall|i: int|
                0 <= i < decode::line_list(output@).len() ==> changes::change_line(
                    #[trigger] decode::line_list(output@)[i],
                ),
        ensures
            r.0@ == self.commits()[commit_hash@]@,
            changes::change_views(r.1@) == if self.commits()[commit_hash@].parent_commit_hashes@.len()
                == 0 {
                changes::additions(decode::line_list(output@))
            } else {
                changes::changes_on(decode::line_list(output@))
            },
    {
        let commit = self.commit(commit_hash).unwrap().clone();
        proof {
            let c = self.commits()[commit_hash@];
            assert(c@.parents.len() == commit@.parents.len());
        }
        let found = if commit.parent_commit_hashes.len() == 0 {
            changes::get_initial_commit_additions(output)
        } else {
            changes::get_diff_summary(output)
        };
        (commit, found)
    }
}

/// Where every character of a hash is a single byte, the short hash is its first seven characters.
pub proof fn short_hashes_begin_the_hash(hash: Seq<char>)
    requires
        hash.len() >= 7,
        forall|i: int| 0 <= i < hash.len() ==> text::char_bytes(#[trigger] hash[i]) == 1,
    ensures
        short_hash(hash) == hash.take(7),
{
    assert forall|i: int| 0 <= i < hash.take(7).len() implies text::char_bytes(
        #[trigger] hash.take(7)[i],
    ) == 1 by {
        assert(hash.take(7)[i] == hash[i]);
    }
    text::ascii_takes_single_bytes(hash.take(7));
    text::chars_for_is(hash, 7, 7);
}

/// At one commit the tags come first, then the branches, then those of remotes, then the stashes,
/// each by their names.
pub proof fn references_are_in_order(a: Seq<char>, b: Seq<char>, m: Seq<char>, s: Seq<char>, t: Seq<char>)
    ensures
        (RefView::Tag { name: a, target: s }).goes_before(RefView::Branch { name: b, target: t }),
        (RefView::Branch { name: a, target: s }).goes_before(
            RefView::RemoteBranch { name: b, target: t },
        ),
        (RefView::RemoteBranch { name: a, target: s }).goes_before(
            RefView::Stash { name: b, message: m, target: t },
        ),
        order::precedes(a, b) ==> (RefView::Tag { name: a, target: s }).goes_before(
            RefView::Tag { name: b, target: t },
        ) && (RefView::Branch { name: a, target: s }).goes_before(
            RefView::Branch { name: b, target: t },
        ) && (RefView::RemoteBranch { name: a, target: s }).goes_before(
            RefView::RemoteBranch { name: b, target: t },
        ),
{
    order::precedes_irreflexive(a);
}

/// What was read is found in the repository: each commit under its hash, with its own parents, the
/// head, the path, and the commits in the order in which they came.
pub proof fn loaded_repositories_hold_what_was_read(
    path: String,
    commits: Vec<Commit>,
    stashes: Vec<Commit>,
    ref_map: RefMap,
    stash_ref_map: &RefMap,
    head: Head,
    repository: Repository,
    i: int,
)
    requires
        call_ensures(
            Repository::load,
            (path, commits, stashes, ref_map, stash_ref_map, head),
            Ok::<Repository, String>(repository),
        ),
        0 <= i < commits@.len(),
        forall|j: int|
            0 <= j < commits@.len() && j != i ==> (#[trigger] commits@[j])@.hash
                != commits@[i]@.hash,
        forall|j: int| 0 <= j < stashes@.len() ==> (#[trigger] stashes@[j])@.hash != commits@[i]@.hash,
    ensures
        repository.commits().contains_key(commits@[i]@.hash),
        repository.commits()[commits@[i]@.hash]@ == commits@[i]@,
        history::listed_hashes(repository.parents(), commits@[i]@.hash) == commits@[i]@.parents,
        repository.log_order().contains(commits@[i]@.hash),
        repository.checked_out() == head,
        repository.path_text() == path@,
        refs::listed_refs(repository.references(), commits@[i]@.hash) == refs::listed_refs(
            ref_map@,
            commits@[i]@.hash,
        ) + refs::listed_refs(stash_ref_map@, commits@[i]@.hash),
{
    let all = commit_views(commits@);
    let put_by = commit_views(stashes@);
    let hash = commits@[i]@.hash;
    assert forall|j: int| 0 <= j < all.len() && j != i implies (#[trigger] all[j]).hash != all[i].hash by {
        assert(commits@[j]@.hash != hash);
    }
    assert forall|j: int| 0 <= j < put_by.len() implies (#[trigger] put_by[j]).hash != all[i].hash by {
        assert(stashes@[j]@.hash != hash);
    }
    history::read_commits_are_found(all, put_by, i);
    let at = history::stashes_stand_before_their_commit(all, put_by, i);
    let merged = history::merged(all, put_by);
    assert(history::hashes_of(merged)[at] == hash);
    assert(history::looked_up(repository.commits(), hash) == history::latest(merged, hash));
    let what = |h: Seq<char>| history::parents_of(merged, h);
    assert(history::listed_hashes(repository.parents(), hash) == what(hash));
}

/// Every commit of the order that is on file is among all commits, in that order.
pub proof fn all_commits_come_in_order(listed: Seq<Seq<char>>, m: Map<Seq<char>, Commit>)
    requires
        forall|i: int| 0 <= i < listed.len() ==> m.contains_key(#[trigger] listed[i]),
    ensures
        filed_commits(listed, m).len() == listed.len(),
        forall|i: int| 0 <= i < listed.len() ==> #[trigger] filed_commits(listed, m)[i] == m[listed[i]],
    decreases listed.len(),
{
    if listed.len() > 0 {
        let front = listed.drop_last();
        assert forall|i: int| 0 <= i < front.len() implies m.contains_key(#[trigger] front[i]) by {
            assert(front[i] == listed[i]);
        }
        all_commits_come_in_order(front, m);
        assert(m.contains_key(listed[listed.len() - 1]));
        assert forall|i: int| 0 <= i < listed.len() implies #[trigger] filed_commits(listed, m)[i]
            == m[listed[i]] by {
            if i < front.len() {
                assert(filed_commits(front, m)[i] == m[front[i]]);
            }
        }
    }
}

} // verus!
