//! How commits hang together: parents, children and the stashes among them.

use vstd::prelude::*;
use crate::git;
use crate::git::{Commit, CommitHash};
use crate::names;
use crate::names::NameMap;

verus! {

/// The commits by their hashes.
pub type CommitMap = NameMap<Commit>;

/// Lists of hashes by hashes.
pub type CommitsMap = NameMap<Vec<CommitHash>>;

/// The parents that the commits give to a hash.
pub open spec fn parents_of(commits: Seq<git::CommitView>, hash: Seq<char>) -> Seq<Seq<char>>
    decreases commits.len(),
{
    if commits.len() == 0 {
        Seq::empty()
    } else {
        parents_of(commits.drop_last(), hash) + if commits.last().hash == hash {
            commits.last().parents
        } else {
            Seq::empty()
        }
    }
}

/// One `hash` for each time that `parent` is among the parents.
pub open spec fn marks(parents: Seq<Seq<char>>, parent: Seq<char>, hash: Seq<char>) -> Seq<
    Seq<char>,
>
    decreases parents.len(),
{
    if parents.len() == 0 {
        Seq::empty()
    } else {
        let rest = marks(parents.drop_last(), parent, hash);
        if parents.last() == parent {
            rest.push(hash)
        } else {
            rest
        }
    }
}

/// The commits that name `parent` among their parents, in the order of the commits.
pub open spec fn children_of(commits: Seq<git::CommitView>, parent: Seq<char>) -> Seq<Seq<char>>
    decreases commits.len(),
{
    if commits.len() == 0 {
        Seq::empty()
    } else {
        children_of(commits.drop_last(), parent) + marks(
            commits.last().parents,
            parent,
            commits.last().hash,
        )
    }
}

/// The hashes that a map lists under a hash.
pub open spec fn listed_hashes(m: Map<Seq<char>, Vec<CommitHash>>, hash: Seq<char>) -> Seq<
    Seq<char>,
> {
    git::hashes(names::listed(m, hash))
}

/// Whether a map lists these hashes under each hash, and has no empty lists.
pub open spec fn lists(
    m: Map<Seq<char>, Vec<CommitHash>>,
    what: spec_fn(Seq<char>) -> Seq<Seq<char>>,
) -> bool {
    forall|hash: Seq<char>| #[trigger]
        listed_hashes(m, hash) == what(hash) && (m.contains_key(hash) <==> what(hash).len() > 0)
}

fn add_hash(m: &mut CommitsMap, at: &CommitHash, hash: &CommitHash)
    requires
        old(m).wf(),
    ensures
        final(m).wf(),
        listed_hashes(final(m)@, at@) == listed_hashes(old(m)@, at@).push(hash@),
        forall|k: Seq<char>|
            k != at@ ==> #[trigger] listed_hashes(final(m)@, k) == listed_hashes(old(m)@, k),
        forall|k: Seq<char>| #[trigger]
            final(m)@.contains_key(k) <==> (old(m)@.contains_key(k) || k == at@),
{
    let ghost before = m@;
    names::push_to(m, at.as_str(), hash.clone());
    assert(git::hashes(names::listed(before, at@).push(*hash)) =~= git::hashes(
        names::listed(before, at@),
    ).push(hash@));
}

/// Finds the parents and the children of each commit.
pub fn build_commits_maps(commits: &Vec<Commit>) -> (r: (CommitsMap, CommitsMap))
    ensures
        r.0.wf(),
        r.1.wf(),
        lists(r.0@, |hash: Seq<char>| parents_of(git::commit_views(commits@), hash)),
        lists(r.1@, |hash: Seq<char>| children_of(git::commit_views(commits@), hash)),
{
    let mut parents_map: CommitsMap = NameMap::new();
    let mut children_map: CommitsMap = NameMap::new();
    let ghost all = git::commit_views(commits@);
    let ghost no_hashes = Seq::<CommitHash>::empty();
    assert(git::hashes(no_hashes) =~= Seq::<Seq<char>>::empty());
    let mut i: usize = 0;
    assert(all.take(0) =~= Seq::<git::CommitView>::empty());
    while i < commits.len()
        invariant
            i <= commits@.len(),
            all == git::commit_views(commits@),
            parents_map.wf(),
            children_map.wf(),
            lists(parents_map@, |hash: Seq<char>| parents_of(all.take(i as int), hash)),
            lists(children_map@, |hash: Seq<char>| children_of(all.take(i as int), hash)),
        decreases commits@.len() - i,
    {
        let hash = &commits[i].commit_hash;
        let parents = &commits[i].parent_commit_hashes;
        let ghost done = all.take(i as int);
        let ghost c = all[i as int];
        let mut j: usize = 0;
        assert(c.parents.take(0) =~= Seq::<Seq<char>>::empty());
        assert forall|k: Seq<char>| #[trigger] parents_of(done, k) + Seq::<Seq<char>>::empty()
            == parents_of(done, k) by {
            assert(parents_of(done, k) + Seq::<Seq<char>>::empty() =~= parents_of(done, k));
        }
        let ghost f = |k: Seq<char>|
            parents_of(done, k) + if k == hash@ {
                c.parents.take(0)
            } else {
                Seq::empty()
            };
        let ghost g = |k: Seq<char>| children_of(done, k) + marks(c.parents.take(0), k, hash@);
        proof {
            assert forall|k: Seq<char>| #[trigger] listed_hashes(parents_map@, k) == f(k) && (
            parents_map@.contains_key(k) <==> f(k).len() > 0) by {
                assert(f(k) =~= parents_of(done, k));
                let h = |hash: Seq<char>| parents_of(all.take(i as int), hash);
                assert(h(k) == f(k));
            }
            assert forall|k: Seq<char>| #[trigger] listed_hashes(children_map@, k) == g(k) && (
            children_map@.contains_key(k) <==> g(k).len() > 0) by {
                assert(g(k) =~= children_of(done, k));
                let h = |hash: Seq<char>| children_of(all.take(i as int), hash);
                assert(h(k) == g(k));
            }
        }
        while j < parents.len()
            invariant
                j <= parents@.len(),
                hash@ == c.hash,
                git::hashes(parents@) == c.parents,
                parents_map.wf(),
                children_map.wf(),
                forall|k: Seq<char>| #[trigger]
                    listed_hashes(parents_map@, k) == parents_of(done, k) + (if k == hash@ {
                        c.parents.take(j as int)
                    } else {
                        Seq::empty()
                    }),
                forall|k: Seq<char>| #[trigger]
                    listed_hashes(children_map@, k) == children_of(done, k) + marks(
                        c.parents.take(j as int),
                        k,
                        hash@,
                    ),
                forall|k: Seq<char>| #[trigger]
                    parents_map@.contains_key(k) <==> listed_hashes(parents_map@, k).len() > 0,
                forall|k: Seq<char>| #[trigger]
                    children_map@.contains_key(k) <==> listed_hashes(children_map@, k).len() > 0,
            decreases parents@.len() - j,
        {
            let parent = &parents[j];
            let ghost pm = parents_map@;
            let ghost cm = children_map@;
            add_hash(&mut parents_map, hash, parent);
            add_hash(&mut children_map, parent, hash);
            proof {
                let now = c.parents.take(j as int);
                let next = c.parents.take(j + 1);
                assert(parent@ == c.parents[j as int]);
                assert(next =~= now.push(parent@));
                assert(next.drop_last() =~= now);
                assert forall|k: Seq<char>| #[trigger] listed_hashes(parents_map@, k)
                    == parents_of(done, k) + (if k == hash@ {
                    next
                } else {
                    Seq::empty()
                }) by {
                    if k == hash@ {
                        assert((parents_of(done, k) + now).push(parent@) =~= parents_of(done, k)
                            + next);
                    }
                    assert(listed_hashes(pm, k) == parents_of(done, k) + (if k == hash@ {
                        now
                    } else {
                        Seq::empty()
                    }));
                }
                assert forall|k: Seq<char>| #[trigger] listed_hashes(children_map@, k)
                    == children_of(done, k) + marks(next, k, hash@) by {
                    assert(listed_hashes(cm, k) == children_of(done, k) + marks(now, k, hash@));
                    if k == parent@ {
                        assert((children_of(done, k) + marks(now, k, hash@)).push(hash@)
                            =~= children_of(done, k) + marks(next, k, hash@));
                    }
                }
                assert forall|k: Seq<char>| #[trigger] parents_map@.contains_key(k) <==> listed_hashes(
                    parents_map@,
                    k,
                ).len() > 0 by {
                    assert(pm.contains_key(k) <==> listed_hashes(pm, k).len() > 0);
                }
                assert forall|k: Seq<char>| #[trigger] children_map@.contains_key(k)
                    <==> listed_hashes(children_map@, k).len() > 0 by {
                    assert(cm.contains_key(k) <==> listed_hashes(cm, k).len() > 0);
                }
            }
            j = j + 1;
        }
        proof {
            let next = all.take(i + 1);
            assert(c.parents.take(j as int) =~= c.parents);
            assert(next.drop_last() =~= done);
            assert(next.last() == c);
            let p = |hash: Seq<char>| parents_of(next, hash);
            let q = |hash: Seq<char>| children_of(next, hash);
            assert forall|k: Seq<char>| #[trigger] listed_hashes(parents_map@, k) == p(k) && (
            parents_map@.contains_key(k) <==> p(k).len() > 0) by {
                assert(p(k) == parents_of(next, k));
            }
            assert forall|k: Seq<char>| #[trigger] listed_hashes(children_map@, k) == q(k) && (
            children_map@.contains_key(k) <==> q(k).len() > 0) by {
                assert(q(k) == children_of(next, k));
            }
            assert(lists(parents_map@, p));
            assert(lists(children_map@, q));
        }
        i = i + 1;
    }
    assert(all.take(i as int) =~= all);
    (parents_map, children_map)
}

proof fn marks_are_occurrences(
    parents: Seq<Seq<char>>,
    parent: Seq<char>,
    hash: Seq<char>,
    other: Seq<char>,
)
    ensures
        marks(parents, parent, hash).to_multiset().count(other) == if other == hash {
            parents.to_multiset().count(parent)
        } else {
            0
        },
    decreases parents.len(),
{
    broadcast use vstd::seq_lib::group_to_multiset_ensures;

    if parents.len() > 0 {
        let front = parents.drop_last();
        marks_are_occurrences(front, parent, hash, other);
        assert(front.push(parents.last()) =~= parents);
    } else {
        assert(!parents.contains(parent));
        assert(!marks(parents, parent, hash).contains(other));
    }
}

proof fn no_occurrences(s: Seq<Seq<char>>, x: Seq<char>)
    requires
        s.len() == 0,
    ensures
        s.to_multiset().count(x) == 0,
{
    broadcast use vstd::seq_lib::group_to_multiset_ensures;

    assert(!s.contains(x));
}

/// A commit occurs among the children of another as often as the other occurs among its parents.
pub proof fn children_mirror_parents(
    commits: Seq<git::CommitView>,
    child: Seq<char>,
    parent: Seq<char>,
)
    ensures
        children_of(commits, parent).to_multiset().count(child) == parents_of(
            commits,
            child,
        ).to_multiset().count(parent),
        children_of(commits, parent).contains(child) <==> parents_of(commits, child).contains(
            parent,
        ),
    decreases commits.len(),
{
    broadcast use vstd::seq_lib::group_to_multiset_ensures;

    if commits.len() > 0 {
        let front = commits.drop_last();
        let last = commits.last();
        children_mirror_parents(front, child, parent);
        marks_are_occurrences(last.parents, parent, last.hash, child);
        no_occurrences(Seq::empty(), parent);
        vstd::seq_lib::lemma_multiset_commutative(
            children_of(front, parent),
            marks(last.parents, parent, last.hash),
        );
        vstd::seq_lib::lemma_multiset_commutative(
            parents_of(front, child),
            if last.hash == child {
                last.parents
            } else {
                Seq::empty()
            },
        );
    } else {
        no_occurrences(children_of(commits, parent), child);
        no_occurrences(parents_of(commits, child), parent);
    }
}

proof fn contains_in_sum<A>(a: Seq<A>, b: Seq<A>, x: A)
    ensures
        (a + b).contains(x) <==> a.contains(x) || b.contains(x),
{
    if a.contains(x) {
        let i = choose|i: int| 0 <= i < a.len() && a[i] == x;
        assert((a + b)[i] == x);
    }
    if b.contains(x) {
        let i = choose|i: int| 0 <= i < b.len() && b[i] == x;
        assert((a + b)[a.len() + i] == x);
    }
    if (a + b).contains(x) {
        let i = choose|i: int| 0 <= i < (a + b).len() && (a + b)[i] == x;
        if i < a.len() {
            assert(a[i] == x);
        } else {
            assert(b[i - a.len()] == x);
        }
    }
}

/// The last of the commits with this hash.
pub open spec fn latest(commits: Seq<git::CommitView>, hash: Seq<char>) -> Option<git::CommitView>
    decreases commits.len(),
{
    if commits.len() == 0 {
        None
    } else if commits.last().hash == hash {
        Some(commits.last())
    } else {
        latest(commits.drop_last(), hash)
    }
}

/// What a map of commits says of a hash.
pub open spec fn looked_up(m: Map<Seq<char>, Commit>, hash: Seq<char>) -> Option<git::CommitView> {
    if m.contains_key(hash) {
        Some(m[hash]@)
    } else {
        None
    }
}

/// Files the commits under their hashes. Of two commits with one hash the later stays.
pub fn to_commit_map(commits: Vec<Commit>) -> (r: CommitMap)
    ensures
        r.wf(),
        forall|hash: Seq<char>| #[trigger]
            looked_up(r@, hash) == latest(git::commit_views(commits@), hash),
{
    let ghost all = git::commit_views(commits@);
    let mut r: CommitMap = NameMap::new();
    assert(all.take(0) =~= Seq::<git::CommitView>::empty());
    for commit in it: commits
        invariant
            all == git::commit_views(it.seq()),
            r.wf(),
            forall|hash: Seq<char>| #[trigger]
                looked_up(r@, hash) == latest(all.take(it.index() as int), hash),
    {
        let ghost before = r@;
        let ghost view = commit@;
        let hash = commit.commit_hash.clone();
        r.insert(hash.as_str(), commit);
        proof {
            let n = it.index() as int;
            assert(all.take(n + 1).drop_last() =~= all.take(n));
            assert(all.take(n + 1).last() == view);
            assert forall|hash: Seq<char>| #[trigger] looked_up(r@, hash) == latest(
                all.take(n + 1),
                hash,
            ) by {
                assert(looked_up(before, hash) == latest(all.take(n), hash));
            }
        }
    }
    assert(all.take(all.len() as int) =~= all);
    r
}

/// The stashes that were made from the commit `base`: a stash's first parent is that commit.
pub open spec fn stashes_on(stashes: Seq<git::CommitView>, base: Seq<char>) -> Seq<git::CommitView>
    decreases stashes.len(),
{
    if stashes.len() == 0 {
        Seq::empty()
    } else {
        let rest = stashes_on(stashes.drop_last(), base);
        if stashes.last().parents[0] == base {
            rest.push(stashes.last())
        } else {
            rest
        }
    }
}

/// The hashes of the commits.
pub open spec fn hashes_of(commits: Seq<git::CommitView>) -> Seq<Seq<char>> {
    Seq::new(commits.len(), |i: int| commits[i].hash)
}

/// The commits, each with the stashes that were made from it right before it. A stash that was
/// made from none of them is left out.
pub open spec fn merged(commits: Seq<git::CommitView>, stashes: Seq<git::CommitView>) -> Seq<
    git::CommitView,
>
    decreases commits.len(),
{
    if commits.len() == 0 {
        Seq::empty()
    } else {
        let front = commits.drop_last();
        let last = commits.last();
        (merged(front, stashes) + if hashes_of(front).contains(last.hash) {
            Seq::empty()
        } else {
            stashes_on(stashes, last.hash)
        }).push(last)
    }
}

/// The commits that a map lists under a hash.
spec fn filed(m: Map<Seq<char>, Vec<Commit>>, hash: Seq<char>) -> Seq<git::CommitView> {
    git::commit_views(names::listed(m, hash))
}

fn stashes_by_base(stashes: Vec<Commit>) -> (r: NameMap<Vec<Commit>>)
    requires
        forall|i: int|
            0 <= i < stashes@.len() ==> (#[trigger] stashes@[i]).parent_commit_hashes@.len() > 0,
    ensures
        r.wf(),
        forall|base: Seq<char>| #[trigger]
            filed(r@, base) == stashes_on(git::commit_views(stashes@), base),
{
    let ghost given = stashes@;
    let ghost all = git::commit_views(stashes@);
    let mut r: NameMap<Vec<Commit>> = NameMap::new();
    assert(all.take(0) =~= Seq::<git::CommitView>::empty());
    assert forall|base: Seq<char>| #[trigger] filed(r@, base) == stashes_on(all.take(0), base) by {
        assert(filed(r@, base) =~= Seq::<git::CommitView>::empty());
    }
    for stash in it: stashes
        invariant
            given == it.seq(),
            all == git::commit_views(given),
            forall|i: int|
                0 <= i < given.len() ==> (#[trigger] given[i]).parent_commit_hashes@.len() > 0,
            r.wf(),
            forall|base: Seq<char>| #[trigger]
                filed(r@, base) == stashes_on(all.take(it.index() as int), base),
    {
        let ghost n = it.index() as int;
        assert(stash == given[n]);
        let ghost before = r@;
        let ghost view = stash@;
        let ghost value = stash;
        let base = stash.parent_commit_hashes[0].clone();
        names::push_to(&mut r, base.as_str(), stash);
        proof {
            assert(all.take(n + 1).drop_last() =~= all.take(n));
            assert(all.take(n + 1).last() == view);
            assert(view.parents[0] == base@);
            assert forall|k: Seq<char>| #[trigger] filed(r@, k) == stashes_on(
                all.take(n + 1),
                k,
            ) by {
                assert(filed(before, k) == stashes_on(all.take(n), k));
                if k == base@ {
                    assert(git::commit_views(names::listed(before, k).push(value))
                        =~= git::commit_views(names::listed(before, k)).push(view));
                }
            }
        }
    }
    assert(all.take(all.len() as int) =~= all);
    r
}

/// Puts each stash right before the commit that it was made from.
pub fn merge_stashes_to_commits(commits: Vec<Commit>, stashes: Vec<Commit>) -> (r: Vec<Commit>)
    requires
        forall|i: int|
            0 <= i < stashes@.len() ==> (#[trigger] stashes@[i]).parent_commit_hashes@.len() > 0,
    ensures
        git::commit_views(r@) == merged(
            git::commit_views(commits@),
            git::commit_views(stashes@),
        ),
{
    let ghost all = git::commit_views(commits@);
    let ghost held = git::commit_views(stashes@);
    let mut stash_map = stashes_by_base(stashes);
    let mut r: Vec<Commit> = Vec::new();
    assert(all.take(0) =~= Seq::<git::CommitView>::empty());
    assert(git::commit_views(r@) =~= Seq::<git::CommitView>::empty());
    for commit in it: commits
        invariant
            all == git::commit_views(it.seq()),
            stash_map.wf(),
            git::commit_views(r@) == merged(all.take(it.index() as int), held),
            forall|base: Seq<char>| #[trigger]
                filed(stash_map@, base) == if hashes_of(all.take(it.index() as int)).contains(
                    base,
                ) {
                    Seq::empty()
                } else {
                    stashes_on(held, base)
                },
    {
        let ghost n = it.index() as int;
        let ghost before = stash_map@;
        let ghost so_far = r@;
        let ghost view = commit@;
        let ghost value = commit;
        let hash = commit.commit_hash.clone();
        let mut found: Vec<Commit> = match stash_map.insert(hash.as_str(), Vec::new()) {
            Some(v) => v,
            None => Vec::new(),
        };
        let ghost taken = found@;
        r.append(&mut found);
        r.push(commit);
        proof {
            let now = all.take(n);
            let next = all.take(n + 1);
            assert(next.drop_last() =~= now);
            assert(next.last() == view);
            assert(git::commit_views(taken) =~= filed(before, view.hash));
            assert(git::commit_views((so_far + taken).push(value)) =~= (git::commit_views(so_far)
                + git::commit_views(taken)).push(view));
            assert forall|base: Seq<char>| #[trigger] filed(stash_map@, base) == (if hashes_of(
                next,
            ).contains(base) {
                Seq::empty()
            } else {
                stashes_on(held, base)
            }) by {
                assert(filed(before, base) == if hashes_of(now).contains(base) {
                    Seq::empty()
                } else {
                    stashes_on(held, base)
                });
                assert(hashes_of(next) =~= hashes_of(now).push(view.hash));
                if base == view.hash {
                    assert(hashes_of(next)[n] == base);
                    assert(filed(stash_map@, base) =~= Seq::<git::CommitView>::empty());
                } else {
                    if hashes_of(now).contains(base) {
                        let j = choose|j: int| 0 <= j < n && hashes_of(now)[j] == base;
                        assert(hashes_of(next)[j] == base);
                    }
                    if hashes_of(next).contains(base) {
                        let j = choose|j: int| 0 <= j < n + 1 && hashes_of(next)[j] == base;
                        assert(hashes_of(now)[j] == base);
                    }
                }
            }
        }
    }
    assert(all.take(all.len() as int) =~= all);
    r
}

/// Merging keeps the commits and their order: without the stashes among them they are as before.
pub proof fn merging_keeps_commits(commits: Seq<git::CommitView>, stashes: Seq<git::CommitView>)
    requires
        forall|i: int|
            0 <= i < commits.len() ==> (#[trigger] commits[i]).commit_type
                == git::CommitType::Commit,
        forall|i: int|
            0 <= i < stashes.len() ==> (#[trigger] stashes[i]).commit_type
                == git::CommitType::Stash,
    ensures
        merged(commits, stashes).filter(
            |c: git::CommitView| c.commit_type == git::CommitType::Commit,
        ) == commits,
    decreases commits.len(),
{
    let keep = |c: git::CommitView| c.commit_type == git::CommitType::Commit;
    reveal(Seq::filter);
    if commits.len() > 0 {
        let front = commits.drop_last();
        let last = commits.last();
        merging_keeps_commits(front, stashes);
        let between = if hashes_of(front).contains(last.hash) {
            Seq::empty()
        } else {
            stashes_on(stashes, last.hash)
        };
        stashes_on_are_stashes(stashes, last.hash);
        let m = merged(front, stashes);
        filter_drops(m, between, keep);
        assert((m + between).push(last).drop_last() =~= m + between);
        assert(commits =~= front.push(last));
    }
}

proof fn stashes_on_are_stashes(stashes: Seq<git::CommitView>, base: Seq<char>)
    ensures
        forall|i: int|
            0 <= i < stashes_on(stashes, base).len() ==> stashes.contains(
                #[trigger] stashes_on(stashes, base)[i],
            ) && stashes_on(stashes, base)[i].parents[0] == base,
    decreases stashes.len(),
{
    if stashes.len() > 0 {
        let front = stashes.drop_last();
        stashes_on_are_stashes(front, base);
        assert forall|i: int| 0 <= i < stashes_on(stashes, base).len() implies stashes.contains(
            #[trigger] stashes_on(stashes, base)[i],
        ) && stashes_on(stashes, base)[i].parents[0] == base by {
            let rest = stashes_on(front, base);
            if i < rest.len() {
                assert(front.contains(rest[i]));
                let j = choose|j: int| 0 <= j < front.len() && front[j] == rest[i];
                assert(stashes[j] == rest[i]);
            } else {
                assert(stashes[stashes.len() - 1] == stashes.last());
            }
        }
    }
}

proof fn filter_drops<A>(a: Seq<A>, b: Seq<A>, keep: spec_fn(A) -> bool)
    requires
        forall|i: int| 0 <= i < b.len() ==> !keep(#[trigger] b[i]),
    ensures
        (a + b).filter(keep) == a.filter(keep),
    decreases b.len(),
{
    reveal(Seq::filter);
    if b.len() == 0 {
        assert(a + b =~= a);
    } else {
        filter_drops(a, b.drop_last(), keep);
        assert((a + b).drop_last() =~= a + b.drop_last());
        assert(!keep(b[b.len() - 1]));
    }
}

/// A stash that was made from none of the commits is left out.
pub proof fn stray_stashes_are_left_out(
    commits: Seq<git::CommitView>,
    stashes: Seq<git::CommitView>,
    stash: git::CommitView,
)
    requires
        !hashes_of(commits).contains(stash.parents[0]),
        !commits.contains(stash),
    ensures
        !merged(commits, stashes).contains(stash),
    decreases commits.len(),
{
    if commits.len() > 0 {
        let front = commits.drop_last();
        let last = commits.last();
        assert(!hashes_of(front).contains(stash.parents[0])) by {
            if hashes_of(front).contains(stash.parents[0]) {
                let i = choose|i: int|
                    0 <= i < front.len() && hashes_of(front)[i] == stash.parents[0];
                assert(hashes_of(commits)[i] == stash.parents[0]);
            }
        }
        assert(!front.contains(stash)) by {
            if front.contains(stash) {
                let i = choose|i: int| 0 <= i < front.len() && front[i] == stash;
                assert(commits[i] == stash);
            }
        }
        stray_stashes_are_left_out(front, stashes, stash);
        let between = if hashes_of(front).contains(last.hash) {
            Seq::empty()
        } else {
            stashes_on(stashes, last.hash)
        };
        stashes_on_are_stashes(stashes, last.hash);
        assert(hashes_of(commits)[commits.len() - 1] == last.hash);
        assert(commits[commits.len() - 1] == last);
        assert(!between.contains(stash)) by {
            if between.contains(stash) {
                let i = choose|i: int| 0 <= i < between.len() && between[i] == stash;
                assert(between[i].parents[0] == last.hash);
            }
        }
        contains_in_sum(merged(front, stashes), between, stash);
        let m = (merged(front, stashes) + between).push(last);
        if m.contains(stash) {
            let i = choose|i: int| 0 <= i < m.len() && m[i] == stash;
            assert((merged(front, stashes) + between)[i] == stash);
        }
    }
}

/// A commit has the parents that it names, where no other commit has its hash.
pub proof fn parents_are_the_named_ones(commits: Seq<git::CommitView>, i: int)
    requires
        0 <= i < commits.len(),
        forall|j: int| 0 <= j < commits.len() && j != i ==> (#[trigger] commits[j]).hash != commits[i].hash,
    ensures
        parents_of(commits, commits[i].hash) == commits[i].parents,
        latest(commits, commits[i].hash) == Some(commits[i]),
    decreases commits.len(),
{
    let hash = commits[i].hash;
    let front = commits.drop_last();
    let n = commits.len() - 1;
    if i == n {
        no_parents_of(front, hash);
        assert(parents_of(commits, hash) =~= commits[i].parents);
    } else {
        assert(commits[n].hash != hash);
        parents_are_the_named_ones(front, i);
        assert(parents_of(commits, hash) =~= commits[i].parents);
    }
}

proof fn no_parents_of(commits: Seq<git::CommitView>, hash: Seq<char>)
    requires
        forall|j: int| 0 <= j < commits.len() ==> (#[trigger] commits[j]).hash != hash,
    ensures
        parents_of(commits, hash) == Seq::<Seq<char>>::empty(),
        latest(commits, hash) is None,
    decreases commits.len(),
{
    if commits.len() > 0 {
        assert(commits[commits.len() - 1].hash != hash);
        no_parents_of(commits.drop_last(), hash);
        assert(parents_of(commits, hash) =~= Seq::<Seq<char>>::empty());
    }
}

proof fn stashes_on_are_filtered(stashes: Seq<git::CommitView>, base: Seq<char>)
    ensures
        stashes_on(stashes, base) == stashes.filter(|s: git::CommitView| s.parents[0] == base),
    decreases stashes.len(),
{
    reveal(Seq::filter);
    if stashes.len() > 0 {
        stashes_on_are_filtered(stashes.drop_last(), base);
    }
}

/// The stashes that were made on a commit stand right before it, as they came, and each commit is
/// there.
pub proof fn stashes_stand_before_their_commit(
    commits: Seq<git::CommitView>,
    stashes: Seq<git::CommitView>,
    i: int,
) -> (at: int)
    requires
        0 <= i < commits.len(),
        forall|j: int| 0 <= j < i ==> (#[trigger] commits[j]).hash != commits[i].hash,
    ensures
        ({
            let all = merged(commits, stashes);
            let made = stashes.filter(|s: git::CommitView| s.parents[0] == commits[i].hash);
            &&& made.len() <= at < all.len()
            &&& all[at] == commits[i]
            &&& all.subrange(at - made.len(), at) == made
        }),
    decreases commits.len(),
{
    let front = commits.drop_last();
    let last = commits.last();
    let all = merged(commits, stashes);
    let before = merged(front, stashes);
    let made = stashes.filter(|s: git::CommitView| s.parents[0] == commits[i].hash);
    if i < commits.len() - 1 {
        let at = stashes_stand_before_their_commit(front, stashes, i);
        assert(all[at] == before[at]);
        assert(all.subrange(at - made.len(), at) =~= before.subrange(at - made.len(), at));
        at
    } else {
        stashes_on_are_filtered(stashes, last.hash);
        assert(!hashes_of(front).contains(last.hash)) by {
            if hashes_of(front).contains(last.hash) {
                let j = choose|j: int| 0 <= j < front.len() && hashes_of(front)[j] == last.hash;
                assert(commits[j].hash == last.hash);
            }
        }
        let at = (before.len() + made.len()) as int;
        assert(all == (before + made).push(last));
        assert(all.subrange(at - made.len(), at) =~= made);
        at
    }
}

proof fn merged_hashes_are_known(
    commits: Seq<git::CommitView>,
    stashes: Seq<git::CommitView>,
    hash: Seq<char>,
)
    requires
        forall|j: int| 0 <= j < stashes.len() ==> (#[trigger] stashes[j]).hash != hash,
    ensures
        latest(merged(commits, stashes), hash) == latest(commits, hash),
        parents_of(merged(commits, stashes), hash) == parents_of(commits, hash),
    decreases commits.len(),
{
    if commits.len() > 0 {
        let front = commits.drop_last();
        let last = commits.last();
        merged_hashes_are_known(front, stashes, hash);
        let made = if hashes_of(front).contains(last.hash) {
            Seq::empty()
        } else {
            stashes_on(stashes, last.hash)
        };
        stashes_on_are_stashes(stashes, last.hash);
        assert forall|j: int| 0 <= j < made.len() implies (#[trigger] made[j]).hash != hash by {
            let k = choose|k: int| 0 <= k < stashes.len() && stashes[k] == made[j];
            assert(stashes[k].hash != hash);
        }
        others_are_passed_over(merged(front, stashes), made, hash);
        let all = merged(commits, stashes);
        assert(all.drop_last() =~= merged(front, stashes) + made);
        assert(all.last() == last);
    }
}

proof fn others_are_passed_over(
    a: Seq<git::CommitView>,
    b: Seq<git::CommitView>,
    hash: Seq<char>,
)
    requires
        forall|j: int| 0 <= j < b.len() ==> (#[trigger] b[j]).hash != hash,
    ensures
        latest(a + b, hash) == latest(a, hash),
        parents_of(a + b, hash) == parents_of(a, hash),
    decreases b.len(),
{
    if b.len() == 0 {
        assert(a + b =~= a);
    } else {
        assert((a + b).drop_last() =~= a + b.drop_last());
        assert((a + b).last() == b[b.len() - 1]);
        others_are_passed_over(a, b.drop_last(), hash);
        assert(parents_of(a + b, hash) =~= parents_of(a, hash));
    }
}

/// A commit that was read is found under its hash, with the parents that it names, among commits and
/// stashes.
pub proof fn read_commits_are_found(
    commits: Seq<git::CommitView>,
    stashes: Seq<git::CommitView>,
    i: int,
)
    requires
        0 <= i < commits.len(),
        forall|j: int| 0 <= j < commits.len() && j != i ==> (#[trigger] commits[j]).hash != commits[i].hash,
        forall|j: int| 0 <= j < stashes.len() ==> (#[trigger] stashes[j]).hash != commits[i].hash,
    ensures
        latest(merged(commits, stashes), commits[i].hash) == Some(commits[i]),
        parents_of(merged(commits, stashes), commits[i].hash) == commits[i].parents,
{
    parents_are_the_named_ones(commits, i);
    merged_hashes_are_known(commits, stashes, commits[i].hash);
}

} // verus!
