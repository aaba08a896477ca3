//! References as `git show-ref` and `git stash list` write them.

use vstd::prelude::*;
use vstd::string::*;
use crate::decode;
use crate::git;
use crate::git::{CommitHash, Head, Ref};
use crate::names;
use crate::names::NameMap;
use crate::order;
use crate::text;

verus! {

/// The references by the hashes of the commits that they stand for.
pub type RefMap = NameMap<Vec<Ref>>;

/// What a map lists under a hash.
pub open spec fn listed_refs(m: Map<Seq<char>, Vec<Ref>>, hash: Seq<char>) -> Seq<git::RefView> {
    git::ref_views(names::listed(m, hash))
}

/// The branch that a full reference name stands for.
pub open spec fn branch_ref(hash: Seq<char>, refs: Seq<char>) -> Option<git::RefView> {
    if text::begins(refs, "refs/heads/"@) {
        Some(
            git::RefView::Branch {
                name: text::without_prefixes(refs, "refs/heads/"@),
                target: hash,
            },
        )
    } else if text::begins(refs, "refs/remotes/"@) {
        Some(
            git::RefView::RemoteBranch {
                name: text::without_prefixes(refs, "refs/remotes/"@),
                target: hash,
            },
        )
    } else {
        None
    }
}

/// The tag that a full reference name stands for. A name that ends in `^{}` gives the commit that
/// an annotated tag points to.
pub open spec fn tag_ref(hash: Seq<char>, refs: Seq<char>) -> Option<git::RefView> {
    if text::begins(refs, "refs/tags/"@) {
        Some(
            git::RefView::Tag {
                name: text::without_suffixes(
                    text::without_prefixes(refs, "refs/tags/"@),
                    "^{}"@,
                ),
                target: hash,
            },
        )
    } else {
        None
    }
}

/// What an optional reference says.
pub open spec fn opt_ref(r: Option<Ref>) -> Option<git::RefView> {
    match r {
        Some(r) => Some(r@),
        None => None,
    }
}

pub fn parse_branch_refs(hash: &str, refs: &str) -> (r: Option<Ref>)
    ensures
        opt_ref(r) == branch_ref(hash@, refs@),
{
    proof {
        reveal_strlit("refs/heads/");
        reveal_strlit("refs/remotes/");
    }
    if text::starts_with(refs, "refs/heads/") {
        Some(
            Ref::Branch {
                name: text::strip_prefixes(refs, "refs/heads/"),
                target: CommitHash::from_text(hash),
            },
        )
    } else if text::starts_with(refs, "refs/remotes/") {
        Some(
            Ref::RemoteBranch {
                name: text::strip_prefixes(refs, "refs/remotes/"),
                target: CommitHash::from_text(hash),
            },
        )
    } else {
        None
    }
}

pub fn parse_tag_refs(hash: &str, refs: &str) -> (r: Option<Ref>)
    ensures
        opt_ref(r) == tag_ref(hash@, refs@),
{
    proof {
        reveal_strlit("refs/tags/");
        reveal_strlit("^{}");
    }
    if text::starts_with(refs, "refs/tags/") {
        let name = text::strip_prefixes(refs, "refs/tags/");
        let name = text::strip_suffixes(name.as_str(), "^{}");
        Some(Ref::Tag { name, target: CommitHash::from_text(hash) })
    } else {
        None
    }
}

/// The hash that a line of `git show-ref` gives.
pub open spec fn line_hash(line: Seq<char>) -> Seq<char> {
    text::pieces(line, ' ')[0]
}

/// The full reference name that a line of `git show-ref` gives.
pub open spec fn line_name(line: Seq<char>) -> Seq<char> {
    text::pieces(line, ' ')[1]
}

/// The branch on a line, if there is one.
pub open spec fn line_branch(line: Seq<char>) -> Option<git::RefView> {
    if line_name(line) == "HEAD"@ {
        None
    } else {
        branch_ref(line_hash(line), line_name(line))
    }
}

/// The tag on a line, if there is one.
pub open spec fn line_tag(line: Seq<char>) -> Option<git::RefView> {
    if line_name(line) == "HEAD"@ || branch_ref(line_hash(line), line_name(line)) is Some {
        None
    } else {
        tag_ref(line_hash(line), line_name(line))
    }
}

/// The branches that the lines put at a hash.
pub open spec fn branches_at(lines: Seq<Seq<char>>, hash: Seq<char>) -> Seq<git::RefView>
    decreases lines.len(),
{
    if lines.len() == 0 {
        Seq::empty()
    } else {
        let rest = branches_at(lines.drop_last(), hash);
        match line_branch(lines.last()) {
            Some(r) => if r.target() == hash {
                rest.push(r)
            } else {
                rest
            },
            None => rest,
        }
    }
}

/// The place of the tag with this name, or the end.
pub open spec fn tag_place(tags: Seq<git::RefView>, name: Seq<char>) -> int
    decreases tags.len(),
{
    if tags.len() == 0 || tags[0].name() == name {
        0
    } else {
        1 + tag_place(tags.skip(1), name)
    }
}

/// The tags with the one added. It takes the place of an earlier one with its name.
pub open spec fn with_tag(tags: Seq<git::RefView>, tag: git::RefView) -> Seq<git::RefView> {
    let i = tag_place(tags, tag.name());
    if i < tags.len() {
        tags.update(i, tag)
    } else {
        tags.push(tag)
    }
}

/// The tags on the lines. An annotated tag has two lines, of which the second says where it
/// points.
pub open spec fn tags_on(lines: Seq<Seq<char>>) -> Seq<git::RefView>
    decreases lines.len(),
{
    if lines.len() == 0 {
        Seq::empty()
    } else {
        let rest = tags_on(lines.drop_last());
        match line_tag(lines.last()) {
            Some(r) => with_tag(rest, r),
            None => rest,
        }
    }
}

/// The references with this target.
pub open spec fn with_target(refs: Seq<git::RefView>, hash: Seq<char>) -> Seq<git::RefView>
    decreases refs.len(),
{
    if refs.len() == 0 {
        Seq::empty()
    } else {
        let rest = with_target(refs.drop_last(), hash);
        if refs.last().target() == hash {
            rest.push(refs.last())
        } else {
            rest
        }
    }
}

/// The references that the lines put at a hash, in the order in which they are listed.
pub open spec fn refs_at(lines: Seq<Seq<char>>, hash: Seq<char>) -> Seq<git::RefView> {
    order::arranged(branches_at(lines, hash) + with_target(tags_on(lines), hash), git::ref_order())
}

/// What is checked out, by the lines and by the name of the current branch.
pub open spec fn head_on(lines: Seq<Seq<char>>, branch: Option<Seq<char>>) -> git::HeadView
    decreases lines.len(),
{
    if lines.len() == 0 {
        git::HeadView::Unborn
    } else if line_name(lines.last()) == "HEAD"@ {
        match branch {
            Some(name) => git::HeadView::Branch { name },
            None => git::HeadView::Detached { target: line_hash(lines.last()) },
        }
    } else {
        head_on(lines.drop_last(), branch)
    }
}

proof fn tag_place_is_place(tags: Seq<git::RefView>, name: Seq<char>)
    ensures
        0 <= tag_place(tags, name) <= tags.len(),
        tag_place(tags, name) < tags.len() ==> tags[tag_place(tags, name)].name() == name,
        forall|i: int| 0 <= i < tag_place(tags, name) ==> (#[trigger] tags[i]).name() != name,
    decreases tags.len(),
{
    if tags.len() > 0 && tags[0].name() != name {
        tag_place_is_place(tags.skip(1), name);
        let p = tag_place(tags.skip(1), name);
        assert forall|i: int| 0 <= i < tag_place(tags, name) implies (#[trigger] tags[i]).name()
            != name by {
            if i > 0 {
                assert(tags[i] == tags.skip(1)[i - 1]);
            }
        }
        if p < tags.skip(1).len() {
            assert(tags[p + 1] == tags.skip(1)[p]);
        }
    }
}

/// Whether the map holds the tags, in their order.
spec fn holds_tags(m: NameMap<Ref>, tags: Seq<git::RefView>) -> bool {
    &&& m.wf()
    &&& m.order().len() == tags.len()
    &&& forall|i: int|
        0 <= i < tags.len() ==> m.order()[i] == (#[trigger] tags[i]).name() && m@[m.order()[i]]@
            == tags[i]
}

fn add_tag(m: &mut NameMap<Ref>, tag: Ref, Ghost(tags): Ghost<Seq<git::RefView>>)
    requires
        holds_tags(*old(m), tags),
    ensures
        holds_tags(*final(m), with_tag(tags, tag@)),
{
    let ghost before = *m;
    let ghost view = tag@;
    let name = tag.name().to_string();
    m.insert(name.as_str(), tag);
    proof {
        tag_place_is_place(tags, view.name());
        before.order_covers();
        m.order_covers();
        let p = tag_place(tags, view.name());
        if before@.contains_key(view.name()) {
            assert(before.order().to_set().contains(view.name()));
            let i = choose|i: int| 0 <= i < before.order().len() && before.order()[i] == view.name();
            assert(tags[i].name() == view.name());
            assert(p == i) by {
                assert(before.order()[p] == tags[p].name());
            }
        } else {
            if p < tags.len() {
                assert(before@.contains_key(before.order()[p]));
            }
        }
        let next = with_tag(tags, view);
        assert forall|i: int| 0 <= i < next.len() implies m.order()[i] == (
        #[trigger] next[i]).name() && m@[m.order()[i]]@ == next[i] by {
            if i < tags.len() {
                assert(before.order()[i] == tags[i].name());
                if i != p {
                    assert(before.order()[i] != view.name()) by {
                        if p < tags.len() {
                            assert(before.order()[p] == tags[p].name());
                        }
                    }
                }
            }
        }
    }
}

/// Whether the map lists these references under each hash, and has no empty lists.
pub open spec fn lists_refs(
    m: Map<Seq<char>, Vec<Ref>>,
    what: spec_fn(Seq<char>) -> Seq<git::RefView>,
) -> bool {
    forall|hash: Seq<char>| #[trigger]
        listed_refs(m, hash) == what(hash) && (m.contains_key(hash) <==> what(hash).len() > 0)
}

fn add_ref(m: &mut RefMap, hash: &str, r: Ref, Ghost(what): Ghost<spec_fn(Seq<char>) -> Seq<git::RefView>>)
    requires
        old(m).wf(),
        lists_refs(old(m)@, what),
    ensures
        final(m).wf(),
        lists_refs(
            final(m)@,
            |k: Seq<char>|
                if k == hash@ {
                    what(k).push(r@)
                } else {
                    what(k)
                },
        ),
{
    let ghost before = m@;
    let ghost next = |k: Seq<char>|
        if k == hash@ {
            what(k).push(r@)
        } else {
            what(k)
        };
    let ghost value = r;
    names::push_to(m, hash, r);
    proof {
        assert forall|k: Seq<char>| #[trigger] listed_refs(m@, k) == next(k) && (m@.contains_key(k)
            <==> next(k).len() > 0) by {
            assert(listed_refs(before, k) == what(k));
            assert(before.contains_key(k) <==> what(k).len() > 0);
            if k == hash@ {
                assert(git::ref_views(names::listed(before, k).push(value)) =~= git::ref_views(
                    names::listed(before, k),
                ).push(value@));
            }
        }
    }
}

proof fn same_lists(
    m: Map<Seq<char>, Vec<Ref>>,
    a: spec_fn(Seq<char>) -> Seq<git::RefView>,
    b: spec_fn(Seq<char>) -> Seq<git::RefView>,
)
    requires
        lists_refs(m, a),
        forall|k: Seq<char>| #[trigger] a(k) == b(k),
    ensures
        lists_refs(m, b),
{
    assert forall|k: Seq<char>| #[trigger] listed_refs(m, k) == b(k) && (m.contains_key(k)
        <==> b(k).len() > 0) by {
        assert(a(k) == b(k));
        assert(listed_refs(m, k) == a(k));
        assert(m.contains_key(k) <==> a(k).len() > 0);
    }
}

fn sort_refs(v: &mut Vec<Ref>)
    ensures
        git::ref_views(final(v)@) == order::arranged(git::ref_views(old(v)@), git::ref_order()),
        final(v)@.len() == old(v)@.len(),
{
    let ghost before = v@;
    let ghost view = |r: Ref| r@;
    let comes_first = |a: &Ref, b: &Ref| -> (r: bool)
        ensures
            r == a@.goes_before(b@),
        { a.goes_before(b) };
    order::sort_by::<Ref, git::RefView, _>(v, comes_first, Ghost(view), Ghost(git::ref_order()));
    proof {
        assert(git::ref_views(v@) =~= v@.map_values(view));
        assert(git::ref_views(before) =~= before.map_values(view));
        before.to_multiset_ensures();
        v@.to_multiset_ensures();
    }
}

/// Puts each list of the map in order.
fn sort_all(m: &mut RefMap)
    requires
        old(m).wf(),
    ensures
        final(m).wf(),
        final(m)@.dom() == old(m)@.dom(),
        forall|k: Seq<char>| #[trigger]
            listed_refs(final(m)@, k) == order::arranged(
                listed_refs(old(m)@, k),
                git::ref_order(),
            ),
{
    let ghost before = m@;
    let ghost walk = m.order();
    proof {
        m.order_covers();
    }
    let n = m.len();
    let mut i: usize = 0;
    while i < n
        invariant
            i <= n,
            m.wf(),
            n == walk.len(),
            m.order() == walk,
            walk.no_duplicates(),
            m@.dom() == before.dom(),
            forall|j: int| 0 <= j < walk.len() ==> m@.contains_key(#[trigger] walk[j]),
            forall|j: int|
                0 <= j < i ==> listed_refs(m@, #[trigger] walk[j]) == order::arranged(
                    listed_refs(before, walk[j]),
                    git::ref_order(),
                ),
            forall|j: int| i <= j < n ==> m@[#[trigger] walk[j]] == before[walk[j]],
        decreases n - i,
    {
        let name = m.name_at(i).to_string();
        let ghost now = m@;
        assert(walk[i as int] == name@);
        let mut list: Vec<Ref> = match m.insert(name.as_str(), Vec::new()) {
            Some(v) => v,
            None => Vec::new(),
        };
        assert(list@ == names::listed(before, name@));
        sort_refs(&mut list);
        let ghost sorted = list;
        m.insert(name.as_str(), list);
        assert(m@ =~= now.insert(name@, sorted));
        assert(m@.dom() =~= before.dom());
        i = i + 1;
    }
    proof {
        assert forall|k: Seq<char>| #[trigger] listed_refs(m@, k) == order::arranged(
            listed_refs(before, k),
            git::ref_order(),
        ) by {
            if before.contains_key(k) {
                assert(walk.to_set().contains(k));
                let j = choose|j: int| 0 <= j < walk.len() && walk[j] == k;
                assert(listed_refs(m@, walk[j]) == order::arranged(
                    listed_refs(before, walk[j]),
                    git::ref_order(),
                ));
            } else {
                assert(!m@.contains_key(k)) by {
                    assert(!m@.dom().contains(k));
                }
                assert(listed_refs(before, k) =~= Seq::<git::RefView>::empty());
            }
        }
    }
}

/// Reads what `git show-ref --head --dereference` prints, of which each line holds a hash and a
/// name. `branch` is the current branch, where one is checked out.
pub fn load_refs(output: &str, branch: &Option<String>) -> (r: (RefMap, Head))
    requires
        forall|i: int|
            0 <= i < decode::line_list(output@).len() ==> text::pieces(
                #[trigger] decode::line_list(output@)[i],
                ' ',
            ).len() == 2,
    ensures
        r.0.wf(),
        lists_refs(r.0@, |hash: Seq<char>| refs_at(decode::line_list(output@), hash)),
        r.1@ == head_on(decode::line_list(output@), text::opt_text(*branch)),
{
    let lines = decode::lines(output);
    let ghost all = decode::line_list(output@);
    let mut ref_map: RefMap = NameMap::new();
    let mut tag_map: NameMap<Ref> = NameMap::new();
    let mut head = Head::Unborn;
    let mut i: usize = 0;
    let ghost on_branches = |n: int| |hash: Seq<char>| branches_at(all.take(n), hash);
    proof {
        assert(all.take(0) =~= Seq::<Seq<char>>::empty());
        let b = on_branches(0);
        assert forall|k: Seq<char>| #[trigger] listed_refs(ref_map@, k) == b(k) && (
        ref_map@.contains_key(k) <==> b(k).len() > 0) by {
            assert(b(k) == branches_at(all.take(0), k));
            assert(listed_refs(ref_map@, k) =~= b(k));
        }
    }
    while i < lines.len()
        invariant
            i <= lines@.len(),
            text::texts(lines@) == all,
            all == decode::line_list(output@),
            forall|i: int| 0 <= i < all.len() ==> text::pieces(#[trigger] all[i], ' ').len() == 2,
            ref_map.wf(),
            on_branches == (|n: int| |hash: Seq<char>| branches_at(all.take(n), hash)),
            lists_refs(ref_map@, on_branches(i as int)),
            holds_tags(tag_map, tags_on(all.take(i as int))),
            head@ == head_on(all.take(i as int), text::opt_text(*branch)),
        decreases lines@.len() - i,
    {
        let ghost line = all[i as int];
        assert(lines@[i as int]@ == line);
        let parts = text::split(lines[i].as_str(), ' ');
        let hash = parts[0].as_str();
        let refs = parts[1].as_str();
        proof {
            assert(text::texts(parts@)[0] == hash@);
            assert(text::texts(parts@)[1] == refs@);
            assert(all.take(i + 1).drop_last() =~= all.take(i as int));
            assert(all.take(i + 1).last() == line);
        }
        let ghost now = on_branches(i as int);
        let ghost next = on_branches(i + 1);
        if text::same(refs, "HEAD") {
            head = match branch {
                Some(name) => Head::Branch { name: name.clone() },
                None => Head::Detached { target: CommitHash::from_text(hash) },
            };
            proof {
                same_lists(ref_map@, now, next);
            }
        } else {
            match parse_branch_refs(hash, refs) {
                Some(r) => {
                    let ghost view = r@;
                    add_ref(&mut ref_map, hash, r, Ghost(now));
                    proof {
                        let grown = |k: Seq<char>|
                            if k == hash@ {
                                now(k).push(view)
                            } else {
                                now(k)
                            };
                        assert forall|k: Seq<char>| #[trigger] grown(k) == next(k) by {
                            assert(next(k) == branches_at(all.take(i + 1), k));
                        }
                        same_lists(ref_map@, grown, next);
                    }
                },
                None => {
                    match parse_tag_refs(hash, refs) {
                        Some(r) => {
                            add_tag(&mut tag_map, r, Ghost(tags_on(all.take(i as int))));
                        },
                        None => {},
                    }
                    proof {
                        same_lists(ref_map@, now, next);
                    }
                },
            }
        }
        i = i + 1;
    }
    assert(all.take(i as int) =~= all);
    let ghost tags = tags_on(all);
    let ghost with_tags = |n: int|
        |hash: Seq<char>| branches_at(all, hash) + with_target(tags.take(n), hash);
    let count = tag_map.len();
    let mut j: usize = 0;
    proof {
        assert(tags.take(0) =~= Seq::<git::RefView>::empty());
        let a = on_branches(i as int);
        let b = with_tags(0);
        assert forall|k: Seq<char>| #[trigger] a(k) == b(k) by {
            assert(b(k) =~= branches_at(all, k));
        }
        same_lists(ref_map@, a, b);
    }
    while j < count
        invariant
            j <= count,
            count == tags.len(),
            holds_tags(tag_map, tags),
            ref_map.wf(),
            with_tags == (|n: int|
                |hash: Seq<char>| branches_at(all, hash) + with_target(tags.take(n), hash)),
            lists_refs(ref_map@, with_tags(j as int)),
        decreases count - j,
    {
        let tag = tag_map.value_at(j).clone();
        let target = tag.target().clone();
        let ghost view = tag@;
        let ghost now = with_tags(j as int);
        assert(view == tags[j as int]);
        add_ref(&mut ref_map, target.as_str(), tag, Ghost(now));
        proof {
            let next = with_tags(j + 1);
            let grown = |k: Seq<char>|
                if k == target@ {
                    now(k).push(view)
                } else {
                    now(k)
                };
            assert(tags.take(j + 1).drop_last() =~= tags.take(j as int));
            assert(tags.take(j + 1).last() == view);
            assert forall|k: Seq<char>| #[trigger] grown(k) == next(k) by {
                assert(next(k) == branches_at(all, k) + with_target(tags.take(j + 1), k));
                assert(grown(k) =~= next(k));
            }
            same_lists(ref_map@, grown, next);
        }
        j = j + 1;
    }
    assert(tags.take(j as int) =~= tags);
    let ghost unsorted = ref_map@;
    sort_all(&mut ref_map);
    proof {
        let a = with_tags(j as int);
        let b = |hash: Seq<char>| refs_at(all, hash);
        git::ref_order_is_total();
        assert forall|k: Seq<char>| #[trigger] listed_refs(ref_map@, k) == b(k) && (
        ref_map@.contains_key(k) <==> b(k).len() > 0) by {
            assert(listed_refs(unsorted, k) == a(k));
            assert(b(k) == refs_at(all, k));
            order::arranged_is_sorted_permutation(a(k), git::ref_order());
            a(k).to_multiset_ensures();
            b(k).to_multiset_ensures();
            assert(ref_map@.dom().contains(k) <==> unsorted.dom().contains(k));
        }
        assert(lists_refs(ref_map@, b));
    }
    (ref_map, head)
}

/// The reference for a stash, by a line of `git stash list`.
pub open spec fn stash_ref(line: Seq<char>) -> git::RefView {
    let p = text::pieces(line, '\x1f');
    git::RefView::Stash { name: p[0], message: p[2], target: p[1] }
}

/// The stashes that the lines put at a hash.
pub open spec fn stash_refs_at(lines: Seq<Seq<char>>, hash: Seq<char>) -> Seq<git::RefView>
    decreases lines.len(),
{
    if lines.len() == 0 {
        Seq::empty()
    } else {
        let rest = stash_refs_at(lines.drop_last(), hash);
        let r = stash_ref(lines.last());
        if r.target() == hash {
            rest.push(r)
        } else {
            rest
        }
    }
}

/// Reads what `git stash list` prints when it is asked for names, hashes and subjects.
pub fn load_stashes_as_refs(output: &str) -> (r: RefMap)
    requires
        forall|i: int|
            0 <= i < decode::line_list(output@).len() ==> text::pieces(
                #[trigger] decode::line_list(output@)[i],
                '\x1f',
            ).len() == 3,
    ensures
        r.wf(),
        lists_refs(r@, |hash: Seq<char>| stash_refs_at(decode::line_list(output@), hash)),
{
    let lines = decode::lines(output);
    let ghost all = decode::line_list(output@);
    let mut ref_map: RefMap = NameMap::new();
    let mut i: usize = 0;
    let ghost so_far = |n: int| |hash: Seq<char>| stash_refs_at(all.take(n), hash);
    proof {
        assert(all.take(0) =~= Seq::<Seq<char>>::empty());
        let b = so_far(0);
        assert forall|k: Seq<char>| #[trigger] listed_refs(ref_map@, k) == b(k) && (
        ref_map@.contains_key(k) <==> b(k).len() > 0) by {
            assert(b(k) == stash_refs_at(all.take(0), k));
            assert(listed_refs(ref_map@, k) =~= b(k));
        }
    }
    while i < lines.len()
        invariant
            i <= lines@.len(),
            text::texts(lines@) == all,
            forall|i: int|
                0 <= i < all.len() ==> text::pieces(#[trigger] all[i], '\x1f').len() == 3,
            ref_map.wf(),
            so_far == (|n: int| |hash: Seq<char>| stash_refs_at(all.take(n), hash)),
            lists_refs(ref_map@, so_far(i as int)),
        decreases lines@.len() - i,
    {
        let ghost line = all[i as int];
        assert(lines@[i as int]@ == line);
        let parts = text::split(lines[i].as_str(), '\x1f');
        assert(text::texts(parts@)[0] == parts@[0]@);
        assert(text::texts(parts@)[1] == parts@[1]@);
        assert(text::texts(parts@)[2] == parts@[2]@);
        let r = Ref::Stash {
            name: parts[0].clone(),
            message: parts[2].clone(),
            target: CommitHash::from_text(parts[1].as_str()),
        };
        let ghost view = r@;
        let ghost now = so_far(i as int);
        add_ref(&mut ref_map, parts[1].as_str(), r, Ghost(now));
        proof {
            let next = so_far(i + 1);
            let grown = |k: Seq<char>|
                if k == parts@[1]@ {
                    now(k).push(view)
                } else {
                    now(k)
                };
            assert(all.take(i + 1).drop_last() =~= all.take(i as int));
            assert(all.take(i + 1).last() == line);
            assert forall|k: Seq<char>| #[trigger] grown(k) == next(k) by {
                assert(next(k) == stash_refs_at(all.take(i + 1), k));
            }
            same_lists(ref_map@, grown, next);
        }
        i = i + 1;
    }
    assert(all.take(i as int) =~= all);
    ref_map
}

/// Adds the references of the second map after those of the first.
pub fn merge_ref_maps(m1: &mut RefMap, m2: &RefMap)
    requires
        old(m1).wf(),
        m2.wf(),
    ensures
        final(m1).wf(),
        forall|hash: Seq<char>| #[trigger]
            listed_refs(final(m1)@, hash) == listed_refs(old(m1)@, hash) + listed_refs(m2@, hash),
        forall|hash: Seq<char>| #[trigger]
            final(m1)@.contains_key(hash) <==> old(m1)@.contains_key(hash) || m2@.contains_key(
                hash,
            ),
{
    let ghost before = m1@;
    let ghost walk = m2.order();
    proof {
        m2.order_covers();
    }
    let n = m2.len();
    let mut i: usize = 0;
    while i < n
        invariant
            i <= n,
            n == walk.len(),
            m2.wf(),
            m2.order() == walk,
            walk.no_duplicates(),
            forall|j: int| 0 <= j < walk.len() ==> m2@.contains_key(#[trigger] walk[j]),
            m1.wf(),
            forall|j: int|
                0 <= j < i ==> listed_refs(m1@, #[trigger] walk[j]) == listed_refs(before, walk[j])
                    + listed_refs(m2@, walk[j]) && m1@.contains_key(walk[j]),
            forall|k: Seq<char>|
                !walk.take(i as int).contains(k) ==> #[trigger] listed_refs(m1@, k) == listed_refs(
                    before,
                    k,
                ),
            forall|k: Seq<char>|
                !walk.take(i as int).contains(k) ==> (#[trigger] m1@.contains_key(k)
                    <==> before.contains_key(k)),
        decreases n - i,
    {
        let name = m2.name_at(i).to_string();
        let list = m2.value_at(i);
        let ghost now = m1@;
        assert(walk[i as int] == name@);
        assert(!walk.take(i as int).contains(name@));
        let mut mine: Vec<Ref> = match m1.insert(name.as_str(), Vec::new()) {
            Some(v) => v,
            None => Vec::new(),
        };
        let ghost held = mine@;
        assert(listed_refs(now, name@) == listed_refs(before, name@));
        assert(git::ref_views(held) =~= listed_refs(before, name@));
        let mut j: usize = 0;
        assert(held + list@.take(0) =~= held);
        while j < list.len()
            invariant
                j <= list@.len(),
                mine@ == held + list@.take(j as int),
            decreases list@.len() - j,
        {
            mine.push(list[j].clone());
            assert(held + list@.take(j + 1) =~= (held + list@.take(j as int)).push(list@[j as int]));
            j = j + 1;
        }
        assert(list@.take(j as int) =~= list@);
        let ghost filled = mine;
        m1.insert(name.as_str(), mine);
        proof {
            assert(m1@ =~= now.insert(name@, filled));
            assert(git::ref_views(held + list@) =~= git::ref_views(held) + git::ref_views(list@));
            assert forall|k: Seq<char>| !walk.take(i + 1).contains(k) implies !walk.take(
                i as int,
            ).contains(k) && k != name@ by {
                if walk.take(i as int).contains(k) {
                    let q = choose|q: int| 0 <= q < i && walk.take(i as int)[q] == k;
                    assert(walk.take(i + 1)[q] == k);
                }
                assert(walk.take(i + 1)[i as int] == name@);
            }
            assert forall|k: Seq<char>| !walk.take(i + 1).contains(k) implies #[trigger] listed_refs(
                m1@,
                k,
            ) == listed_refs(before, k) by {
                assert(listed_refs(now, k) == listed_refs(before, k));
            }
        }
        i = i + 1;
    }
    proof {
        assert(walk.take(i as int) =~= walk);
        assert forall|k: Seq<char>| #[trigger] listed_refs(m1@, k) == listed_refs(before, k)
            + listed_refs(m2@, k) by {
            if walk.contains(k) {
                let j = choose|j: int| 0 <= j < walk.len() && walk[j] == k;
                assert(listed_refs(m1@, walk[j]) == listed_refs(before, walk[j]) + listed_refs(
                    m2@,
                    walk[j],
                ));
            } else {
                assert(!m2@.contains_key(k)) by {
                    if m2@.contains_key(k) {
                        assert(walk.to_set().contains(k));
                    }
                }
                assert(listed_refs(m2@, k) =~= Seq::<git::RefView>::empty());
                assert(listed_refs(before, k) + listed_refs(m2@, k) =~= listed_refs(before, k));
            }
        }
        assert forall|k: Seq<char>| #[trigger] m1@.contains_key(k) <==> before.contains_key(k)
            || m2@.contains_key(k) by {
            if walk.contains(k) {
                let j = choose|j: int| 0 <= j < walk.len() && walk[j] == k;
                assert(m1@.contains_key(walk[j]));
            } else if m2@.contains_key(k) {
                assert(walk.to_set().contains(k));
            }
        }
    }
}

/// How `git show-ref` is asked for the references and what is checked out.
pub open spec fn show_ref_command() -> Seq<Seq<char>> {
    seq!["show-ref"@, "--head"@, "--dereference"@]
}

pub fn show_ref_arguments() -> (r: Vec<String>)
    ensures
        text::texts(r@) == show_ref_command(),
{
    let r = text::words(&["show-ref", "--head", "--dereference"]);
    assert(text::texts(r@) =~= show_ref_command());
    r
}

/// How `git stash list` is asked for the stashes' names, hashes and subjects.
pub open spec fn stash_refs_command() -> Seq<Seq<char>> {
    seq!["stash"@, "list"@, "--format=%gd%x1f%H%x1f%s"@]
}

pub fn stash_refs_arguments() -> (r: Vec<String>)
    ensures
        text::texts(r@) == stash_refs_command(),
{
    let r = text::words(&["stash", "list", "--format=%gd%x1f%H%x1f%s"]);
    assert(text::texts(r@) =~= stash_refs_command());
    r
}

// ---------------------------------------------------------------------------------------------
// Laws

/// The line that git writes for a reference.
pub open spec fn ref_line(hash: Seq<char>, full_name: Seq<char>) -> Seq<char> {
    hash + seq![' '] + full_name
}

proof fn lines_come_apart(hash: Seq<char>, full_name: Seq<char>)
    requires
        !hash.contains(' '),
        !full_name.contains(' '),
    ensures
        text::pieces(ref_line(hash, full_name), ' ') == seq![hash, full_name],
{
    text::plain_texts_are_one_piece(hash, ' ');
    text::plain_texts_are_one_piece(full_name, ' ');
    text::pieces_add_up(hash, full_name, ' ');
    assert(seq![hash] + seq![full_name] =~= seq![hash, full_name]);
}

proof fn added_holds_no_space(a: Seq<char>, b: Seq<char>)
    requires
        !a.contains(' '),
        !b.contains(' '),
    ensures
        !(a + b).contains(' '),
{
    if (a + b).contains(' ') {
        let i = choose|i: int| 0 <= i < (a + b).len() && (a + b)[i] == ' ';
        if i < a.len() {
            assert(a[i] == ' ');
        } else {
            assert(b[i - a.len()] == ' ');
        }
    }
}

/// A local branch is read with the whole of its name, slashes included, and with its commit.
pub proof fn branches_are_read(hash: Seq<char>, name: Seq<char>)
    requires
        !hash.contains(' '),
        !name.contains(' '),
        !text::begins(name, "refs/heads/"@),
    ensures
        branch_ref(hash, "refs/heads/"@ + name) == Some(
            git::RefView::Branch { name, target: hash },
        ),
        line_branch(ref_line(hash, "refs/heads/"@ + name)) == Some(
            git::RefView::Branch { name, target: hash },
        ),
        line_tag(ref_line(hash, "refs/heads/"@ + name)) is None,
{
    reveal_strlit("refs/heads/");
    reveal_strlit("HEAD");
    let full = "refs/heads/"@ + name;
    text::prefixes_are_taken_off("refs/heads/"@, name);
    added_holds_no_space("refs/heads/"@, name);
    lines_come_apart(hash, full);
    assert(full[0] == 'r' && "HEAD"@[0] == 'H');
}

/// A remote branch is read with the whole of its name, that of the remote included, and with its
/// commit.
pub proof fn remote_branches_are_read(hash: Seq<char>, name: Seq<char>)
    requires
        !hash.contains(' '),
        !name.contains(' '),
        !text::begins(name, "refs/remotes/"@),
    ensures
        branch_ref(hash, "refs/remotes/"@ + name) == Some(
            git::RefView::RemoteBranch { name, target: hash },
        ),
        line_branch(ref_line(hash, "refs/remotes/"@ + name)) == Some(
            git::RefView::RemoteBranch { name, target: hash },
        ),
        line_tag(ref_line(hash, "refs/remotes/"@ + name)) is None,
{
    reveal_strlit("refs/heads/");
    reveal_strlit("refs/remotes/");
    reveal_strlit("HEAD");
    let full = "refs/remotes/"@ + name;
    text::prefixes_are_taken_off("refs/remotes/"@, name);
    added_holds_no_space("refs/remotes/"@, name);
    lines_come_apart(hash, full);
    assert(full[0] == 'r' && "HEAD"@[0] == 'H');
    assert(full[5] == 'r');
    if text::begins(full, "refs/heads/"@) {
        assert(full.subrange(0, 11)[5] == "refs/heads/"@[5]);
    }
}

/// A tag is read with the whole of its name, and with its commit; the line that says where an
/// annotated tag points gives the same tag.
pub proof fn tags_are_read(hash: Seq<char>, name: Seq<char>)
    requires
        !hash.contains(' '),
        !name.contains(' '),
        !text::begins(name, "refs/tags/"@),
        !text::begins(name + "^{}"@, "refs/tags/"@),
        !text::ends(name, "^{}"@),
    ensures
        line_tag(ref_line(hash, "refs/tags/"@ + name)) == Some(
            git::RefView::Tag { name, target: hash },
        ),
        line_tag(ref_line(hash, "refs/tags/"@ + name + "^{}"@)) == Some(
            git::RefView::Tag { name, target: hash },
        ),
        line_branch(ref_line(hash, "refs/tags/"@ + name)) is None,
        line_branch(ref_line(hash, "refs/tags/"@ + name + "^{}"@)) is None,
{
    reveal_strlit("refs/heads/");
    reveal_strlit("refs/remotes/");
    reveal_strlit("refs/tags/");
    reveal_strlit("^{}");
    reveal_strlit("HEAD");
    let prefix = "refs/tags/"@;
    let full = prefix + name;
    let peeled = prefix + (name + "^{}"@);
    assert(prefix + name + "^{}"@ =~= peeled);
    text::prefixes_are_taken_off(prefix, name);
    text::prefixes_are_taken_off(prefix, name + "^{}"@);
    text::suffixes_are_taken_off(name, "^{}"@);
    added_holds_no_space(prefix, name);
    added_holds_no_space(name, "^{}"@);
    added_holds_no_space(prefix, name + "^{}"@);
    lines_come_apart(hash, full);
    lines_come_apart(hash, peeled);
    assert("HEAD"@[0] == 'H');
    assert(full[0] == 'r' && full[5] == 't' && peeled[0] == 'r' && peeled[5] == 't');
    assert forall|s: Seq<char>| s.len() > 5 && s[5] == 't' implies !text::begins(s, "refs/heads/"@)
        && !text::begins(s, "refs/remotes/"@) by {
        if text::begins(s, "refs/heads/"@) {
            assert(s.subrange(0, 11)[5] == "refs/heads/"@[5]);
        }
        if text::begins(s, "refs/remotes/"@) {
            assert(s.subrange(0, 13)[5] == "refs/remotes/"@[5]);
        }
    }
}

/// What is checked out is the current branch, where there is one, else the commit that the line for
/// `HEAD` gives; without such a line nothing is.
pub proof fn head_is_read(lines: Seq<Seq<char>>, i: int, hash: Seq<char>, branch: Option<Seq<char>>)
    requires
        0 <= i < lines.len(),
        !hash.contains(' '),
        lines[i] == ref_line(hash, "HEAD"@),
        forall|j: int| i < j < lines.len() ==> line_name(#[trigger] lines[j]) != "HEAD"@,
    ensures
        branch matches Some(name) ==> head_on(lines, branch) == (git::HeadView::Branch { name }),
        branch is None ==> head_on(lines, branch) == (git::HeadView::Detached { target: hash }),
        line_branch(lines[i]) is None,
        line_tag(lines[i]) is None,
    decreases lines.len(),
{
    reveal_strlit("HEAD");
    lines_come_apart(hash, "HEAD"@);
    if i < lines.len() - 1 {
        let front = lines.drop_last();
        assert(line_name(lines[lines.len() - 1]) != "HEAD"@);
        assert forall|j: int| i < j < front.len() implies line_name(#[trigger] front[j]) != "HEAD"@ by {
            assert(line_name(lines[j]) != "HEAD"@);
        }
        head_is_read(front, i, hash, branch);
    }
}

/// Where no line is for `HEAD`, nothing is checked out.
pub proof fn no_head_is_read(lines: Seq<Seq<char>>, branch: Option<Seq<char>>)
    requires
        forall|j: int| 0 <= j < lines.len() ==> line_name(#[trigger] lines[j]) != "HEAD"@,
    ensures
        head_on(lines, branch) is Unborn,
    decreases lines.len(),
{
    if lines.len() > 0 {
        let front = lines.drop_last();
        assert(line_name(lines[lines.len() - 1]) != "HEAD"@);
        assert forall|j: int| 0 <= j < front.len() implies line_name(#[trigger] front[j]) != "HEAD"@ by {
            assert(line_name(lines[j]) != "HEAD"@);
        }
        no_head_is_read(front, branch);
    }
}

proof fn branches_at_are_those_on_lines(lines: Seq<Seq<char>>, hash: Seq<char>, r: git::RefView)
    ensures
        branches_at(lines, hash).contains(r) <==> r.target() == hash && exists|i: int|
            0 <= i < lines.len() && line_branch(#[trigger] lines[i]) == Some(r),
    decreases lines.len(),
{
    if lines.len() > 0 {
        let front = lines.drop_last();
        branches_at_are_those_on_lines(front, hash, r);
        let all = branches_at(lines, hash);
        let rest = branches_at(front, hash);
        if all.contains(r) {
            let k = choose|k: int| 0 <= k < all.len() && all[k] == r;
            if k < rest.len() {
                assert(rest[k] == r);
                let i = choose|i: int|
                    0 <= i < front.len() && line_branch(#[trigger] front[i]) == Some(r);
                assert(line_branch(lines[i]) == Some(r));
            } else {
                assert(line_branch(lines[lines.len() - 1]) == Some(r));
            }
        }
        if r.target() == hash && exists|i: int|
            0 <= i < lines.len() && line_branch(#[trigger] lines[i]) == Some(r) {
            let i = choose|i: int|
                0 <= i < lines.len() && line_branch(#[trigger] lines[i]) == Some(r);
            if i < front.len() {
                assert(line_branch(front[i]) == Some(r));
                let k = choose|k: int| 0 <= k < rest.len() && rest[k] == r;
                assert(all[k] == r);
            } else {
                assert(all[all.len() - 1] == r);
            }
        }
    }
}

proof fn tags_on_are_the_last(lines: Seq<Seq<char>>, t: git::RefView)
    ensures
        tags_on(lines).contains(t) <==> exists|i: int|
            0 <= i < lines.len() && line_tag(#[trigger] lines[i]) == Some(t) && forall|j: int|
                i < j < lines.len() ==> (line_tag(#[trigger] lines[j]) matches Some(u) ==> u.name()
                    != t.name()),
        forall|a: int, b: int|
            0 <= a < b < tags_on(lines).len() ==> (#[trigger] tags_on(lines)[a]).name() != (
            #[trigger] tags_on(lines)[b]).name(),
    decreases lines.len(),
{
    if lines.len() > 0 {
        let front = lines.drop_last();
        let n = front.len() as int;
        tags_on_are_the_last(front, t);
        let rest = tags_on(front);
        let all = tags_on(lines);
        let last = line_tag(lines.last());
        assert(lines[n] == lines.last());
        match last {
            Some(u) => {
                tag_place_is_place(rest, u.name());
                let p = tag_place(rest, u.name());
                if p < rest.len() {
                    assert(all == rest.update(p, u));
                } else {
                    assert(all == rest.push(u));
                }
                assert(all[p] == u);
                assert forall|a: int, b: int| 0 <= a < b < all.len() implies (
                #[trigger] all[a]).name() != (#[trigger] all[b]).name() by {
                    if a < rest.len() && b < rest.len() {
                        assert(rest[a].name() != rest[b].name());
                    } else {
                        assert(rest[a].name() != u.name());
                    }
                }
                if all.contains(t) {
                    let k = choose|k: int| 0 <= k < all.len() && all[k] == t;
                    if k == p {
                        assert(line_tag(lines[n]) == Some(t));
                    } else {
                        assert(rest[k] == t);
                        assert(t.name() != u.name()) by {
                            if p < rest.len() {
                                if k < p {
                                    assert(rest[k].name() != rest[p].name());
                                } else {
                                    assert(rest[p].name() != rest[k].name());
                                }
                            }
                        }
                        assert(rest.contains(t));
                        let i = choose|i: int|
                            0 <= i < front.len() && line_tag(#[trigger] front[i]) == Some(t)
                                && forall|j: int|
                                i < j < front.len() ==> (line_tag(#[trigger] front[j]) matches Some(
                                    w,
                                ) ==> w.name() != t.name());
                        assert(line_tag(lines[i]) == Some(t));
                        assert forall|j: int| i < j < lines.len() implies (line_tag(
                            #[trigger] lines[j],
                        ) matches Some(w) ==> w.name() != t.name()) by {
                            if j < n {
                                assert(front[j] == lines[j]);
                            }
                        }
                    }
                }
                if exists|i: int|
                    0 <= i < lines.len() && line_tag(#[trigger] lines[i]) == Some(t) && forall|j: int|
                        i < j < lines.len() ==> (line_tag(#[trigger] lines[j]) matches Some(w)
                            ==> w.name() != t.name()) {
                    let i = choose|i: int|
                        0 <= i < lines.len() && line_tag(#[trigger] lines[i]) == Some(t)
                            && forall|j: int|
                            i < j < lines.len() ==> (line_tag(#[trigger] lines[j]) matches Some(w)
                                ==> w.name() != t.name());
                    if i < n {
                        assert(line_tag(lines[n]) matches Some(w) ==> w.name() != t.name());
                        assert(line_tag(front[i]) == Some(t));
                        assert forall|j: int| i < j < front.len() implies (line_tag(
                            #[trigger] front[j],
                        ) matches Some(w) ==> w.name() != t.name()) by {
                            assert(front[j] == lines[j]);
                        }
                        assert(rest.contains(t));
                        let k = choose|k: int| 0 <= k < rest.len() && rest[k] == t;
                        assert(all[k] == t);
                    }
                }
            },
            None => {
                assert(all == rest);
                if all.contains(t) {
                    let i = choose|i: int|
                        0 <= i < front.len() && line_tag(#[trigger] front[i]) == Some(t)
                            && forall|j: int|
                            i < j < front.len() ==> (line_tag(#[trigger] front[j]) matches Some(w)
                                ==> w.name() != t.name());
                    assert(line_tag(lines[i]) == Some(t));
                    assert forall|j: int| i < j < lines.len() implies (line_tag(
                        #[trigger] lines[j],
                    ) matches Some(w) ==> w.name() != t.name()) by {
                        if j < n {
                            assert(front[j] == lines[j]);
                        }
                    }
                }
                if exists|i: int|
                    0 <= i < lines.len() && line_tag(#[trigger] lines[i]) == Some(t) && forall|j: int|
                        i < j < lines.len() ==> (line_tag(#[trigger] lines[j]) matches Some(w)
                            ==> w.name() != t.name()) {
                    let i = choose|i: int|
                        0 <= i < lines.len() && line_tag(#[trigger] lines[i]) == Some(t)
                            && forall|j: int|
                            i < j < lines.len() ==> (line_tag(#[trigger] lines[j]) matches Some(w)
                                ==> w.name() != t.name());
                    assert(line_tag(front[i]) == Some(t));
                    assert forall|j: int| i < j < front.len() implies (line_tag(
                        #[trigger] front[j],
                    ) matches Some(w) ==> w.name() != t.name()) by {
                        assert(front[j] == lines[j]);
                    }
                }
            },
        }
    }
}

proof fn targets_are_kept(refs: Seq<git::RefView>, hash: Seq<char>, r: git::RefView)
    ensures
        with_target(refs, hash).contains(r) <==> refs.contains(r) && r.target() == hash,
    decreases refs.len(),
{
    if refs.len() > 0 {
        let front = refs.drop_last();
        targets_are_kept(front, hash, r);
        let all = with_target(refs, hash);
        let rest = with_target(front, hash);
        if all.contains(r) {
            let k = choose|k: int| 0 <= k < all.len() && all[k] == r;
            if k < rest.len() {
                assert(rest[k] == r);
                let i = choose|i: int| 0 <= i < front.len() && front[i] == r;
                assert(refs[i] == r);
            } else {
                assert(refs[refs.len() - 1] == r);
            }
        }
        if refs.contains(r) && r.target() == hash {
            let i = choose|i: int| 0 <= i < refs.len() && refs[i] == r;
            if i < front.len() {
                assert(front[i] == r);
                let k = choose|k: int| 0 <= k < rest.len() && rest[k] == r;
                assert(all[k] == r);
            } else {
                assert(all[all.len() - 1] == r);
            }
        }
    }
}

/// A commit has exactly these references: the local and remote branches that a line puts there, and the
/// tags whose last line puts them there. They stand in order, the tags before the local branches and
/// these before the remote ones.
pub proof fn references_stand_at_their_commits(
    lines: Seq<Seq<char>>,
    hash: Seq<char>,
    r: git::RefView,
)
    ensures
        refs_at(lines, hash).contains(r) <==> r.target() == hash && {
            ||| exists|i: int| 0 <= i < lines.len() && line_branch(#[trigger] lines[i]) == Some(r)
            ||| exists|i: int|
                0 <= i < lines.len() && line_tag(#[trigger] lines[i]) == Some(r) && forall|j: int|
                    i < j < lines.len() ==> (line_tag(#[trigger] lines[j]) matches Some(u) ==> u.name()
                        != r.name())
        },
        forall|i: int, j: int|
            0 <= i < j < refs_at(lines, hash).len() ==> {
                let a = #[trigger] refs_at(lines, hash)[i];
                let b = #[trigger] refs_at(lines, hash)[j];
                &&& b is Tag ==> a is Tag
                &&& b is Branch ==> a is Tag || a is Branch
                &&& (a is Tag && b is Tag) || (a is Branch && b is Branch) || (a is RemoteBranch
                    && b is RemoteBranch) ==> !order::precedes(b.name(), a.name())
            },
{
    broadcast use vstd::seq_lib::group_to_multiset_ensures;

    let a = branches_at(lines, hash);
    let b = with_target(tags_on(lines), hash);
    let sorted = refs_at(lines, hash);
    branches_at_are_those_on_lines(lines, hash, r);
    tags_on_are_the_last(lines, r);
    targets_are_kept(tags_on(lines), hash, r);
    git::ref_order_is_total();
    order::arranged_is_sorted_permutation(a + b, git::ref_order());
    assert(sorted.contains(r) <==> sorted.to_multiset().count(r) > 0);
    assert((a + b).contains(r) <==> (a + b).to_multiset().count(r) > 0);
    assert((a + b).contains(r) <==> a.contains(r) || b.contains(r)) by {
        if a.contains(r) {
            let k = choose|k: int| 0 <= k < a.len() && a[k] == r;
            assert((a + b)[k] == r);
        }
        if b.contains(r) {
            let k = choose|k: int| 0 <= k < b.len() && b[k] == r;
            assert((a + b)[a.len() + k] == r);
        }
        if (a + b).contains(r) {
            let k = choose|k: int| 0 <= k < (a + b).len() && (a + b)[k] == r;
            if k < a.len() {
                assert(a[k] == r);
            } else {
                assert(b[k - a.len()] == r);
            }
        }
    }
    assert forall|i: int, j: int| 0 <= i < j < sorted.len() implies {
        let a = #[trigger] sorted[i];
        let b = #[trigger] sorted[j];
        &&& b is Tag ==> a is Tag
        &&& b is Branch ==> a is Tag || a is Branch
        &&& (a is Tag && b is Tag) || (a is Branch && b is Branch) || (a is RemoteBranch
            && b is RemoteBranch) ==> !order::precedes(b.name(), a.name())
    } by {
        assert(!git::ref_order()(sorted[j], sorted[i]));
        assert(!sorted[j].goes_before(sorted[i]));
        order::precedes_irreflexive(sorted[j].name());
        at_hash_no_stash(lines, hash, sorted[i]);
        at_hash_no_stash(lines, hash, sorted[j]);
        assert(sorted.contains(sorted[i]));
        assert(sorted.contains(sorted[j]));
    }
}

proof fn at_hash_no_stash(lines: Seq<Seq<char>>, hash: Seq<char>, r: git::RefView)
    requires
        refs_at(lines, hash).contains(r),
    ensures
        !(r is Stash),
{
    let a = branches_at(lines, hash);
    let b = with_target(tags_on(lines), hash);
    order::arranged_adds_nothing(a + b, git::ref_order(), r);
    let k = choose|k: int| 0 <= k < (a + b).len() && (a + b)[k] == r;
    if k < a.len() {
        assert(a[k] == r);
        branches_at_are_those_on_lines(lines, hash, r);
    } else {
        assert(b[k - a.len()] == r);
        targets_are_kept(tags_on(lines), hash, r);
        tags_on_are_the_last(lines, r);
    }
}

/// A stash is read with its name, its commit and what is said of it, and stands at its commit.
pub proof fn stashes_are_read(name: Seq<char>, hash: Seq<char>, message: Seq<char>)
    requires
        !name.contains('\x1f'),
        !hash.contains('\x1f'),
        !message.contains('\x1f'),
    ensures
        stash_ref(name + seq!['\x1f'] + hash + seq!['\x1f'] + message) == (git::RefView::Stash {
            name,
            message,
            target: hash,
        }),
{
    text::plain_texts_are_one_piece(name, '\x1f');
    text::plain_texts_are_one_piece(hash, '\x1f');
    text::plain_texts_are_one_piece(message, '\x1f');
    text::pieces_add_up(name, hash, '\x1f');
    text::pieces_add_up(name + seq!['\x1f'] + hash, message, '\x1f');
}

/// A commit has exactly the stashes that a line puts there.
pub proof fn stashes_stand_at_their_commits(
    lines: Seq<Seq<char>>,
    hash: Seq<char>,
    r: git::RefView,
)
    ensures
        stash_refs_at(lines, hash).contains(r) <==> r.target() == hash && exists|i: int|
            0 <= i < lines.len() && stash_ref(#[trigger] lines[i]) == r,
    decreases lines.len(),
{
    if lines.len() > 0 {
        let front = lines.drop_last();
        stashes_stand_at_their_commits(front, hash, r);
        let all = stash_refs_at(lines, hash);
        let rest = stash_refs_at(front, hash);
        if all.contains(r) {
            let k = choose|k: int| 0 <= k < all.len() && all[k] == r;
            if k < rest.len() {
                assert(rest[k] == r);
                let i = choose|i: int| 0 <= i < front.len() && stash_ref(#[trigger] front[i]) == r;
                assert(stash_ref(lines[i]) == r);
            } else {
                assert(stash_ref(lines[lines.len() - 1]) == r);
            }
        }
        if r.target() == hash && exists|i: int|
            0 <= i < lines.len() && stash_ref(#[trigger] lines[i]) == r {
            let i = choose|i: int| 0 <= i < lines.len() && stash_ref(#[trigger] lines[i]) == r;
            if i < front.len() {
                assert(stash_ref(front[i]) == r);
                let k = choose|k: int| 0 <= k < rest.len() && rest[k] == r;
                assert(all[k] == r);
            } else {
                assert(all[all.len() - 1] == r);
            }
        }
    }
}

/// All references are asked for, with what annotated tags point to and with what is checked out, and
/// the stashes with the fields in the order in which they are read.
pub proof fn references_are_asked_for()
    ensures
        show_ref_command()[0] == "show-ref"@,
        show_ref_command().contains("--head"@),
        show_ref_command().contains("--dereference"@),
        show_ref_command().len() == 3,
        stash_refs_command().len() == 3,
        stash_refs_command()[0] == "stash"@,
        stash_refs_command()[1] == "list"@,
        stash_refs_command()[2] == "--format="@ + "%gd"@ + "%x1f"@ + "%H"@ + "%x1f"@ + "%s"@,
{
    reveal_strlit("--format=");
    reveal_strlit("%gd");
    reveal_strlit("%x1f");
    reveal_strlit("%H");
    reveal_strlit("%s");
    reveal_strlit("--format=%gd%x1f%H%x1f%s");
    assert(show_ref_command()[1] == "--head"@);
    assert(show_ref_command()[2] == "--dereference"@);
    assert(stash_refs_command()[2] =~= "--format="@ + "%gd"@ + "%x1f"@ + "%H"@ + "%x1f"@ + "%s"@);
}

} // verus!
