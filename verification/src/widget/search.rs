//! Finding commits by a query.

use fuzzy_matcher::skim::SkimMatcherV2;
use fuzzy_matcher::FuzzyMatcher;
use vstd::prelude::*;
use vstd::string::*;
use crate::git;
use crate::git::{Commit, Ref};
use crate::names::NameMap;
use crate::text;

verus! {

/// A text in lower case, as the standard library maps it.
pub uninterp spec fn lowercase(s: Seq<char>) -> Seq<char>;

/// `str::to_lowercase`, which the text alone determines.
#[verifier::external_body]
fn to_lowercase(s: &str) -> (r: String)
    ensures
        r@ == lowercase(s@),
{
    s.to_lowercase()
}

/// The positions at which the fuzzy matcher finds the characters of a query in a text, if it finds
/// them.
pub uninterp spec fn fuzzy_positions(s: Seq<char>, query: Seq<char>) -> Option<Seq<usize>>;

/// `SkimMatcherV2::fuzzy_indices`, of a matcher that respects the case. The positions are a
/// function of the text and the query.
#[verifier::external_body]
fn fuzzy_indices(s: &str, query: &str) -> (r: Option<Vec<usize>>)
    ensures
        opt_positions(r) == fuzzy_positions(s@, query@),
{
    let matcher = SkimMatcherV2::default().respect_case();
    match matcher.fuzzy_indices(s, query) {
        Some((_, indices)) => Some(indices),
        None => None,
    }
}

/// What an optional list of positions says.
pub open spec fn opt_positions(r: Option<Vec<usize>>) -> Option<Seq<usize>> {
    match r {
        Some(v) => Some(v@),
        None => None,
    }
}

/// The positions of a text that match a query.
#[derive(Debug)]
pub struct SearchMatchPosition {
    pub matched_indices: Vec<usize>,
}

impl Clone for SearchMatchPosition {
    fn clone(&self) -> (r: SearchMatchPosition)
        ensures
            r.matched_indices@ == self.matched_indices@,
    {
        let mut v: Vec<usize> = Vec::new();
        let mut i: usize = 0;
        while i < self.matched_indices.len()
            invariant
                i <= self.matched_indices@.len(),
                v@ == self.matched_indices@.take(i as int),
            decreases self.matched_indices@.len() - i,
        {
            v.push(self.matched_indices[i]);
            assert(self.matched_indices@.take(i + 1) =~= self.matched_indices@.take(i as int).push(
                self.matched_indices@[i as int],
            ));
            i = i + 1;
        }
        assert(self.matched_indices@.take(i as int) =~= self.matched_indices@);
        SearchMatchPosition { matched_indices: v }
    }
}

impl SearchMatchPosition {
    pub fn new(matched_indices: Vec<usize>) -> (r: SearchMatchPosition)
        ensures
            r.matched_indices == matched_indices,
    {
        SearchMatchPosition { matched_indices }
    }
}

/// What an optional position says.
pub open spec fn opt_position(r: Option<SearchMatchPosition>) -> Option<Seq<usize>> {
    match r {
        Some(p) => Some(p.matched_indices@),
        None => None,
    }
}

/// The bytes of the first place where the query stands in the text.
pub open spec fn substring_positions(s: Seq<char>, query: Seq<char>) -> Option<Seq<usize>> {
    match text::first_at(s, query) {
        Some(i) => Some(
            Seq::new(
                text::byte_count(query),
                |j: int| (text::byte_count(s.take(i)) + j) as usize,
            ),
        ),
        None => None,
    }
}

/// Finds the first place where the query stands in the text.
pub fn find_substring(s: &str, query: &str) -> (r: Option<Vec<usize>>)
    ensures
        opt_positions(r) == substring_positions(s@, query@),
{
    match text::find(s, query) {
        None => None,
        Some(i) => {
            proof {
                text::first_from_is_first(s@, query@, 0);
                let mid = s@.take(i as int);
                text::byte_count_add(mid, query@);
                text::byte_count_add(mid + query@, s@.skip(i + query@.len()));
                assert(s@ =~= mid + query@ + s@.skip(i + query@.len()));
            }
            let chars = text::chars_of(s);
            let before = text::text_of(chars.as_slice(), 0, i);
            assert(before@ =~= s@.take(i as int));
            let whole = text::byte_len(s);
            let p = text::byte_len(before.as_str());
            let n = text::byte_len(query);
            let mut v: Vec<usize> = Vec::new();
            let mut j: usize = 0;
            while j < n
                invariant
                    j <= n,
                    p + n <= whole,
                    v@.len() == j,
                    forall|k: int| 0 <= k < j ==> #[trigger] v@[k] == p + k,
                decreases n - j,
            {
                v.push(p + j);
                j = j + 1;
            }
            assert(v@ =~= substring_positions(s@, query@)->0);
            Some(v)
        },
    }
}

/// How texts are searched.
#[derive(Debug)]
pub struct SearchMatcher {
    query: String,
    ignore_case: bool,
    fuzzy: bool,
}

pub ghost struct MatcherView {
    pub query: Seq<char>,
    pub ignore_case: bool,
    pub fuzzy: bool,
}

impl View for SearchMatcher {
    type V = MatcherView;

    closed spec fn view(&self) -> MatcherView {
        MatcherView { query: self.query@, ignore_case: self.ignore_case, fuzzy: self.fuzzy }
    }
}

/// The matcher for a query.
pub open spec fn matcher_for(query: Seq<char>, ignore_case: bool, fuzzy: bool) -> MatcherView {
    MatcherView {
        query: if ignore_case {
            lowercase(query)
        } else {
            query
        },
        ignore_case,
        fuzzy,
    }
}

/// The positions of a text that a matcher finds: of its lower case, where the case is ignored.
pub open spec fn positions_in(m: MatcherView, s: Seq<char>) -> Option<Seq<usize>> {
    let t = if m.ignore_case {
        lowercase(s)
    } else {
        s
    };
    if m.fuzzy {
        fuzzy_positions(t, m.query)
    } else {
        substring_positions(t, m.query)
    }
}

impl SearchMatcher {
    pub fn new(query: &str, ignore_case: bool, fuzzy: bool) -> (r: SearchMatcher)
        ensures
            r@ == matcher_for(query@, ignore_case, fuzzy),
    {
        let query = if ignore_case {
            to_lowercase(query)
        } else {
            query.to_string()
        };
        SearchMatcher { query, ignore_case, fuzzy }
    }

    pub fn matched_position(&self, s: &str) -> (r: Option<SearchMatchPosition>)
        ensures
            opt_position(r) == positions_in(self@, s@),
    {
        let s = if self.ignore_case {
            to_lowercase(s)
        } else {
            s.to_string()
        };
        let found = if self.fuzzy {
            fuzzy_indices(s.as_str(), self.query.as_str())
        } else {
            find_substring(s.as_str(), self.query.as_str())
        };
        match found {
            Some(v) => Some(SearchMatchPosition::new(v)),
            None => None,
        }
    }
}

/// What of a commit matches a query, and which of the matching commits it is, counted from one.
#[derive(Debug)]
pub struct SearchMatch {
    pub refs: NameMap<SearchMatchPosition>,
    pub subject: Option<SearchMatchPosition>,
    pub author_name: Option<SearchMatchPosition>,
    pub commit_hash: Option<SearchMatchPosition>,
    pub match_index: usize,
}

/// What a map of positions says.
pub open spec fn index_map(m: Map<Seq<char>, SearchMatchPosition>) -> Map<Seq<char>, Seq<usize>> {
    m.map_values(|p: SearchMatchPosition| p.matched_indices@)
}

pub ghost struct SearchMatchView {
    pub refs: Map<Seq<char>, Seq<usize>>,
    pub subject: Option<Seq<usize>>,
    pub author_name: Option<Seq<usize>>,
    pub commit_hash: Option<Seq<usize>>,
    pub match_index: int,
}

impl View for SearchMatch {
    type V = SearchMatchView;

    open spec fn view(&self) -> SearchMatchView {
        SearchMatchView {
            refs: index_map(self.refs@),
            subject: opt_position(self.subject),
            author_name: opt_position(self.author_name),
            commit_hash: opt_position(self.commit_hash),
            match_index: self.match_index as int,
        }
    }
}

impl SearchMatchView {
    /// Whether anything of the commit matches.
    pub open spec fn matched(self) -> bool {
        ||| self.refs.dom() != Set::<Seq<char>>::empty()
        ||| self.subject is Some
        ||| self.author_name is Some
        ||| self.commit_hash is Some
    }

    pub open spec fn numbered(self, match_index: int) -> SearchMatchView {
        SearchMatchView { match_index, ..self }
    }

    pub open spec fn cleared(self) -> SearchMatchView {
        SearchMatchView {
            refs: Map::empty(),
            subject: None,
            author_name: None,
            commit_hash: None,
            match_index: self.match_index,
        }
    }
}

/// Nothing that matches.
pub open spec fn no_match() -> SearchMatchView {
    SearchMatchView {
        refs: Map::empty(),
        subject: None,
        author_name: None,
        commit_hash: None,
        match_index: 0,
    }
}

/// Whether one of the references, stashes aside, has this name.
pub open spec fn has_name(refs: Seq<git::RefView>, name: Seq<char>) -> bool {
    exists|i: int| 0 <= i < refs.len() && !(refs[i] is Stash) && (#[trigger] refs[i]).name() == name
}

/// The names of the references that match, and where.
pub open spec fn matching_names(m: MatcherView, refs: Seq<git::RefView>) -> Map<
    Seq<char>,
    Seq<usize>,
> {
    Map::new(
        |name: Seq<char>| has_name(refs, name) && positions_in(m, name) is Some,
        |name: Seq<char>| positions_in(m, name)->0,
    )
}

/// What of a commit and its references matches.
pub open spec fn match_of(
    m: MatcherView,
    subject: Seq<char>,
    author_name: Seq<char>,
    hash: Seq<char>,
    refs: Seq<git::RefView>,
) -> SearchMatchView {
    SearchMatchView {
        refs: matching_names(m, refs),
        subject: positions_in(m, subject),
        author_name: positions_in(m, author_name),
        commit_hash: positions_in(m, git::short_hash(hash)),
        match_index: 0,
    }
}

/// What a list of borrowed references says.
pub open spec fn ref_list(refs: Seq<&Ref>) -> Seq<git::RefView> {
    Seq::new(refs.len(), |i: int| refs[i]@)
}

impl Default for SearchMatch {
    fn default() -> (r: SearchMatch)
        ensures
            r.refs.wf(),
            r@ == no_match(),
    {
        let r = SearchMatch {
            refs: NameMap::new(),
            subject: None,
            author_name: None,
            commit_hash: None,
            match_index: 0,
        };
        assert(r@.refs =~= Map::<Seq<char>, Seq<usize>>::empty());
        r
    }
}

impl SearchMatch {
    /// Finds what of a commit and its references matches.
    pub fn set(&mut self, c: &Commit, refs: &Vec<&Ref>, matcher: &SearchMatcher)
        requires
            text::splits_at(c.commit_hash@, git::SHORT_HASH_BYTES as nat),
        ensures
            final(self).refs.wf(),
            final(self)@ == match_of(
                matcher@,
                c.subject@,
                c.author_name@,
                c.commit_hash@,
                ref_list(refs@),
            ),
    {
        let ghost all = ref_list(refs@);
        let mut found: NameMap<SearchMatchPosition> = NameMap::new();
        let mut i: usize = 0;
        while i < refs.len()
            invariant
                i <= refs@.len(),
                all == ref_list(refs@),
                found.wf(),
                forall|name: Seq<char>| #[trigger]
                    found@.contains_key(name) <==> has_name(all.take(i as int), name)
                        && positions_in(matcher@, name) is Some,
                forall|name: Seq<char>| #[trigger]
                    found@.contains_key(name) ==> found@[name].matched_indices@ == positions_in(
                        matcher@,
                        name,
                    )->0,
            decreases refs@.len() - i,
        {
            let r = refs[i];
            let ghost before = found@;
            let ghost now = all.take(i as int);
            let ghost next = all.take(i + 1);
            proof {
                assert(next =~= now.push(r@));
                assert forall|name: Seq<char>| #[trigger] has_name(next, name) <==> has_name(
                    now,
                    name,
                ) || (!(r@ is Stash) && r@.name() == name) by {
                    if has_name(now, name) {
                        let j = choose|j: int|
                            0 <= j < now.len() && !(now[j] is Stash) && (#[trigger] now[j]).name()
                                == name;
                        assert(next[j].name() == name);
                    }
                    if !(r@ is Stash) && r@.name() == name {
                        assert(next[i as int].name() == name);
                    }
                    if has_name(next, name) {
                        let j = choose|j: int|
                            0 <= j < next.len() && !(next[j] is Stash)
                                && (#[trigger] next[j]).name() == name;
                        if j < i {
                            assert(now[j].name() == name);
                        }
                    }
                }
            }
            let listed = match r {
                Ref::Stash { .. } => false,
                _ => true,
            };
            if listed {
                match matcher.matched_position(r.name()) {
                    Some(pos) => {
                        found.insert(r.name(), pos);
                    },
                    None => {},
                }
            }
            proof {
                assert forall|name: Seq<char>| #[trigger] found@.contains_key(name) <==> has_name(
                    next,
                    name,
                ) && positions_in(matcher@, name) is Some by {
                    assert(before.contains_key(name) <==> has_name(now, name) && positions_in(
                        matcher@,
                        name,
                    ) is Some);
                }
                assert forall|name: Seq<char>| #[trigger]
                    found@.contains_key(name) implies found@[name].matched_indices@ == positions_in(
                    matcher@,
                    name,
                )->0 by {
                    if name != r@.name() {
                        assert(before.contains_key(name));
                    }
                }
            }
            i = i + 1;
        }
        proof {
            assert(all.take(i as int) =~= all);
        }
        self.refs = found;
        self.subject = matcher.matched_position(c.subject.as_str());
        self.author_name = matcher.matched_position(c.author_name.as_str());
        self.commit_hash = matcher.matched_position(c.commit_hash.as_short_hash());
        self.match_index = 0;
        assert(self@.refs =~= matching_names(matcher@, all));
    }

    pub fn matched(&self) -> (r: bool)
        requires
            self.refs.wf(),
        ensures
            r == self@.matched(),
    {
        proof {
            self.refs.order_covers();
            if self.refs.order().len() > 0 {
                assert(self@.refs.dom().contains(self.refs.order()[0]));
            } else {
                assert(self@.refs.dom() =~= Set::<Seq<char>>::empty()) by {
                    assert(self.refs.order().to_set() =~= Set::<Seq<char>>::empty());
                    assert(self@.refs.dom() =~= self.refs@.dom());
                }
            }
        }
        self.refs.len() > 0 || self.subject.is_some() || self.author_name.is_some()
            || self.commit_hash.is_some()
    }

    pub fn clear(&mut self)
        ensures
            final(self).refs.wf(),
            final(self)@ == old(self)@.cleared(),
    {
        self.refs = NameMap::new();
        self.subject = None;
        self.author_name = None;
        self.commit_hash = None;
        assert(self@.refs =~= Map::<Seq<char>, Seq<usize>>::empty());
    }
}

/// A short word on what a toggle did.
#[derive(Debug, Clone, Copy, PartialEq, Eq, Structural)]
pub enum TransientMessage {
    Nothing,
    IgnoreCaseOff,
    IgnoreCaseOn,
    FuzzyOff,
    FuzzyOn,
}

/// How far a search has come.
#[derive(Debug, Clone, Copy, PartialEq, Eq, Structural)]
pub enum SearchState {
    Inactive,
    Searching {
        start_index: usize,
        match_index: usize,
        ignore_case: bool,
        fuzzy: bool,
        transient_message: TransientMessage,
    },
    Applied { match_index: usize, total_match: usize },
}

impl SearchState {
    /// The state in which the match with this number is the current one.
    pub open spec fn at_match(self, index: usize) -> SearchState {
        match self {
            SearchState::Searching {
                start_index,
                ignore_case,
                fuzzy,
                transient_message,
                ..
            } => SearchState::Searching {
                start_index,
                match_index: index,
                ignore_case,
                fuzzy,
                transient_message,
            },
            SearchState::Applied { total_match, .. } => SearchState::Applied {
                match_index: index,
                total_match,
            },
            SearchState::Inactive => SearchState::Inactive,
        }
    }

    pub fn update_match_index(&mut self, index: usize)
        ensures
            *final(self) == old(self).at_match(index),
    {
        *self = match *self {
            SearchState::Searching {
                start_index,
                match_index: _,
                ignore_case,
                fuzzy,
                transient_message,
            } => SearchState::Searching {
                start_index,
                match_index: index,
                ignore_case,
                fuzzy,
                transient_message,
            },
            SearchState::Applied { match_index: _, total_match } => SearchState::Applied {
                match_index: index,
                total_match,
            },
            SearchState::Inactive => SearchState::Inactive,
        };
    }
}

// ---------------------------------------------------------------------------------------------
// Laws

/// A text as it is compared: in lower case, where the case is ignored.
pub open spec fn compared(s: Seq<char>, ignore_case: bool) -> Seq<char> {
    if ignore_case {
        lowercase(s)
    } else {
        s
    }
}

/// Whether a query is found in a text: where it stands, or, for a fuzzy search, where the fuzzy matcher
/// finds its characters.
pub open spec fn is_found(query: Seq<char>, ignore_case: bool, fuzzy: bool, s: Seq<char>) -> bool {
    if fuzzy {
        fuzzy_positions(compared(s, ignore_case), compared(query, ignore_case)) is Some
    } else {
        exists|i: int|
            0 <= i && i + compared(query, ignore_case).len() <= compared(s, ignore_case).len()
                && #[trigger] compared(s, ignore_case).subrange(
                i,
                i + compared(query, ignore_case).len(),
            ) == compared(query, ignore_case)
    }
}

proof fn found_texts_have_positions(
    query: Seq<char>,
    ignore_case: bool,
    fuzzy: bool,
    s: Seq<char>,
)
    ensures
        positions_in(matcher_for(query, ignore_case, fuzzy), s) is Some <==> is_found(
            query,
            ignore_case,
            fuzzy,
            s,
        ),
{
    let t = compared(s, ignore_case);
    let q = compared(query, ignore_case);
    if !fuzzy {
        text::first_from_is_first(t, q, 0);
        if is_found(query, ignore_case, fuzzy, s) {
            let i = choose|i: int|
                0 <= i && i + q.len() <= t.len() && #[trigger] t.subrange(i, i + q.len()) == q;
            assert(text::holds_at(t, q, i));
        }
        if text::first_at(t, q) is Some {
            let i = text::first_at(t, q)->0;
            assert(t.subrange(i, i + q.len()) == q);
        }
    }
}

/// A commit is found by a query exactly where the query is found in its subject, in its author's name,
/// in the first seven bytes of its hash or in the name of one of its branches and tags. Each of these
/// is marked exactly where the query is found in it.
pub proof fn commits_are_found(
    query: Seq<char>,
    ignore_case: bool,
    fuzzy: bool,
    subject: Seq<char>,
    author_name: Seq<char>,
    hash: Seq<char>,
    short: int,
    refs: Seq<git::RefView>,
)
    requires
        0 <= short <= hash.len(),
        text::byte_count(hash.take(short)) == 7,
    ensures
        ({
            let m = match_of(
                matcher_for(query, ignore_case, fuzzy),
                subject,
                author_name,
                hash,
                refs,
            );
            &&& m.subject is Some <==> is_found(query, ignore_case, fuzzy, subject)
            &&& m.author_name is Some <==> is_found(query, ignore_case, fuzzy, author_name)
            &&& m.commit_hash is Some <==> is_found(query, ignore_case, fuzzy, hash.take(short))
            &&& forall|name: Seq<char>| #[trigger]
                m.refs.contains_key(name) <==> is_found(query, ignore_case, fuzzy, name)
                    && exists|i: int|
                    0 <= i < refs.len() && !(refs[i] is Stash) && (#[trigger] refs[i]).name()
                        == name
            &&& m.matched() <==> {
                ||| is_found(query, ignore_case, fuzzy, subject)
                ||| is_found(query, ignore_case, fuzzy, author_name)
                ||| is_found(query, ignore_case, fuzzy, hash.take(short))
                ||| exists|i: int|
                    0 <= i < refs.len() && !(refs[i] is Stash) && is_found(
                        query,
                        ignore_case,
                        fuzzy,
                        (#[trigger] refs[i]).name(),
                    )
            }
        }),
{
    let matcher = matcher_for(query, ignore_case, fuzzy);
    let m = match_of(matcher, subject, author_name, hash, refs);
    text::chars_for_is(hash, 7, short);
    found_texts_have_positions(query, ignore_case, fuzzy, subject);
    found_texts_have_positions(query, ignore_case, fuzzy, author_name);
    found_texts_have_positions(query, ignore_case, fuzzy, hash.take(short));
    assert forall|name: Seq<char>| #[trigger]
        m.refs.contains_key(name) <==> is_found(query, ignore_case, fuzzy, name) && exists|i: int|
            0 <= i < refs.len() && !(refs[i] is Stash) && (#[trigger] refs[i]).name() == name by {
        found_texts_have_positions(query, ignore_case, fuzzy, name);
    }
    if exists|i: int|
        0 <= i < refs.len() && !(refs[i] is Stash) && is_found(
            query,
            ignore_case,
            fuzzy,
            (#[trigger] refs[i]).name(),
        ) {
        let i = choose|i: int|
            0 <= i < refs.len() && !(refs[i] is Stash) && is_found(
                query,
                ignore_case,
                fuzzy,
                (#[trigger] refs[i]).name(),
            );
        assert(m.refs.contains_key(refs[i].name()));
        assert(m.refs.dom().contains(refs[i].name()));
    }
    if m.refs.dom() != Set::<Seq<char>>::empty() {
        if forall|name: Seq<char>| !m.refs.dom().contains(name) {
            assert(m.refs.dom() =~= Set::<Seq<char>>::empty());
        }
        let name = choose|name: Seq<char>| m.refs.dom().contains(name);
        assert(m.refs.contains_key(name));
        let i = choose|i: int|
            0 <= i < refs.len() && !(refs[i] is Stash) && (#[trigger] refs[i]).name() == name;
        assert(is_found(query, ignore_case, fuzzy, refs[i].name()));
    }
}

/// What is marked of a text are the bytes of the first place where the query stands.
pub proof fn first_places_are_marked(query: Seq<char>, front: Seq<char>, rest: Seq<char>)
    requires
        forall|i: int|
            0 <= i < front.len() ==> #[trigger] (front + query + rest).subrange(i, i + query.len())
                != query,
        text::byte_count(front + query) <= usize::MAX,
    ensures
        positions_in(matcher_for(query, false, false), front + query + rest) matches Some(p) && {
            &&& p.len() == text::byte_count(query)
            &&& forall|j: int|
                0 <= j < p.len() ==> #[trigger] p[j] == text::byte_count(front) + j
        },
{
    let s = front + query + rest;
    let n = front.len() as int;
    text::first_from_is_first(s, query, 0);
    assert(s.subrange(n, n + query.len()) =~= query);
    assert(text::holds_at(s, query, n));
    let i = text::first_at(s, query)->0;
    assert(i == n);
    assert(s.take(n) =~= front);
    text::byte_count_add(front, query);
}

} // verus!
