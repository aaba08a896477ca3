//! Operations on text, stated over sequences of characters.
//!
//! Every executable function here has a specification function of its own that says what the
//! result is for any input; the other modules state their contracts over those.

use vstd::prelude::*;
use vstd::string::*;
use vstd::utf8::*;

verus! {

broadcast use is_ascii_spec_bytes;

/// `String::push` appends the character to the end of the string.
pub assume_specification[ String::push ](s: &mut String, c: char)
    ensures
        final(s)@ == old(s)@.push(c),
;

/// The views of a sequence of strings.
pub open spec fn texts(v: Seq<String>) -> Seq<Seq<char>> {
    v.map_values(|s: String| s@)
}

/// The views of a sequence of string slices.
pub open spec fn slices(v: Seq<&str>) -> Seq<Seq<char>> {
    v.map_values(|s: &str| s@)
}

/// The view of an optional string.
pub open spec fn opt_text(v: Option<String>) -> Option<Seq<char>> {
    match v {
        Some(s) => Some(s@),
        None => None,
    }
}

/// The view of an optional string slice.
pub open spec fn opt_slice(v: Option<&str>) -> Option<Seq<char>> {
    match v {
        Some(s) => Some(s@),
        None => None,
    }
}

/// The views of a sequence of paths, each a sequence of strings.
pub open spec fn text_lists(v: Seq<Vec<String>>) -> Seq<Seq<Seq<char>>> {
    v.map_values(|p: Vec<String>| texts(p@))
}

pub proof fn texts_push(v: Seq<String>, s: String)
    ensures
        texts(v.push(s)) == texts(v).push(s@),
{
    assert(texts(v.push(s)) =~= texts(v).push(s@));
}

pub proof fn texts_add(a: Seq<String>, b: Seq<String>)
    ensures
        texts(a + b) == texts(a) + texts(b),
{
    assert(texts(a + b) =~= texts(a) + texts(b));
}

/// The characters of `s`.
pub fn chars_of(s: &str) -> (r: Vec<char>)
    ensures
        r@ == s@,
{
    let mut r: Vec<char> = Vec::new();
    for c in it: s.chars()
        invariant
            it.seq() == s@,
            r@ == s@.take(it.index() as int),
    {
        r.push(c);
        assert(s@.take(it.index() + 1) =~= s@.take(it.index() as int).push(c));
    }
    assert(s@.take(s@.len() as int) =~= s@);
    r
}

/// The text made of the characters of `chars` from `from` up to `to`.
pub fn text_of(chars: &[char], from: usize, to: usize) -> (r: String)
    requires
        from <= to <= chars@.len(),
    ensures
        r@ == chars@.subrange(from as int, to as int),
{
    let mut r = String::new();
    let mut i: usize = from;
    while i < to
        invariant
            from <= i <= to <= chars@.len(),
            r@ == chars@.subrange(from as int, i as int),
        decreases to - i,
    {
        r.push(chars[i]);
        assert(chars@.subrange(from as int, i + 1) =~= chars@.subrange(
            from as int,
            i as int,
        ).push(chars@[i as int]));
        i = i + 1;
    }
    r
}

/// Whether two texts are the same.
pub fn same(a: &str, b: &str) -> (r: bool)
    ensures
        r == (a@ == b@),
{
    a.to_owned() == b.to_owned()
}

/// `a` followed by `b`.
pub fn concat(a: &str, b: &str) -> (r: String)
    ensures
        r@ == a@ + b@,
{
    let mut r = a.to_string();
    r.append(b);
    r
}

/// Copies of the strings.
pub fn clone_texts(v: &[String]) -> (r: Vec<String>)
    ensures
        texts(r@) == texts(v@),
{
    let mut r: Vec<String> = Vec::new();
    let mut i: usize = 0;
    while i < v.len()
        invariant
            i <= v@.len(),
            texts(r@) == texts(v@.take(i as int)),
        decreases v@.len() - i,
    {
        r.push(v[i].clone());
        proof {
            texts_push(r@.drop_last(), v@[i as int]);
            texts_push(v@.take(i as int), v@[i as int]);
            assert(r@.drop_last().push(v@[i as int]) =~= r@);
            assert(v@.take(i as int).push(v@[i as int]) =~= v@.take(i + 1));
        }
        i = i + 1;
    }
    assert(v@.take(i as int) =~= v@);
    r
}

/// Texts of their own for a list of slices.
pub fn words(v: &[&str]) -> (r: Vec<String>)
    ensures
        texts(r@) == slices(v@),
{
    let mut r: Vec<String> = Vec::new();
    let mut i: usize = 0;
    assert(texts(r@) =~= slices(v@).take(0));
    while i < v.len()
        invariant
            i <= v@.len(),
            texts(r@) == slices(v@).take(i as int),
        decreases v@.len() - i,
    {
        let w = v[i].to_string();
        proof {
            texts_push(r@, w);
            assert(slices(v@).take(i + 1) =~= slices(v@).take(i as int).push(w@));
        }
        r.push(w);
        i = i + 1;
    }
    assert(slices(v@).take(i as int) =~= slices(v@));
    r
}

/// A copy of an optional string.
pub fn clone_opt(v: &Option<String>) -> (r: Option<String>)
    ensures
        opt_text(r) == opt_text(*v),
{
    match v {
        Some(s) => Some(s.clone()),
        None => None,
    }
}

/// Whether `needle` is one of the strings.
pub fn any_is(v: &[String], needle: &str) -> (r: bool)
    ensures
        r == texts(v@).contains(needle@),
{
    let mut i: usize = 0;
    while i < v.len()
        invariant
            i <= v@.len(),
            forall|j: int| 0 <= j < i ==> #[trigger] texts(v@)[j] != needle@,
        decreases v@.len() - i,
    {
        if same(v[i].as_str(), needle) {
            assert(texts(v@)[i as int] == needle@);
            return true;
        }
        i = i + 1;
    }
    false
}

// ---------------------------------------------------------------------------------------------
// Bytes

/// The number of bytes of the UTF-8 encoding of `s`.
pub open spec fn byte_count(s: Seq<char>) -> nat {
    encode_utf8(s).len()
}

/// The number of bytes of the UTF-8 encoding of a character.
pub open spec fn char_bytes(c: char) -> nat {
    encode_scalar(c as u32).len()
}

pub proof fn byte_count_push(s: Seq<char>, c: char)
    ensures
        byte_count(s.push(c)) == byte_count(s) + char_bytes(c),
    decreases s.len(),
{
    reveal_with_fuel(encode_utf8, 2);
    if s.len() == 0 {
        assert(s.push(c).drop_first() =~= Seq::<char>::empty());
    } else {
        byte_count_push(s.drop_first(), c);
        assert(s.push(c).drop_first() =~= s.drop_first().push(c));
    }
}

pub proof fn byte_count_add(a: Seq<char>, b: Seq<char>)
    ensures
        byte_count(a + b) == byte_count(a) + byte_count(b),
    decreases b.len(),
{
    if b.len() == 0 {
        assert(a + b =~= a);
    } else {
        byte_count_add(a, b.drop_last());
        byte_count_push(a + b.drop_last(), b.last());
        byte_count_push(b.drop_last(), b.last());
        assert((a + b.drop_last()).push(b.last()) =~= a + b);
        assert(b.drop_last().push(b.last()) =~= b);
    }
}

/// The number of bytes of `s`.
pub fn byte_len(s: &str) -> (r: usize)
    ensures
        r == byte_count(s@),
{
    s.as_bytes().len()
}

/// The number of bytes of a character's encoding.
pub fn char_len(c: char) -> (r: usize)
    ensures
        r == char_bytes(c),
        1 <= r <= 4,
{
    let code: u32 = c as u32;
    if code < 0x80 {
        1
    } else if code < 0x800 {
        2
    } else if code < 0x10000 {
        3
    } else {
        4
    }
}

pub proof fn byte_count_grows(s: Seq<char>, i: int, j: int)
    requires
        0 <= i <= j <= s.len(),
    ensures
        byte_count(s.take(i)) + (j - i) <= byte_count(s.take(j)),
    decreases j - i,
{
    if i < j {
        byte_count_grows(s, i, j - 1);
        byte_count_push(s.take(j - 1), s[j - 1]);
        assert(s.take(j - 1).push(s[j - 1]) =~= s.take(j));
    }
}

/// How many characters the first `n` bytes of `s` are, where they are whole characters.
pub open spec fn chars_for(s: Seq<char>, n: nat) -> int {
    choose|k: int| 0 <= k <= s.len() && #[trigger] byte_count(s.take(k)) == n
}

/// Whether the first `n` bytes of `s` are whole characters.
pub open spec fn splits_at(s: Seq<char>, n: nat) -> bool {
    exists|k: int| 0 <= k <= s.len() && #[trigger] byte_count(s.take(k)) == n
}

pub proof fn chars_for_is(s: Seq<char>, n: nat, k: int)
    requires
        0 <= k <= s.len(),
        byte_count(s.take(k)) == n,
    ensures
        splits_at(s, n),
        chars_for(s, n) == k,
{
    let m = chars_for(s, n);
    if m < k {
        byte_count_grows(s, m, k);
    } else {
        byte_count_grows(s, k, m);
    }
}

/// How many characters the first `n` bytes of the text are, where they are whole characters.
pub fn chars_in_bytes(s: &str, n: usize) -> (r: Option<usize>)
    ensures
        match r {
            Some(k) => splits_at(s@, n as nat) && k == chars_for(s@, n as nat) && k <= s@.len()
                && byte_count(s@.take(k as int)) == n,
            None => !splits_at(s@, n as nat),
        },
{
    let c = chars_of(s);
    let mut k: usize = 0;
    let mut bytes: usize = 0;
    assert(s@.take(0) =~= Seq::<char>::empty());
    while k < c.len() && bytes < n
        invariant
            c@ == s@,
            k <= c@.len(),
            bytes == byte_count(s@.take(k as int)),
            bytes <= n || k > 0,
            k > 0 ==> byte_count(s@.take(k - 1)) < n,
            bytes <= n + 3,
        decreases c@.len() - k,
    {
        let w = char_len(c[k]);
        proof {
            byte_count_push(s@.take(k as int), s@[k as int]);
            assert(s@.take(k as int).push(s@[k as int]) =~= s@.take(k + 1));
        }
        if w > usize::MAX - bytes {
            proof {
                assert forall|j: int| 0 <= j <= s@.len() implies #[trigger] byte_count(s@.take(j))
                    != n by {
                    if j <= k {
                        byte_count_grows(s@, j, k as int);
                    } else {
                        byte_count_grows(s@, k + 1, j);
                    }
                }
            }
            return None;
        }
        bytes = bytes + w;
        k = k + 1;
    }
    if bytes == n {
        proof {
            chars_for_is(s@, n as nat, k as int);
        }
        return Some(k);
    }
    proof {
        assert forall|j: int| 0 <= j <= s@.len() implies #[trigger] byte_count(s@.take(j)) != n by {
            if j >= k {
                byte_count_grows(s@, k as int, j);
            } else {
                byte_count_grows(s@, j, k - 1);
            }
            if bytes < n {
                assert(k == c@.len());
                byte_count_grows(s@, j, k as int);
            }
        }
    }
    None
}

// ---------------------------------------------------------------------------------------------
// Searching

/// Whether `needle` stands in `hay` at position `i`.
pub open spec fn holds_at(hay: Seq<char>, needle: Seq<char>, i: int) -> bool {
    0 <= i && i + needle.len() <= hay.len() && hay.subrange(i, i + needle.len()) == needle
}

/// Whether `needle` stands anywhere in `hay`.
pub open spec fn holds(hay: Seq<char>, needle: Seq<char>) -> bool {
    exists|i: int| holds_at(hay, needle, i)
}

/// The first position at or after `from` where `needle` stands in `hay`.
pub open spec fn first_from(hay: Seq<char>, needle: Seq<char>, from: int) -> Option<int>
    decreases hay.len() + 1 - from,
{
    if from + needle.len() > hay.len() {
        None
    } else if holds_at(hay, needle, from) {
        Some(from)
    } else {
        first_from(hay, needle, from + 1)
    }
}

/// The first position where `needle` stands in `hay`.
pub open spec fn first_at(hay: Seq<char>, needle: Seq<char>) -> Option<int> {
    first_from(hay, needle, 0)
}

/// The first position is one where the needle stands, and it stands at none before it; there is
/// none exactly when the needle stands nowhere.
pub proof fn first_from_is_first(hay: Seq<char>, needle: Seq<char>, from: int)
    requires
        0 <= from,
    ensures
        match first_from(hay, needle, from) {
            Some(i) => from <= i && holds_at(hay, needle, i) && forall|j: int|
                from <= j < i ==> !holds_at(hay, needle, j),
            None => forall|j: int| from <= j ==> !holds_at(hay, needle, j),
        },
    decreases hay.len() + 1 - from,
{
    if from + needle.len() <= hay.len() && !holds_at(hay, needle, from) {
        first_from_is_first(hay, needle, from + 1);
    }
}

/// Whether the characters of `needle` stand in `hay` at `at`.
fn stands_at(hay: &Vec<char>, needle: &Vec<char>, at: usize) -> (r: bool)
    requires
        at + needle@.len() <= hay@.len(),
    ensures
        r == holds_at(hay@, needle@, at as int),
{
    let size = hay.len();
    let mut i: usize = 0;
    while i < needle.len()
        invariant
            i <= needle@.len(),
            at + needle@.len() <= hay@.len() == size,
            forall|j: int| 0 <= j < i ==> hay@[at + j] == needle@[j],
        decreases needle@.len() - i,
    {
        if hay[at + i] != needle[i] {
            assert(hay@.subrange(at as int, at + needle@.len())[i as int] != needle@[i as int]);
            return false;
        }
        i = i + 1;
    }
    assert(hay@.subrange(at as int, at + needle@.len()) =~= needle@);
    true
}

/// The first position at which `needle` stands, counted in characters.
pub fn find(hay: &str, needle: &str) -> (r: Option<usize>)
    ensures
        match r {
            Some(i) => first_at(hay@, needle@) == Some(i as int),
            None => first_at(hay@, needle@) is None,
        },
        r matches Some(i) ==> i + needle@.len() <= hay@.len(),
{
    let h = chars_of(hay);
    let n = chars_of(needle);
    let mut i: usize = 0;
    while i <= h.len() && n.len() <= h.len() - i
        invariant
            h@ == hay@,
            n@ == needle@,
            i <= h@.len() + 1,
            first_at(h@, n@) == first_from(h@, n@, i as int),
        decreases h@.len() + 1 - i,
    {
        if stands_at(&h, &n, i) {
            return Some(i);
        }
        if i == h.len() {
            assert(first_from(h@, n@, i + 1) is None);
            return None;
        }
        i = i + 1;
    }
    None
}

/// Whether `needle` stands anywhere in `hay`.
pub fn contains(hay: &str, needle: &str) -> (r: bool)
    ensures
        r == holds(hay@, needle@),
{
    let at = find(hay, needle);
    proof {
        first_from_is_first(hay@, needle@, 0);
    }
    at.is_some()
}

/// Whether `s` begins with `prefix`.
pub open spec fn begins(s: Seq<char>, prefix: Seq<char>) -> bool {
    holds_at(s, prefix, 0)
}

/// Whether `s` ends with `suffix`.
pub open spec fn ends(s: Seq<char>, suffix: Seq<char>) -> bool {
    holds_at(s, suffix, s.len() - suffix.len())
}

pub fn starts_with(s: &str, prefix: &str) -> (r: bool)
    ensures
        r == begins(s@, prefix@),
{
    let c = chars_of(s);
    let p = chars_of(prefix);
    p.len() <= c.len() && stands_at(&c, &p, 0)
}

pub fn ends_with(s: &str, suffix: &str) -> (r: bool)
    ensures
        r == ends(s@, suffix@),
{
    let c = chars_of(s);
    let p = chars_of(suffix);
    p.len() <= c.len() && stands_at(&c, &p, c.len() - p.len())
}

// ---------------------------------------------------------------------------------------------
// Taking apart and putting together

/// The pieces of `s` between the separators: as many as there are separators, and one more.
pub open spec fn pieces(s: Seq<char>, sep: char) -> Seq<Seq<char>>
    decreases s.len(),
{
    if s.len() == 0 {
        seq![Seq::empty()]
    } else {
        let before = pieces(s.drop_last(), sep);
        if s.last() == sep {
            before.push(Seq::empty())
        } else {
            before.update(before.len() - 1, before.last().push(s.last()))
        }
    }
}

/// The parts one after another, with `sep` between each two.
pub open spec fn joined(parts: Seq<Seq<char>>, sep: Seq<char>) -> Seq<char>
    decreases parts.len(),
{
    if parts.len() == 0 {
        Seq::empty()
    } else if parts.len() == 1 {
        parts[0]
    } else {
        joined(parts.drop_last(), sep) + sep + parts.last()
    }
}

pub proof fn pieces_nonempty(s: Seq<char>, sep: char)
    ensures
        pieces(s, sep).len() >= 1,
    decreases s.len(),
{
    if s.len() > 0 {
        pieces_nonempty(s.drop_last(), sep);
    }
}

/// No piece holds the separator.
pub proof fn pieces_hold_no_separator(s: Seq<char>, sep: char)
    ensures
        forall|i: int|
            0 <= i < pieces(s, sep).len() ==> !(#[trigger] pieces(s, sep)[i]).contains(sep),
    decreases s.len(),
{
    if s.len() > 0 {
        pieces_nonempty(s.drop_last(), sep);
        pieces_hold_no_separator(s.drop_last(), sep);
        let before = pieces(s.drop_last(), sep);
        if s.last() != sep {
            assert forall|i: int| 0 <= i < pieces(s, sep).len() implies !(#[trigger] pieces(
                s,
                sep,
            )[i]).contains(sep) by {
                if i == before.len() - 1 {
                    assert(!before[i].contains(sep));
                    assert(forall|k: int| 0 <= k < before[i].len() ==> before[i].contains(#[trigger] before[i][k]));
                } else {
                    assert(pieces(s, sep)[i] == before[i]);
                }
            }
        } else {
            assert forall|i: int| 0 <= i < pieces(s, sep).len() implies !(#[trigger] pieces(
                s,
                sep,
            )[i]).contains(sep) by {
                if i < before.len() {
                    assert(pieces(s, sep)[i] == before[i]);
                }
            }
        }
    }
}

/// Putting the pieces together again gives the text they were taken from.
pub proof fn pieces_join_back(s: Seq<char>, sep: char)
    ensures
        joined(pieces(s, sep), seq![sep]) == s,
    decreases s.len(),
{
    if s.len() == 0 {
        assert(joined(pieces(s, sep), seq![sep]) =~= s);
    } else {
        let before = pieces(s.drop_last(), sep);
        pieces_nonempty(s.drop_last(), sep);
        pieces_join_back(s.drop_last(), sep);
        let all = pieces(s, sep);
        if s.last() == sep {
            assert(all.drop_last() =~= before);
            assert(joined(all, seq![sep]) =~= joined(before, seq![sep]) + seq![sep]);
            assert(s.drop_last() + seq![sep] =~= s);
        } else {
            assert(all.drop_last() =~= before.drop_last());
            if before.len() == 1 {
                assert(joined(all, seq![sep]) =~= before[0].push(s.last()));
            } else {
                assert(joined(all, seq![sep]) =~= joined(before, seq![sep]).push(s.last()));
            }
            assert(s.drop_last().push(s.last()) =~= s);
        }
    }
}

pub fn split(s: &str, sep: char) -> (r: Vec<String>)
    ensures
        texts(r@) == pieces(s@, sep),
        r@.len() >= 1,
{
    let c = chars_of(s);
    let mut parts: Vec<String> = Vec::new();
    let mut current = String::new();
    let mut i: usize = 0;
    assert(texts(parts@).push(current@) =~= pieces(s@.take(0), sep));
    while i < c.len()
        invariant
            c@ == s@,
            i <= c@.len(),
            texts(parts@).push(current@) == pieces(s@.take(i as int), sep),
        decreases c@.len() - i,
    {
        let ch = c[i];
        assert(s@.take(i + 1).drop_last() =~= s@.take(i as int));
        if ch == sep {
            proof {
                texts_push(parts@, current);
            }
            parts.push(current);
            current = String::new();
            assert(current@ =~= Seq::<char>::empty());
        } else {
            let ghost before = texts(parts@).push(current@);
            current.push(ch);
            assert(texts(parts@).push(current@) =~= before.update(
                before.len() - 1,
                before.last().push(ch),
            ));
        }
        i = i + 1;
    }
    assert(s@.take(i as int) =~= s@);
    proof {
        texts_push(parts@, current);
    }
    parts.push(current);
    parts
}

pub fn join(parts: &[String], sep: &str) -> (r: String)
    ensures
        r@ == joined(texts(parts@), sep@),
{
    let mut r = String::new();
    let mut i: usize = 0;
    while i < parts.len()
        invariant
            i <= parts@.len(),
            r@ == joined(texts(parts@).take(i as int), sep@),
        decreases parts@.len() - i,
    {
        proof {
            let all = texts(parts@);
            assert(all.take(i + 1).drop_last() =~= all.take(i as int));
            assert(all.take(i + 1).last() == parts@[i as int]@);
        }
        if i > 0 {
            r.append(sep);
        }
        r.append(parts[i].as_str());
        assert(r@ =~= joined(texts(parts@).take(i + 1), sep@));
        i = i + 1;
    }
    assert(texts(parts@).take(i as int) =~= texts(parts@));
    r
}

/// `s` with every `from` replaced by `to`, found from the left without overlap. `from` is not
/// empty.
pub open spec fn replaced(s: Seq<char>, from: Seq<char>, to: Seq<char>) -> Seq<char>
    decreases s.len(),
{
    if s.len() == 0 || from.len() == 0 {
        s
    } else if begins(s, from) {
        to + replaced(s.skip(from.len() as int), from, to)
    } else {
        seq![s[0]] + replaced(s.skip(1), from, to)
    }
}

pub fn replace(s: &str, from: &str, to: &str) -> (r: String)
    requires
        from@.len() > 0,
    ensures
        r@ == replaced(s@, from@, to@),
{
    let c = chars_of(s);
    let f = chars_of(from);
    let mut r = String::new();
    let mut i: usize = 0;
    assert(s@.skip(0) =~= s@);
    while i < c.len()
        invariant
            c@ == s@,
            f@ == from@,
            f@.len() > 0,
            i <= c@.len(),
            replaced(s@, from@, to@) =~= r@ + replaced(s@.skip(i as int), from@, to@),
        decreases c@.len() - i,
    {
        let ghost rest = s@.skip(i as int);
        if f.len() <= c.len() - i && stands_at(&c, &f, i) {
            proof {
                assert(rest.subrange(0, f@.len() as int) =~= s@.subrange(i as int, i + f@.len()));
                assert(begins(rest, from@));
                assert(rest.skip(f@.len() as int) =~= s@.skip(i + f@.len()));
            }
            r.append(to);
            i = i + f.len();
        } else {
            proof {
                if begins(rest, from@) {
                    assert(rest.subrange(0, f@.len() as int) =~= s@.subrange(i as int, i + f@.len()));
                }
                assert(rest.skip(1) =~= s@.skip(i + 1));
            }
            r.push(c[i]);
            i = i + 1;
        }
    }
    assert(replaced(s@.skip(i as int), from@, to@) =~= Seq::<char>::empty());
    r
}

/// What stands after the first separator; all of `s` where there is none.
pub open spec fn after_first(s: Seq<char>, sep: char) -> Seq<char> {
    match first_at(s, seq![sep]) {
        Some(i) => s.skip(i + 1),
        None => s,
    }
}

/// What stands after the last separator; all of `s` where there is none.
pub open spec fn after_last(s: Seq<char>, sep: char) -> Seq<char> {
    pieces(s, sep).last()
}

/// What stands before the last separator, where there is one.
pub open spec fn before_last(s: Seq<char>, sep: char) -> Option<Seq<char>> {
    if pieces(s, sep).len() == 1 {
        None
    } else {
        Some(joined(pieces(s, sep).drop_last(), seq![sep]))
    }
}

/// The position of the last place at or before `upto` where `needle` stands in `hay`.
pub open spec fn last_from(hay: Seq<char>, needle: Seq<char>, upto: int) -> Option<int>
    decreases upto + 1,
{
    if upto < 0 {
        None
    } else if holds_at(hay, needle, upto) {
        Some(upto)
    } else {
        last_from(hay, needle, upto - 1)
    }
}

/// What stands after the last `needle`; all of `s` where there is none.
pub open spec fn after_last_text(s: Seq<char>, needle: Seq<char>) -> Seq<char> {
    match last_from(s, needle, s.len() as int) {
        Some(i) => s.skip(i + needle.len()),
        None => s,
    }
}

/// What stands before the last separator, where there is one.
pub fn front_before_last(s: &str, sep: char) -> (r: Option<String>)
    ensures
        opt_text(r) == before_last(s@, sep),
{
    let mut parts = split(s, sep);
    proof {
        pieces_nonempty(s@, sep);
    }
    if parts.len() == 1 {
        return None;
    }
    let ghost all = texts(parts@);
    let last = parts.pop();
    assert(texts(parts@) =~= all.drop_last());
    let between = text_of(vec![sep].as_slice(), 0, 1);
    assert(between@ =~= seq![sep]);
    Some(join(parts.as_slice(), between.as_str()))
}

/// A text without the separator is all that stands after the first one.
pub proof fn after_first_none(s: Seq<char>, sep: char)
    requires
        !s.contains(sep),
    ensures
        after_first(s, sep) == s,
{
    first_from_is_first(s, seq![sep], 0);
    match first_at(s, seq![sep]) {
        Some(i) => {
            assert(s.subrange(i, i + 1)[0] == seq![sep][0]);
            assert(s[i] == sep);
        },
        None => {},
    }
}

/// What was put behind a separator stands after it.
pub proof fn after_first_of(front: Seq<char>, rest: Seq<char>, sep: char)
    requires
        !front.contains(sep),
    ensures
        after_first(front + seq![sep] + rest, sep) == rest,
{
    let s = front + seq![sep] + rest;
    let n = front.len() as int;
    first_from_is_first(s, seq![sep], 0);
    assert(s.subrange(n, n + 1) =~= seq![sep]);
    assert(holds_at(s, seq![sep], n));
    match first_at(s, seq![sep]) {
        Some(i) => {
            assert(s.subrange(i, i + 1)[0] == seq![sep][0]);
            assert(s[i] == sep);
            if i < n {
                assert(front[i] == sep);
            }
            assert(i == n);
            assert(s.skip(n + 1) =~= rest);
        },
        None => {},
    }
}

/// What stands after the last `needle` of the text; all of it where there is none.
pub fn rest_after_last(s: &str, needle: &str) -> (r: String)
    ensures
        r@ == after_last_text(s@, needle@),
{
    let c = chars_of(s);
    let n = chars_of(needle);
    let mut i: usize = c.len();
    loop
        invariant
            c@ == s@,
            n@ == needle@,
            i <= c@.len(),
            last_from(s@, needle@, s@.len() as int) == last_from(s@, needle@, i as int),
        decreases i,
    {
        if n.len() <= c.len() - i && stands_at(&c, &n, i) {
            return text_of(c.as_slice(), i + n.len(), c.len());
        }
        assert(!holds_at(s@, needle@, i as int));
        if i == 0 {
            assert(last_from(s@, needle@, -1) is None);
            return s.to_string();
        }
        i = i - 1;
    }
}

/// What stands after the first separator; all of the text where there is none.
pub fn rest_after_first(s: &str, sep: char) -> (r: String)
    ensures
        r@ == after_first(s@, sep),
{
    let c = chars_of(s);
    let mut i: usize = 0;
    while i < c.len()
        invariant
            c@ == s@,
            i <= c@.len(),
            first_at(s@, seq![sep]) == first_from(s@, seq![sep], i as int),
        decreases c@.len() - i,
    {
        proof {
            assert(s@.subrange(i as int, i + 1) =~= seq![s@[i as int]]);
            assert(seq![sep][0] == sep);
            assert(holds_at(s@, seq![sep], i as int) == (s@[i as int] == sep)) by {
                if s@[i as int] != sep {
                    assert(s@.subrange(i as int, i + 1)[0] != seq![sep][0]);
                }
            }
        }
        if c[i] == sep {
            return text_of(c.as_slice(), i + 1, c.len());
        }
        i = i + 1;
    }
    s.to_string()
}

// ---------------------------------------------------------------------------------------------
// Trimming

/// The characters with the Unicode property `White_Space`.
pub open spec fn white(c: char) -> bool {
    let n = c as u32;
    ||| 0x9 <= n <= 0xd
    ||| n == 0x20
    ||| n == 0x85
    ||| n == 0xa0
    ||| n == 0x1680
    ||| 0x2000 <= n <= 0x200a
    ||| n == 0x2028
    ||| n == 0x2029
    ||| n == 0x202f
    ||| n == 0x205f
    ||| n == 0x3000
}

/// The characters that trimming takes away: the one given, or white space.
pub open spec fn goes(c: char, what: Option<char>) -> bool {
    match what {
        Some(w) => c == w,
        None => white(c),
    }
}

pub open spec fn stripped_start(s: Seq<char>, what: Option<char>) -> Seq<char>
    decreases s.len(),
{
    if s.len() > 0 && goes(s[0], what) {
        stripped_start(s.skip(1), what)
    } else {
        s
    }
}

pub open spec fn stripped_end(s: Seq<char>, what: Option<char>) -> Seq<char>
    decreases s.len(),
{
    if s.len() > 0 && goes(s.last(), what) {
        stripped_end(s.drop_last(), what)
    } else {
        s
    }
}

/// `s` without the white space at its two ends.
pub open spec fn trimmed(s: Seq<char>) -> Seq<char> {
    stripped_end(stripped_start(s, None), None)
}

/// `s` without the character `c` at its two ends.
pub open spec fn trimmed_of(s: Seq<char>, c: char) -> Seq<char> {
    stripped_end(stripped_start(s, Some(c)), Some(c))
}

pub fn is_whitespace(c: char) -> (r: bool)
    ensures
        r == white(c),
{
    let n: u32 = c as u32;
    (0x9 <= n && n <= 0xd) || n == 0x20 || n == 0x85 || n == 0xa0 || n == 0x1680 || (0x2000 <= n
        && n <= 0x200a) || n == 0x2028 || n == 0x2029 || n == 0x202f || n == 0x205f || n == 0x3000
}

fn is_stripped(c: char, what: Option<char>) -> (r: bool)
    ensures
        r == goes(c, what),
{
    match what {
        Some(w) => c == w,
        None => is_whitespace(c),
    }
}

/// The position of the first character that stays.
fn strip_start_at(c: &Vec<char>, what: Option<char>) -> (i: usize)
    ensures
        i <= c@.len(),
        stripped_start(c@, what) == c@.skip(i as int),
{
    let mut i: usize = 0;
    assert(c@.skip(0) =~= c@);
    while i < c.len() && is_stripped(c[i], what)
        invariant
            i <= c@.len(),
            stripped_start(c@, what) == stripped_start(c@.skip(i as int), what),
        decreases c@.len() - i,
    {
        assert(c@.skip(i as int).skip(1) =~= c@.skip(i + 1));
        i = i + 1;
    }
    i
}

/// The position after the last character that stays.
fn strip_end_at(c: &Vec<char>, from: usize, what: Option<char>) -> (j: usize)
    requires
        from <= c@.len(),
    ensures
        from <= j <= c@.len(),
        stripped_end(c@.skip(from as int), what) == c@.subrange(from as int, j as int),
{
    let mut j: usize = c.len();
    assert(c@.subrange(from as int, j as int) =~= c@.skip(from as int));
    while j > from && is_stripped(c[j - 1], what)
        invariant
            from <= j <= c@.len(),
            stripped_end(c@.skip(from as int), what) == stripped_end(
                c@.subrange(from as int, j as int),
                what,
            ),
        decreases j,
    {
        assert(c@.subrange(from as int, j as int).drop_last() =~= c@.subrange(
            from as int,
            j - 1,
        ));
        j = j - 1;
    }
    j
}

pub fn trim(s: &str) -> (r: String)
    ensures
        r@ == trimmed(s@),
{
    let c = chars_of(s);
    let i = strip_start_at(&c, None);
    let j = strip_end_at(&c, i, None);
    text_of(c.as_slice(), i, j)
}

pub fn trim_matches(s: &str, what: char) -> (r: String)
    ensures
        r@ == trimmed_of(s@, what),
{
    let c = chars_of(s);
    let i = strip_start_at(&c, Some(what));
    let j = strip_end_at(&c, i, Some(what));
    text_of(c.as_slice(), i, j)
}

pub fn trim_start_matches(s: &str, what: char) -> (r: String)
    ensures
        r@ == stripped_start(s@, Some(what)),
{
    let c = chars_of(s);
    let i = strip_start_at(&c, Some(what));
    let r = text_of(c.as_slice(), i, c.len());
    assert(r@ =~= c@.skip(i as int));
    r
}

/// `s` with every `prefix` at its start taken away, as long as there is one. `prefix` is not
/// empty.
pub open spec fn without_prefixes(s: Seq<char>, prefix: Seq<char>) -> Seq<char>
    decreases s.len(),
{
    if prefix.len() > 0 && begins(s, prefix) {
        without_prefixes(s.skip(prefix.len() as int), prefix)
    } else {
        s
    }
}

/// `s` with every `suffix` at its end taken away, as long as there is one. `suffix` is not empty.
pub open spec fn without_suffixes(s: Seq<char>, suffix: Seq<char>) -> Seq<char>
    decreases s.len(),
{
    if suffix.len() > 0 && ends(s, suffix) {
        without_suffixes(s.take(s.len() - suffix.len()), suffix)
    } else {
        s
    }
}

pub fn strip_prefixes(s: &str, prefix: &str) -> (r: String)
    requires
        prefix@.len() > 0,
    ensures
        r@ == without_prefixes(s@, prefix@),
{
    let c = chars_of(s);
    let p = chars_of(prefix);
    let mut i: usize = 0;
    assert(s@.skip(0) =~= s@);
    while p.len() <= c.len() - i && stands_at(&c, &p, i)
        invariant
            c@ == s@,
            p@ == prefix@,
            p@.len() > 0,
            i <= c@.len(),
            without_prefixes(s@, prefix@) == without_prefixes(s@.skip(i as int), prefix@),
        decreases c@.len() - i,
    {
        proof {
            let rest = s@.skip(i as int);
            assert(rest.subrange(0, p@.len() as int) =~= s@.subrange(i as int, i + p@.len()));
            assert(begins(rest, prefix@));
            assert(rest.skip(p@.len() as int) =~= s@.skip(i + p@.len()));
        }
        i = i + p.len();
    }
    proof {
        let rest = s@.skip(i as int);
        if begins(rest, prefix@) {
            assert(rest.subrange(0, p@.len() as int) =~= s@.subrange(i as int, i + p@.len()));
        }
    }
    let r = text_of(c.as_slice(), i, c.len());
    assert(r@ =~= s@.skip(i as int));
    r
}

pub fn strip_suffixes(s: &str, suffix: &str) -> (r: String)
    requires
        suffix@.len() > 0,
    ensures
        r@ == without_suffixes(s@, suffix@),
{
    let c = chars_of(s);
    let p = chars_of(suffix);
    let mut n: usize = c.len();
    assert(s@.take(n as int) =~= s@);
    while p.len() <= n && stands_at(&c, &p, n - p.len())
        invariant
            c@ == s@,
            p@ == suffix@,
            p@.len() > 0,
            n <= c@.len(),
            without_suffixes(s@, suffix@) == without_suffixes(s@.take(n as int), suffix@),
        decreases n,
    {
        proof {
            let front = s@.take(n as int);
            assert(front.subrange(n - p@.len(), n as int) =~= s@.subrange(n - p@.len(), n as int));
            assert(ends(front, suffix@));
            assert(front.take(n - p@.len()) =~= s@.take(n - p@.len()));
        }
        n = n - p.len();
    }
    proof {
        let front = s@.take(n as int);
        if ends(front, suffix@) {
            assert(front.subrange(n - p@.len(), n as int) =~= s@.subrange(n - p@.len(), n as int));
        }
    }
    let r = text_of(c.as_slice(), 0, n);
    assert(r@ =~= s@.take(n as int));
    r
}

/// What stands in a text stands in every text around it.
pub proof fn holds_inside(front: Seq<char>, s: Seq<char>, back: Seq<char>, needle: Seq<char>)
    requires
        holds(s, needle),
    ensures
        holds(front + s + back, needle),
{
    let i = choose|i: int| #[trigger] holds_at(s, needle, i);
    let whole = front + s + back;
    assert(whole.subrange(front.len() + i, front.len() + i + needle.len()) =~= s.subrange(
        i,
        i + needle.len(),
    ));
    assert(holds_at(whole, needle, front.len() + i));
}

/// A text that is joined from parts holds each of them.
pub proof fn joined_holds(parts: Seq<Seq<char>>, sep: Seq<char>, i: int)
    requires
        0 <= i < parts.len(),
    ensures
        holds(joined(parts, sep), parts[i]),
    decreases parts.len(),
{
    let whole = joined(parts, sep);
    if parts.len() == 1 {
        assert(whole.subrange(0, whole.len() as int) =~= whole);
        assert(holds_at(whole, parts[i], 0));
    } else if i == parts.len() - 1 {
        let front = joined(parts.drop_last(), sep) + sep;
        let last = parts.last();
        assert(last.subrange(0, last.len() as int) =~= last);
        assert(holds_at(last, last, 0));
        holds_inside(front, last, Seq::empty(), last);
        assert(front + last + Seq::<char>::empty() =~= whole);
    } else {
        joined_holds(parts.drop_last(), sep, i);
        let front = joined(parts.drop_last(), sep);
        holds_inside(Seq::empty(), front, sep + parts.last(), parts[i]);
        assert(Seq::<char>::empty() + front + (sep + parts.last()) =~= whole);
    }
}

/// A character in lower case, where it is a letter of ASCII.
pub open spec fn ascii_lower(c: char) -> char {
    if 'A' <= c <= 'Z' {
        (c as u8 + 32) as char
    } else {
        c
    }
}

/// A text with the letters of ASCII in lower case.
pub open spec fn ascii_lowered(s: Seq<char>) -> Seq<char> {
    Seq::new(s.len(), |i: int| ascii_lower(s[i]))
}

fn lower(c: char) -> (r: char)
    ensures
        r == ascii_lower(c),
{
    if 'A' <= c && c <= 'Z' {
        (c as u8 + 32) as char
    } else {
        c
    }
}

pub fn to_ascii_lowercase(s: &str) -> (r: String)
    ensures
        r@ == ascii_lowered(s@),
{
    let c = chars_of(s);
    let mut r = String::new();
    let mut i: usize = 0;
    while i < c.len()
        invariant
            i <= c@.len(),
            c@ == s@,
            r@ == ascii_lowered(s@).take(i as int),
        decreases c@.len() - i,
    {
        r.push(lower(c[i]));
        assert(ascii_lowered(s@).take(i + 1) =~= ascii_lowered(s@).take(i as int).push(
            ascii_lower(s@[i as int]),
        ));
        i = i + 1;
    }
    assert(ascii_lowered(s@).take(i as int) =~= ascii_lowered(s@));
    r
}

// ---------------------------------------------------------------------------------------------
// Laws

/// A text without the separator is one piece.
pub proof fn plain_texts_are_one_piece(s: Seq<char>, sep: char)
    requires
        !s.contains(sep),
    ensures
        pieces(s, sep) == seq![s],
    decreases s.len(),
{
    if s.len() > 0 {
        let front = s.drop_last();
        assert(!front.contains(sep)) by {
            if front.contains(sep) {
                let i = choose|i: int| 0 <= i < front.len() && front[i] == sep;
                assert(s[i] == sep);
            }
        }
        plain_texts_are_one_piece(front, sep);
        assert(s[s.len() - 1] != sep);
        assert(front.push(s.last()) =~= s);
    } else {
        assert(s =~= Seq::<char>::empty());
    }
    assert(pieces(s, sep) =~= seq![s]);
}

/// The pieces of two texts with a separator between them are those of the one and of the other.
pub proof fn pieces_add_up(a: Seq<char>, b: Seq<char>, sep: char)
    ensures
        pieces(a + seq![sep] + b, sep) == pieces(a, sep) + pieces(b, sep),
    decreases b.len(),
{
    let s = a + seq![sep] + b;
    pieces_nonempty(b, sep);
    if b.len() == 0 {
        assert(s.drop_last() =~= a);
        assert(s.last() == sep);
        assert(pieces(s, sep) =~= pieces(a, sep) + pieces(b, sep));
    } else {
        let front = b.drop_last();
        pieces_add_up(a, front, sep);
        pieces_nonempty(front, sep);
        assert(s.drop_last() =~= a + seq![sep] + front);
        assert(s.last() == b.last());
        assert(pieces(s, sep) =~= pieces(a, sep) + pieces(b, sep));
    }
}

/// Parts that do not hold the separator come apart again where they were joined.
pub proof fn joined_parts_come_apart(parts: Seq<Seq<char>>, sep: char)
    requires
        parts.len() > 0,
        forall|i: int| 0 <= i < parts.len() ==> !(#[trigger] parts[i]).contains(sep),
    ensures
        pieces(joined(parts, seq![sep]), sep) == parts,
    decreases parts.len(),
{
    plain_texts_are_one_piece(parts.last(), sep);
    if parts.len() == 1 {
        assert(parts =~= seq![parts.last()]);
    } else {
        let front = parts.drop_last();
        assert forall|i: int| 0 <= i < front.len() implies !(#[trigger] front[i]).contains(sep) by {
            assert(front[i] == parts[i]);
        }
        joined_parts_come_apart(front, sep);
        pieces_add_up(joined(front, seq![sep]), parts.last(), sep);
        assert(front + seq![parts.last()] =~= parts);
    }
}

proof fn starts_are_stripped(front: Seq<char>, s: Seq<char>, what: Option<char>)
    requires
        forall|i: int| 0 <= i < front.len() ==> goes(#[trigger] front[i], what),
        s.len() > 0 ==> !goes(s[0], what),
    ensures
        stripped_start(front + s, what) == s,
    decreases front.len(),
{
    if front.len() == 0 {
        assert(front + s =~= s);
    } else {
        assert(goes(front[0], what));
        assert((front + s).skip(1) =~= front.skip(1) + s);
        assert forall|i: int| 0 <= i < front.skip(1).len() implies goes(
            #[trigger] front.skip(1)[i],
            what,
        ) by {
            assert(goes(front[i + 1], what));
        }
        starts_are_stripped(front.skip(1), s, what);
    }
}

proof fn ends_are_stripped(s: Seq<char>, back: Seq<char>, what: Option<char>)
    requires
        forall|i: int| 0 <= i < back.len() ==> goes(#[trigger] back[i], what),
        s.len() > 0 ==> !goes(s.last(), what),
    ensures
        stripped_end(s + back, what) == s,
    decreases back.len(),
{
    if back.len() == 0 {
        assert(s + back =~= s);
    } else {
        assert(goes(back[back.len() - 1], what));
        assert((s + back).drop_last() =~= s + back.drop_last());
        ends_are_stripped(s, back.drop_last(), what);
    }
}

/// Trimming takes the white space from both ends of a text, and nothing else.
pub proof fn trimming_takes_white_space(front: Seq<char>, s: Seq<char>, back: Seq<char>)
    requires
        forall|i: int| 0 <= i < front.len() ==> white(#[trigger] front[i]),
        forall|i: int| 0 <= i < back.len() ==> white(#[trigger] back[i]),
        s.len() > 0,
        !white(s[0]),
        !white(s.last()),
    ensures
        trimmed(front + s + back) == s,
{
    assert(front + s + back =~= front + (s + back));
    assert forall|i: int| 0 <= i < front.len() implies goes(#[trigger] front[i], None) by {}
    assert forall|i: int| 0 <= i < back.len() implies goes(#[trigger] back[i], None) by {}
    starts_are_stripped(front, s + back, None);
    ends_are_stripped(s, back, None);
}

/// Trimming a character takes it from both ends of a text, and nothing else.
pub proof fn trimming_takes_a_character(m: nat, s: Seq<char>, n: nat, c: char)
    requires
        s.len() > 0,
        s[0] != c,
        s.last() != c,
    ensures
        trimmed_of(Seq::new(m, |i: int| c) + s + Seq::new(n, |i: int| c), c) == s,
{
    let front = Seq::new(m, |i: int| c);
    let back = Seq::new(n, |i: int| c);
    assert(front + s + back =~= front + (s + back));
    starts_are_stripped(front, s + back, Some(c));
    ends_are_stripped(s, back, Some(c));
}

/// A prefix that stands once is taken off, and nothing else.
pub proof fn prefixes_are_taken_off(prefix: Seq<char>, s: Seq<char>)
    requires
        prefix.len() > 0,
        !begins(s, prefix),
    ensures
        begins(prefix + s, prefix),
        without_prefixes(prefix + s, prefix) == s,
        without_prefixes(s, prefix) == s,
{
    assert((prefix + s).subrange(0, prefix.len() as int) =~= prefix);
    assert((prefix + s).skip(prefix.len() as int) =~= s);
    assert(without_prefixes(s, prefix) == s);
}

/// A suffix that stands once is taken off, and nothing else.
pub proof fn suffixes_are_taken_off(s: Seq<char>, suffix: Seq<char>)
    requires
        suffix.len() > 0,
        !ends(s, suffix),
    ensures
        without_suffixes(s + suffix, suffix) == s,
        without_suffixes(s, suffix) == s,
{
    let whole = s + suffix;
    assert(whole.subrange(s.len() as int, whole.len() as int) =~= suffix);
    assert(whole.take(whole.len() - suffix.len()) =~= s);
    assert(without_suffixes(s, suffix) == s);
}

proof fn last_from_is_last(hay: Seq<char>, needle: Seq<char>, upto: int)
    ensures
        match last_from(hay, needle, upto) {
            Some(i) => i <= upto && holds_at(hay, needle, i) && forall|j: int|
                i < j <= upto ==> !holds_at(hay, needle, j),
            None => forall|j: int| j <= upto ==> !holds_at(hay, needle, j),
        },
    decreases upto + 1,
{
    if upto >= 0 && !holds_at(hay, needle, upto) {
        last_from_is_last(hay, needle, upto - 1);
    }
}

/// What stands behind the last place of a text in another is what was put there.
pub proof fn rest_stands_after_the_last(front: Seq<char>, needle: Seq<char>, rest: Seq<char>)
    requires
        needle.len() > 0,
        !holds(needle.skip(1) + rest, needle),
    ensures
        after_last_text(front + needle + rest, needle) == rest,
{
    let s = front + needle + rest;
    let n = front.len() as int;
    last_from_is_last(s, needle, s.len() as int);
    assert(s.subrange(n, n + needle.len()) =~= needle);
    assert(holds_at(s, needle, n));
    let i = last_from(s, needle, s.len() as int)->0;
    if i > n {
        let tail = needle.skip(1) + rest;
        assert(tail =~= s.skip(n + 1));
        assert(tail.subrange(i - n - 1, i - n - 1 + needle.len()) =~= s.subrange(
            i,
            i + needle.len(),
        ));
        assert(holds_at(tail, needle, i - n - 1));
    }
    assert(s.skip(n + needle.len()) =~= rest);
}

/// A text that does not hold another has all of itself behind it.
pub proof fn texts_without_stay(s: Seq<char>, needle: Seq<char>)
    requires
        !holds(s, needle),
    ensures
        after_last_text(s, needle) == s,
{
    last_from_is_last(s, needle, s.len() as int);
}

/// Where a text stands in another, it is replaced; what stands before it is kept, and what stands
/// behind it is treated alike.
pub proof fn places_are_replaced(front: Seq<char>, from: Seq<char>, rest: Seq<char>, to: Seq<char>)
    requires
        from.len() > 0,
        forall|i: int| 0 <= i < front.len() ==> !holds_at(front + from + rest, from, i),
    ensures
        replaced(front + from + rest, from, to) == front + to + replaced(rest, from, to),
    decreases front.len(),
{
    let s = front + from + rest;
    if front.len() == 0 {
        assert(s.subrange(0, from.len() as int) =~= from);
        assert(s.skip(from.len() as int) =~= rest);
        assert(front + to + replaced(rest, from, to) =~= to + replaced(rest, from, to));
    } else {
        let tail = front.skip(1);
        assert(!holds_at(s, from, 0));
        assert(s.skip(1) =~= tail + from + rest);
        assert forall|i: int| 0 <= i < tail.len() implies !holds_at(tail + from + rest, from, i) by {
            assert(!holds_at(s, from, i + 1));
            if holds_at(tail + from + rest, from, i) {
                assert(s.subrange(i + 1, i + 1 + from.len()) =~= s.skip(1).subrange(
                    i,
                    i + from.len(),
                ));
            }
        }
        places_are_replaced(tail, from, rest, to);
        assert(seq![s[0]] + (tail + to + replaced(rest, from, to)) =~= front + to + replaced(
            rest,
            from,
            to,
        ));
    }
}

/// A text that stands nowhere is not replaced.
pub proof fn other_texts_stay(s: Seq<char>, from: Seq<char>, to: Seq<char>)
    requires
        from.len() > 0,
        !holds(s, from),
    ensures
        replaced(s, from, to) == s,
    decreases s.len(),
{
    if s.len() > 0 {
        assert(!holds_at(s, from, 0));
        let rest = s.skip(1);
        if holds(rest, from) {
            let i = choose|i: int| holds_at(rest, from, i);
            assert(s.subrange(i + 1, i + 1 + from.len()) =~= rest.subrange(i, i + from.len()));
            assert(holds_at(s, from, i + 1));
        }
        other_texts_stay(rest, from, to);
        assert(seq![s[0]] + rest =~= s);
    }
}

/// A text of ASCII has as many bytes as characters.
pub proof fn ascii_takes_single_bytes(s: Seq<char>)
    requires
        forall|i: int| 0 <= i < s.len() ==> char_bytes(#[trigger] s[i]) == 1,
    ensures
        byte_count(s) == s.len(),
    decreases s.len(),
{
    if s.len() > 0 {
        let front = s.drop_last();
        assert forall|i: int| 0 <= i < front.len() implies char_bytes(#[trigger] front[i]) == 1 by {
            assert(char_bytes(s[i]) == 1);
        }
        ascii_takes_single_bytes(front);
        byte_count_push(front, s.last());
        assert(front.push(s.last()) =~= s);
        assert(char_bytes(s[s.len() - 1]) == 1);
    } else {
        byte_count_add(s, s);
        assert(s + s =~= s);
    }
}

/// A text holds what stands in its middle.
pub proof fn middles_are_held(front: Seq<char>, s: Seq<char>, back: Seq<char>)
    ensures
        holds(front + s + back, s),
{
    assert((front + s + back).subrange(front.len() as int, (front.len() + s.len()) as int) =~= s);
    assert(holds_at(front + s + back, s, front.len() as int));
}

/// A text with a character other than white space is not trimmed away.
pub proof fn dark_texts_stay(s: Seq<char>, c: char)
    requires
        s.contains(c),
        !white(c),
    ensures
        trimmed(s).len() > 0,
    decreases s.len(),
{
    let i = choose|i: int| 0 <= i < s.len() && s[i] == c;
    if goes(s[0], None) {
        assert(s.skip(1)[i - 1] == c);
        dark_texts_stay(s.skip(1), c);
    } else {
        assert(stripped_start(s, None) == s);
        dark_ends_stay(s);
    }
}

proof fn dark_ends_stay(s: Seq<char>)
    requires
        s.len() > 0,
        !white(s[0]),
    ensures
        stripped_end(s, None).len() > 0,
    decreases s.len(),
{
    if goes(s.last(), None) {
        assert(s.drop_last()[0] == s[0]);
        dark_ends_stay(s.drop_last());
    }
}

} // verus!
