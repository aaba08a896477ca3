//! Keeping commits off the protected branches.

use vstd::prelude::*;
use vstd::string::*;
use crate::config::GitHelperConfig;
use crate::git::commands;
use crate::text;

verus! {

pub const HOOK_FILE_NAME: &'static str = "pre-commit";

pub const MANAGED_START: &'static str = "# lil-big-helper managed start";

pub const MANAGED_END: &'static str = "# lil-big-helper managed end";

pub fn is_protected_branch(branch: &str, config: &GitHelperConfig) -> (r: bool)
    ensures
        r == text::texts(config.protected_base_branches@).contains(branch@),
{
    text::any_is(&config.protected_base_branches, branch)
}

/// The branches in quotes.
pub open spec fn quoted(branches: Seq<Seq<char>>) -> Seq<Seq<char>> {
    Seq::new(branches.len(), |i: int| "\""@ + branches[i] + "\""@)
}

/// The hook that refuses commits to these branches.
pub open spec fn hook_content(branches: Seq<Seq<char>>) -> Seq<char> {
    "#!/bin/sh\n"@ + MANAGED_START@
        + "\nbranch=\"$(git branch --show-current)\"\nfor protected in "@ + text::joined(
        quoted(branches),
        " "@,
    )
        + "; do\n  if [ \"$branch\" = \"$protected\" ]; then\n    echo \"lil-big-helper: direct commits to protected branch '$branch' are blocked\"\n    exit 1\n  fi\ndone\n"@
        + MANAGED_END@ + "\n"@
}

pub fn managed_hook_content(config: &GitHelperConfig) -> (r: String)
    ensures
        r@ == hook_content(text::texts(config.protected_base_branches@)),
{
    let branches = &config.protected_base_branches;
    let ghost all = text::texts(branches@);
    let mut words: Vec<String> = Vec::new();
    let mut i: usize = 0;
    while i < branches.len()
        invariant
            i <= branches@.len(),
            words@.len() == i,
            forall|j: int|
                0 <= j < i ==> (#[trigger] words@[j])@ == "\""@ + branches@[j]@ + "\""@,
        decreases branches@.len() - i,
    {
        let mut word = "\"".to_string();
        word.append(branches[i].as_str());
        word.append("\"");
        words.push(word);
        i = i + 1;
    }
    assert(text::texts(words@) =~= quoted(all));
    let mut r = "#!/bin/sh\n".to_string();
    r.append(MANAGED_START);
    r.append("\nbranch=\"$(git branch --show-current)\"\nfor protected in ");
    r.append(text::join(&words, " ").as_str());
    r.append("; do\n  if [ \"$branch\" = \"$protected\" ]; then\n    echo \"lil-big-helper: direct commits to protected branch '$branch' are blocked\"\n    exit 1\n  fi\ndone\n");
    r.append(MANAGED_END);
    r.append("\n");
    r
}

/// The end of the line in which a position stands, past its line feed.
pub open spec fn line_end(s: Seq<char>, from: int) -> int {
    match text::first_from(s, seq!['\n'], from) {
        Some(i) => i + 1,
        None => s.len() as int,
    }
}

/// Where the managed block of a hook starts and ends, where it has one.
pub open spec fn managed_block(s: Seq<char>) -> Result<(int, int), Seq<char>> {
    match (text::first_at(s, MANAGED_START@), text::first_at(s, MANAGED_END@)) {
        (None, _) => Err("missing managed hook start marker"@),
        (Some(_), None) => Err("missing managed hook end marker"@),
        (Some(a), Some(b)) => Ok((a, line_end(s, b))),
    }
}

/// A hook with its managed block replaced.
pub open spec fn with_block(s: Seq<char>, managed: Seq<char>) -> Result<Seq<char>, Seq<char>> {
    match managed_block(s) {
        Ok((a, b)) => Ok(s.take(a) + managed + s.skip(b)),
        Err(e) => Err(e),
    }
}

/// Replaces the managed block of a hook, and keeps what stands before and after it.
pub fn replace_managed_block(existing: &str, managed: &str) -> (r: Result<String, String>)
    ensures
        commands::text_outcome(r) == with_block(existing@, managed@),
{
    proof {
        text::first_from_is_first(existing@, MANAGED_START@, 0);
        text::first_from_is_first(existing@, MANAGED_END@, 0);
    }
    let start = match text::find(existing, MANAGED_START) {
        Some(i) => i,
        None => return Err("missing managed hook start marker".to_string()),
    };
    let end = match text::find(existing, MANAGED_END) {
        Some(i) => i,
        None => return Err("missing managed hook end marker".to_string()),
    };
    let c = text::chars_of(existing);
    let mut stop = end;
    while stop < c.len() && c[stop] != '\n'
        invariant
            end <= stop <= c@.len(),
            c@ == existing@,
            text::first_from(existing@, seq!['\n'], end as int) == text::first_from(
                existing@,
                seq!['\n'],
                stop as int,
            ),
        decreases c@.len() - stop,
    {
        assert(existing@.subrange(stop as int, stop + 1)[0] != seq!['\n'][0]);
        stop = stop + 1;
    }
    let after = if stop < c.len() {
        assert(existing@.subrange(stop as int, stop + 1) =~= seq!['\n']);
        stop + 1
    } else {
        stop
    };
    let mut content = text::text_of(c.as_slice(), 0, start);
    content.append(managed);
    content.append(text::text_of(c.as_slice(), after, c.len()).as_str());
    proof {
        assert(existing@.subrange(0, start as int) =~= existing@.take(start as int));
        assert(existing@.subrange(after as int, c@.len() as int) =~= existing@.skip(after as int));
        assert(content@ =~= existing@.take(start as int) + managed@ + existing@.skip(after as int));
    }
    Ok(content)
}

/// What is to be done about the hook.
#[derive(Debug, PartialEq, Eq)]
pub enum HookPlan {
    /// No hook is there: one is made, and made executable.
    Create { content: String },
    /// The hook is given a new managed block.
    Update { content: String },
}

/// Decides what is to be done about the hook that is there, if one is. A hook without a managed
/// block is left alone.
pub fn install_or_update_pre_commit_hook(existing: Option<&str>, config: &GitHelperConfig) -> (r:
    Result<HookPlan, String>)
    ensures
        ({
            let content = hook_content(text::texts(config.protected_base_branches@));
            match (text::opt_slice(existing), r) {
                (None, Ok(HookPlan::Create { content: c })) => c@ == content,
                (Some(s), Ok(HookPlan::Update { content: c })) => text::holds(s, MANAGED_START@)
                    && text::holds(s, MANAGED_END@) && with_block(s, content) == Ok::<
                    Seq<char>,
                    Seq<char>,
                >(c@),
                (Some(s), Err(e)) => !(text::holds(s, MANAGED_START@) && text::holds(
                    s,
                    MANAGED_END@,
                )) && e@ == "existing pre-commit hook is unmanaged; refusing to overwrite"@,
                _ => false,
            }
        }),
{
    let content = managed_hook_content(config);
    match existing {
        None => Ok(HookPlan::Create { content }),
        Some(s) => {
            if text::contains(s, MANAGED_START) && text::contains(s, MANAGED_END) {
                proof {
                    text::first_from_is_first(s@, MANAGED_START@, 0);
                    text::first_from_is_first(s@, MANAGED_END@, 0);
                }
                match replace_managed_block(s, content.as_str()) {
                    Ok(updated) => Ok(HookPlan::Update { content: updated }),
                    Err(e) => {
                        assert(false);
                        Err(e)
                    },
                }
            } else {
                Err("existing pre-commit hook is unmanaged; refusing to overwrite".to_string())
            }
        },
    }
}

/// What stands before the managed block and after it stays as it is.
pub proof fn updating_keeps_the_rest(s: Seq<char>, managed: Seq<char>)
    requires
        managed_block(s) is Ok,
        managed_block(s)->Ok_0.0 <= managed_block(s)->Ok_0.1,
    ensures
        ({
            let (a, b) = managed_block(s)->Ok_0;
            let t = with_block(s, managed)->Ok_0;
            &&& 0 <= a <= b <= s.len()
            &&& t.take(a) == s.take(a)
            &&& t.skip(a + managed.len()) == s.skip(b)
            &&& t.subrange(a, a + managed.len()) == managed
        }),
{
    let (a, b) = managed_block(s)->Ok_0;
    text::first_from_is_first(s, MANAGED_START@, 0);
    text::first_from_is_first(s, MANAGED_END@, 0);
    text::first_from_is_first(s, seq!['\n'], text::first_at(s, MANAGED_END@)->0);
    let t = with_block(s, managed)->Ok_0;
    assert(t.take(a) =~= s.take(a));
    assert(t.skip(a + managed.len()) =~= s.skip(b));
    assert(t.subrange(a, a + managed.len()) =~= managed);
}

/// A new hook has a managed block, so that it can be updated later.
pub proof fn new_hooks_are_managed(branches: Seq<Seq<char>>)
    ensures
        text::holds(hook_content(branches), MANAGED_START@),
        text::holds(hook_content(branches), MANAGED_END@),
{
    let s = hook_content(branches);
    let start = MANAGED_START@;
    let end = MANAGED_END@;
    let middle = "\nbranch=\"$(git branch --show-current)\"\nfor protected in "@ + text::joined(
        quoted(branches),
        " "@,
    )
        + "; do\n  if [ \"$branch\" = \"$protected\" ]; then\n    echo \"lil-big-helper: direct commits to protected branch '$branch' are blocked\"\n    exit 1\n  fi\ndone\n"@;
    assert(start.subrange(0, start.len() as int) =~= start);
    assert(text::holds_at(start, start, 0));
    text::holds_inside("#!/bin/sh\n"@, start, middle + end + "\n"@, start);
    assert(s =~= "#!/bin/sh\n"@ + start + (middle + end + "\n"@));
    assert(end.subrange(0, end.len() as int) =~= end);
    assert(text::holds_at(end, end, 0));
    text::holds_inside("#!/bin/sh\n"@ + start + middle, end, "\n"@, end);
    assert(s =~= "#!/bin/sh\n"@ + start + middle + end + "\n"@);
}

/// A hook blocks commits to every protected branch: it names each of them in quotes between the
/// words that begin and end its list.
pub proof fn hooks_name_every_branch(branches: Seq<Seq<char>>, i: int)
    requires
        0 <= i < branches.len(),
    ensures
        text::holds(hook_content(branches), "\""@ + branches[i] + "\""@),
{
    let front = "#!/bin/sh\n"@ + MANAGED_START@
        + "\nbranch=\"$(git branch --show-current)\"\nfor protected in "@;
    let back =
        "; do\n  if [ \"$branch\" = \"$protected\" ]; then\n    echo \"lil-big-helper: direct commits to protected branch '$branch' are blocked\"\n    exit 1\n  fi\ndone\n"@
        + MANAGED_END@ + "\n"@;
    let list = text::joined(quoted(branches), " "@);
    text::joined_holds(quoted(branches), " "@, i);
    text::holds_inside(front, list, back, quoted(branches)[i]);
    assert(hook_content(branches) =~= front + list + back);
}

/// A new managed block takes the place of the old one, from its first line to its last. What the
/// user wrote before and behind it stays.
pub proof fn blocks_are_replaced(
    front: Seq<char>,
    middle: Seq<char>,
    tail: Seq<char>,
    back: Seq<char>,
    managed: Seq<char>,
)
    requires
        ({
            let s = front + MANAGED_START@ + middle + MANAGED_END@ + tail + seq!['\n'] + back;
            &&& forall|i: int| 0 <= i < front.len() ==> !#[trigger] text::holds_at(s, MANAGED_START@, i)
            &&& forall|i: int|
                0 <= i < front.len() + MANAGED_START@.len() + middle.len()
                    ==> !#[trigger] text::holds_at(s, MANAGED_END@, i)
        }),
        !tail.contains('\n'),
    ensures
        with_block(
            front + MANAGED_START@ + middle + MANAGED_END@ + tail + seq!['\n'] + back,
            managed,
        ) == Ok::<Seq<char>, Seq<char>>(front + managed + back),
{
    let start = MANAGED_START@;
    let end = MANAGED_END@;
    let s = front + start + middle + end + tail + seq!['\n'] + back;
    let a = front.len() as int;
    let b = (front.len() + start.len() + middle.len()) as int;
    let e = (b + end.len() + tail.len()) as int;
    text::first_from_is_first(s, start, 0);
    text::first_from_is_first(s, end, 0);
    assert(s.subrange(a, a + start.len()) =~= start);
    assert(text::holds_at(s, start, a));
    assert(s.subrange(b, b + end.len()) =~= end);
    assert(text::holds_at(s, end, b));
    assert(text::first_at(s, start) == Some(a));
    assert(text::first_at(s, end) == Some(b));
    text::first_from_is_first(s, seq!['\n'], b);
    assert(s.subrange(e, e + 1) =~= seq!['\n']);
    assert(text::holds_at(s, seq!['\n'], e));
    assert forall|i: int| b <= i < e implies !text::holds_at(s, seq!['\n'], i) by {
        if text::holds_at(s, seq!['\n'], i) {
            assert(s.subrange(i, i + 1)[0] == s[i]);
            if i < b + end.len() {
                assert(s[i] == end[i - b]);
                reveal_strlit("# lil-big-helper managed end");
            } else {
                assert(s[i] == tail[i - b - end.len()]);
            }
        }
    }
    assert(text::first_from(s, seq!['\n'], b) == Some(e));
    assert(s.take(a) =~= front);
    assert(s.skip(e + 1) =~= back);
}

} // verus!
