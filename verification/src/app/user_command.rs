//! The commands of the user's: which one is run, and what it is told.

use vstd::prelude::*;
use vstd::string::*;
use crate::config::{UserCommand, UserCommandConfig, UserCommandType};
use crate::external;
use crate::external::ExternalCommandParameters;
use crate::git;
use crate::git::commands;
use crate::git::{Commit, Ref};
use crate::numerals;
use crate::text;

verus! {

/// What is said where there is no command with a number.
pub open spec fn no_command(number: nat) -> Seq<char> {
    "No user command configured for number "@ + numerals::decimal(number)
}

/// The command with a number.
pub fn extract_user_command_by_number(user_command_number: usize, config: &UserCommandConfig) -> (r:
    Result<&UserCommand, String>)
    requires
        config.commands.wf(),
    ensures
        ({
            let key = numerals::decimal(user_command_number as nat);
            match r {
                Ok(c) => config.commands@.contains_key(key) && *c == config.commands@[key],
                Err(e) => !config.commands@.contains_key(key) && e@ == no_command(
                    user_command_number as nat,
                ),
            }
        }),
{
    let key = numerals::to_decimal(user_command_number);
    match config.commands.get(key.as_str()) {
        Some(c) => Ok(c),
        None => Err(text::concat("No user command configured for number ", key.as_str())),
    }
}

/// Whether the repository is to be read anew after the command with a number.
pub fn extract_user_command_refresh_by_number(
    user_command_number: usize,
    config: &UserCommandConfig,
) -> (r: bool)
    requires
        config.commands.wf(),
    ensures
        ({
            let key = numerals::decimal(user_command_number as nat);
            r == (config.commands@.contains_key(key) && config.commands@[key].refresh)
        }),
{
    match extract_user_command_by_number(user_command_number, config) {
        Ok(c) => c.refresh,
        Err(_) => false,
    }
}

/// The names of those of the first `k` references that are of a sort.
pub open spec fn names_of(
    refs: Seq<git::RefView>,
    sort: spec_fn(git::RefView) -> bool,
    k: int,
) -> Seq<Seq<char>>
    decreases k,
{
    if k <= 0 {
        Seq::empty()
    } else {
        let rest = names_of(refs, sort, k - 1);
        if sort(refs[k - 1]) {
            rest.push(refs[k - 1].name())
        } else {
            rest
        }
    }
}

/// A number with another taken away, but not below nothing.
pub open spec fn less(a: int, b: int) -> int {
    if a >= b {
        a - b
    } else {
        0
    }
}

/// The rows that a command has: those under the list, but not more than are set, without the one
/// that the border takes.
pub open spec fn command_rows(view_height: int, set_height: int) -> int {
    let rows = less(view_height, 1);
    less(
        if rows <= set_height {
            rows
        } else {
            set_height
        },
        1,
    )
}

/// What a command is told of a commit with some references. Stashes are left out.
pub open spec fn parameters_for(
    command: Seq<Seq<char>>,
    commit: git::CommitView,
    refs: Seq<git::RefView>,
    view_width: u16,
    view_height: u16,
    set_height: u16,
) -> external::ParametersView {
    let n = refs.len() as int;
    external::ParametersView {
        command,
        target_hash: commit.hash,
        parent_hashes: commit.parents,
        all_refs: names_of(refs, |r: git::RefView| !(r is Stash), n),
        branches: names_of(refs, |r: git::RefView| r is Branch, n),
        remote_branches: names_of(refs, |r: git::RefView| r is RemoteBranch, n),
        tags: names_of(refs, |r: git::RefView| r is Tag, n),
        area_width: less(view_width as int, 4) as u16,
        area_height: command_rows(view_height as int, set_height as int) as u16,
    }
}

proof fn slices_push(v: Seq<&str>, s: &str)
    ensures
        text::slices(v.push(s)) == text::slices(v).push(s@),
{
    assert(text::slices(v.push(s)) =~= text::slices(v).push(s@));
}

/// What the command with a number is told of a commit with some references.
pub fn build_external_command_parameters<'a>(
    commit: &'a Commit,
    refs: &'a Vec<Ref>,
    user_command_number: usize,
    view_width: u16,
    view_height: u16,
    set_height: u16,
    config: &'a UserCommandConfig,
) -> (r: Result<ExternalCommandParameters<'a>, String>)
    requires
        config.commands.wf(),
    ensures
        ({
            let key = numerals::decimal(user_command_number as nat);
            match r {
                Ok(p) => config.commands@.contains_key(key) && p@ == parameters_for(
                    text::texts(config.commands@[key].commands@),
                    commit@,
                    git::ref_views(refs@),
                    view_width,
                    view_height,
                    set_height,
                ),
                Err(e) => !config.commands@.contains_key(key) && e@ == no_command(
                    user_command_number as nat,
                ),
            }
        }),
{
    let command = match extract_user_command_by_number(user_command_number, config) {
        Ok(c) => c,
        Err(e) => return Err(e),
    };
    let mut parent_hashes: Vec<&'a str> = Vec::new();
    let mut i: usize = 0;
    while i < commit.parent_commit_hashes.len()
        invariant
            i <= commit.parent_commit_hashes@.len(),
            parent_hashes@.len() == i,
            forall|j: int|
                0 <= j < i ==> (#[trigger] parent_hashes@[j])@ == commit.parent_commit_hashes@[j]@,
        decreases commit.parent_commit_hashes@.len() - i,
    {
        parent_hashes.push(commit.parent_commit_hashes[i].as_str());
        i = i + 1;
    }
    assert(text::slices(parent_hashes@) =~= commit@.parents);
    let ghost all = git::ref_views(refs@);
    let ghost kept = |r: git::RefView| !(r is Stash);
    let ghost local = |r: git::RefView| r is Branch;
    let ghost remote = |r: git::RefView| r is RemoteBranch;
    let ghost tagged = |r: git::RefView| r is Tag;
    let mut all_refs: Vec<&'a str> = Vec::new();
    let mut branches: Vec<&'a str> = Vec::new();
    let mut remote_branches: Vec<&'a str> = Vec::new();
    let mut tags: Vec<&'a str> = Vec::new();
    proof {
        assert(text::slices(all_refs@) =~= Seq::<Seq<char>>::empty());
        assert(text::slices(branches@) =~= Seq::<Seq<char>>::empty());
        assert(text::slices(remote_branches@) =~= Seq::<Seq<char>>::empty());
        assert(text::slices(tags@) =~= Seq::<Seq<char>>::empty());
    }
    let mut k: usize = 0;
    while k < refs.len()
        invariant
            k <= refs@.len(),
            all == git::ref_views(refs@),
            kept == (|r: git::RefView| !(r is Stash)),
            local == (|r: git::RefView| r is Branch),
            remote == (|r: git::RefView| r is RemoteBranch),
            tagged == (|r: git::RefView| r is Tag),
            text::slices(all_refs@) == names_of(all, kept, k as int),
            text::slices(branches@) == names_of(all, local, k as int),
            text::slices(remote_branches@) == names_of(all, remote, k as int),
            text::slices(tags@) == names_of(all, tagged, k as int),
        decreases refs@.len() - k,
    {
        let reference = &refs[k];
        assert(all[k as int] == reference@);
        let name = reference.name();
        proof {
            slices_push(all_refs@, name);
            slices_push(branches@, name);
            slices_push(remote_branches@, name);
            slices_push(tags@, name);
        }
        let shown = match reference {
            Ref::Tag { .. } => {
                tags.push(name);
                true
            },
            Ref::Branch { .. } => {
                branches.push(name);
                true
            },
            Ref::RemoteBranch { .. } => {
                remote_branches.push(name);
                true
            },
            Ref::Stash { .. } => false,
        };
        if shown {
            all_refs.push(name);
        }
        k = k + 1;
    }
    let rows = view_height.saturating_sub(1);
    let rows = if rows <= set_height {
        rows
    } else {
        set_height
    };
    Ok(
        ExternalCommandParameters {
            command: command.commands.as_slice(),
            target_hash: commit.commit_hash.as_str(),
            parent_hashes,
            all_refs,
            branches,
            remote_branches,
            tags,
            area_width: view_width.saturating_sub(4),
            area_height: rows.saturating_sub(1),
        },
    )
}

/// What is done after a command of the user's: what is shown, whether the repository is read anew,
/// what is said of a failure, and whether the screen is cleared.
#[derive(Debug, PartialEq, Eq)]
pub struct CommandOutcome {
    pub show: Option<String>,
    pub refresh: bool,
    pub error: Option<String>,
    pub clear: bool,
}

pub ghost struct OutcomeView {
    pub show: Option<Seq<char>>,
    pub refresh: bool,
    pub error: Option<Seq<char>>,
    pub clear: bool,
}

impl View for CommandOutcome {
    type V = OutcomeView;

    open spec fn view(&self) -> OutcomeView {
        OutcomeView {
            show: text::opt_text(self.show),
            refresh: self.refresh,
            error: text::opt_text(self.error),
            clear: self.clear,
        }
    }
}

/// What is done after a command: one whose output is shown leaves the rest as it is; one that runs
/// in silence has the repository read anew where it succeeded; one that took over the terminal has
/// it read anew in any case.
pub open spec fn outcome_of(
    kind: UserCommandType,
    refresh: bool,
    result: Result<Seq<char>, Seq<char>>,
) -> OutcomeView {
    let error = match result {
        Ok(_) => None,
        Err(e) => Some(e),
    };
    match kind {
        UserCommandType::Inline => OutcomeView {
            show: match result {
                Ok(s) => Some(s),
                Err(_) => None,
            },
            refresh: false,
            error,
            clear: false,
        },
        UserCommandType::Silent => OutcomeView {
            show: None,
            refresh: refresh && result is Ok,
            error,
            clear: true,
        },
        UserCommandType::Suspend => OutcomeView { show: None, refresh, error, clear: true },
    }
}

/// Decides what is done after a command of the user's.
pub fn open_user_command(kind: UserCommandType, refresh: bool, result: Result<String, String>) -> (r:
    CommandOutcome)
    ensures
        r@ == outcome_of(kind, refresh, commands::text_outcome(result)),
{
    match (kind, result) {
        (UserCommandType::Inline, Ok(s)) => CommandOutcome {
            show: Some(s),
            refresh: false,
            error: None,
            clear: false,
        },
        (UserCommandType::Inline, Err(e)) => CommandOutcome {
            show: None,
            refresh: false,
            error: Some(e),
            clear: false,
        },
        (UserCommandType::Silent, Ok(_)) => CommandOutcome {
            show: None,
            refresh,
            error: None,
            clear: true,
        },
        (UserCommandType::Silent, Err(e)) => CommandOutcome {
            show: None,
            refresh: false,
            error: Some(e),
            clear: true,
        },
        (UserCommandType::Suspend, Ok(_)) => CommandOutcome {
            show: None,
            refresh,
            error: None,
            clear: true,
        },
        (UserCommandType::Suspend, Err(e)) => CommandOutcome {
            show: None,
            refresh,
            error: Some(e),
            clear: true,
        },
    }
}

// ---------------------------------------------------------------------------------------------
// Laws

proof fn names_of_are(
    refs: Seq<git::RefView>,
    sort: spec_fn(git::RefView) -> bool,
    k: int,
    name: Seq<char>,
)
    requires
        0 <= k <= refs.len(),
    ensures
        names_of(refs, sort, k).contains(name) <==> exists|i: int|
            0 <= i < k && sort(#[trigger] refs[i]) && refs[i].name() == name,
    decreases k,
{
    if k > 0 {
        let rest = names_of(refs, sort, k - 1);
        let all = names_of(refs, sort, k);
        names_of_are(refs, sort, k - 1, name);
        let here = sort(refs[k - 1]) && refs[k - 1].name() == name;
        assert(all.contains(name) <==> rest.contains(name) || here) by {
            if rest.contains(name) {
                let i = choose|i: int| 0 <= i < rest.len() && rest[i] == name;
                assert(all[i] == name);
            }
            if here {
                assert(all[rest.len() as int] == name);
            }
            if all.contains(name) {
                let i = choose|i: int| 0 <= i < all.len() && all[i] == name;
                if i < rest.len() {
                    assert(rest[i] == name);
                }
            }
        }
        if exists|i: int| 0 <= i < k && sort(#[trigger] refs[i]) && refs[i].name() == name {
            let i = choose|i: int| 0 <= i < k && sort(#[trigger] refs[i]) && refs[i].name() == name;
            if i < k - 1 {
                assert(sort(refs[i]) && refs[i].name() == name);
            }
        }
    }
}

/// A command of the user learns of the commit its hash and its parents, and the names of the
/// references at it by their sorts; stashes are not among them.
pub proof fn commands_learn_of_the_commit(
    command: Seq<Seq<char>>,
    commit: git::CommitView,
    refs: Seq<git::RefView>,
    view_width: u16,
    view_height: u16,
    set_height: u16,
    name: Seq<char>,
)
    ensures
        ({
            let p = parameters_for(command, commit, refs, view_width, view_height, set_height);
            &&& p.command == command
            &&& p.target_hash == commit.hash
            &&& p.parent_hashes == commit.parents
            &&& p.branches.contains(name) <==> exists|i: int|
                0 <= i < refs.len() && #[trigger] refs[i] is Branch && refs[i].name() == name
            &&& p.remote_branches.contains(name) <==> exists|i: int|
                0 <= i < refs.len() && #[trigger] refs[i] is RemoteBranch && refs[i].name() == name
            &&& p.tags.contains(name) <==> exists|i: int|
                0 <= i < refs.len() && #[trigger] refs[i] is Tag && refs[i].name() == name
            &&& p.all_refs.contains(name) <==> exists|i: int|
                0 <= i < refs.len() && !(#[trigger] refs[i] is Stash) && refs[i].name() == name
            &&& view_width >= 4 ==> p.area_width == view_width - 4
            &&& 2 <= set_height < view_height ==> p.area_height == set_height - 1
            &&& 2 <= view_height <= set_height ==> p.area_height == view_height - 2
        }),
{
    let n = refs.len() as int;
    names_of_are(refs, |r: git::RefView| !(r is Stash), n, name);
    names_of_are(refs, |r: git::RefView| r is Branch, n, name);
    names_of_are(refs, |r: git::RefView| r is RemoteBranch, n, name);
    names_of_are(refs, |r: git::RefView| r is Tag, n, name);
}

/// What an inline command prints is shown, and nothing else is. A silent command refreshes only
/// where it went well, one that suspends the screen in either case, and a failure is always told.
pub proof fn outcomes_are_shown(refresh: bool, printed: Seq<char>, why: Seq<char>)
    ensures
        outcome_of(UserCommandType::Inline, refresh, Ok(printed)).show == Some(printed),
        outcome_of(UserCommandType::Silent, refresh, Ok(printed)).show is None,
        outcome_of(UserCommandType::Suspend, refresh, Ok(printed)).show is None,
        outcome_of(UserCommandType::Silent, refresh, Ok(printed)).refresh == refresh,
        !outcome_of(UserCommandType::Silent, refresh, Err(why)).refresh,
        outcome_of(UserCommandType::Suspend, refresh, Ok(printed)).refresh == refresh,
        outcome_of(UserCommandType::Suspend, refresh, Err(why)).refresh == refresh,
        !outcome_of(UserCommandType::Inline, refresh, Ok(printed)).refresh,
        outcome_of(UserCommandType::Inline, refresh, Err(why)).error == Some(why),
        outcome_of(UserCommandType::Inline, refresh, Err(why)).show is None,
        outcome_of(UserCommandType::Silent, refresh, Err(why)).error == Some(why),
        outcome_of(UserCommandType::Suspend, refresh, Err(why)).error == Some(why),
        outcome_of(UserCommandType::Inline, refresh, Ok(printed)).error is None,
{
}

} // verus!
