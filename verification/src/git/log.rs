//! Commits as `git log` and `git stash list` write them.

use vstd::prelude::*;
use vstd::string::*;
use chrono::DateTime;
use crate::decode;
use crate::git;
use crate::git::{Commit, CommitHash, CommitType, Head, SortCommit, Timestamp};
use crate::numerals;
use crate::text;

verus! {

/// What stands between the fields of a record.
pub const FIELD_SEPARATOR: char = '\x1f';

/// How many fields a commit's record has.
pub const COMMIT_FIELDS: usize = 10;

/// The point in time that `chrono` reads from an RFC 3339 text, if it reads one.
pub uninterp spec fn rfc3339(s: Seq<char>) -> Option<Timestamp>;

/// Reads a date with `chrono::DateTime::parse_from_rfc3339`. The result is a function of the
/// text: the instant in seconds and nanoseconds since 1970, and the offset that the text gives.
#[verifier::external_body]
fn read_date(s: &str) -> (r: Option<Timestamp>)
    ensures
        r == rfc3339(s@),
{
    match DateTime::parse_from_rfc3339(s) {
        Ok(d) => Some(
            Timestamp {
                seconds: d.timestamp(),
                nanos: d.timestamp_subsec_nanos(),
                offset: d.offset().local_minus_utc(),
            },
        ),
        Err(_) => None,
    }
}

/// Why a record is no commit.
#[derive(Debug, PartialEq, Eq)]
pub enum RecordError {
    /// It does not have the fields it should have.
    Parts { count: usize, record: String },
    /// One of its dates is none.
    Date { text: String },
}

pub ghost enum RecordErrorView {
    Parts { count: nat, record: Seq<char> },
    Date { text: Seq<char> },
}

impl View for RecordError {
    type V = RecordErrorView;

    open spec fn view(&self) -> RecordErrorView {
        match self {
            RecordError::Parts { count, record } => RecordErrorView::Parts {
                count: *count as nat,
                record: record@,
            },
            RecordError::Date { text } => RecordErrorView::Date { text: text@ },
        }
    }
}

impl RecordError {
    /// The error in words.
    pub fn message(&self) -> (r: String)
        ensures
            r@ == match self@ {
                RecordErrorView::Parts { count, record } => "unexpected number of parts: "@
                    + numerals::decimal(count) + " ["@ + record + "]"@,
                RecordErrorView::Date { text } => "unexpected date: "@ + text,
            },
    {
        match self {
            RecordError::Parts { count, record } => {
                let mut r = "unexpected number of parts: ".to_string();
                r.append(numerals::to_decimal(*count).as_str());
                r.append(" [");
                r.append(record.as_str());
                r.append("]");
                r
            },
            RecordError::Date { text } => text::concat("unexpected date: ", text.as_str()),
        }
    }
}

/// The fields of a commit's record, as `git log` is asked for them.
pub open spec fn commit_format() -> Seq<char> {
    text::joined(
        seq![
            "%H"@,
            "%an"@,
            "%ae"@,
            "%ad"@,
            "%cn"@,
            "%ce"@,
            "%cd"@,
            "%s"@,
            "%b"@,
            "%P"@,
        ],
        "%x1f"@,
    )
}

pub fn load_commits_format() -> (r: String)
    ensures
        r@ == commit_format(),
{
    let fields = text::words(
        &["%H", "%an", "%ae", "%ad", "%cn", "%ce", "%cd", "%s", "%b", "%P"],
    );
    assert(text::texts(fields@) =~= seq![
        "%H"@,
        "%an"@,
        "%ae"@,
        "%ad"@,
        "%cn"@,
        "%ce"@,
        "%cd"@,
        "%s"@,
        "%b"@,
        "%P"@,
    ]);
    text::join(&fields, "%x1f")
}

/// The parents named in a record's last field.
pub open spec fn parents_in(s: Seq<char>) -> Seq<Seq<char>> {
    if s.len() == 0 {
        Seq::empty()
    } else {
        text::pieces(s, ' ')
    }
}

/// The hashes with these texts.
pub fn to_hashes(v: &[String]) -> (r: Vec<CommitHash>)
    ensures
        git::hashes(r@) == text::texts(v@),
{
    let mut r: Vec<CommitHash> = Vec::new();
    let mut i: usize = 0;
    while i < v.len()
        invariant
            i <= v@.len(),
            r@.len() == i,
            forall|j: int| 0 <= j < i ==> (#[trigger] r@[j])@ == v@[j]@,
        decreases v@.len() - i,
    {
        r.push(CommitHash::from_text(v[i].as_str()));
        i = i + 1;
    }
    assert(git::hashes(r@) =~= text::texts(v@));
    r
}

pub fn parse_parent_commit_hashes(s: &str) -> (r: Vec<CommitHash>)
    ensures
        git::hashes(r@) == parents_in(s@),
{
    if text::byte_len(s) == 0 {
        let r: Vec<CommitHash> = Vec::new();
        assert(git::hashes(r@) =~= Seq::<Seq<char>>::empty());
        return r;
    }
    let parts = text::split(s, ' ');
    to_hashes(&parts)
}

/// The commit with these fields and dates.
pub open spec fn commit_of(
    p: Seq<Seq<char>>,
    author_date: Timestamp,
    committer_date: Timestamp,
    commit_type: CommitType,
) -> git::CommitView {
    git::CommitView {
        hash: p[0],
        author_name: p[1],
        author_email: p[2],
        author_date,
        committer_name: p[4],
        committer_email: p[5],
        committer_date,
        subject: p[7],
        body: p[8],
        parents: parents_in(p[9]),
        commit_type,
    }
}

/// Builds a commit from its fields, of which the two dates have been read.
pub fn commit_from_parts(
    parts: &Vec<String>,
    author_date: Timestamp,
    committer_date: Timestamp,
    commit_type: CommitType,
) -> (r: Commit)
    requires
        parts@.len() == COMMIT_FIELDS,
    ensures
        r@ == commit_of(text::texts(parts@), author_date, committer_date, commit_type),
{
    Commit {
        commit_hash: CommitHash::from_text(parts[0].as_str()),
        author_name: parts[1].clone(),
        author_email: parts[2].clone(),
        author_date,
        committer_name: parts[4].clone(),
        committer_email: parts[5].clone(),
        committer_date,
        subject: parts[7].clone(),
        body: parts[8].clone(),
        parent_commit_hashes: parse_parent_commit_hashes(parts[9].as_str()),
        commit_type,
    }
}

/// The commit that a record holds, or what is wrong with the record.
pub open spec fn parsed_commit(record: Seq<char>, commit_type: CommitType) -> Result<
    git::CommitView,
    RecordErrorView,
> {
    let p = text::pieces(record, FIELD_SEPARATOR);
    if p.len() != COMMIT_FIELDS {
        Err(RecordErrorView::Parts { count: p.len(), record })
    } else {
        match (rfc3339(p[3]), rfc3339(p[6])) {
            (Some(a), Some(c)) => Ok(commit_of(p, a, c, commit_type)),
            (None, _) => Err(RecordErrorView::Date { text: p[3] }),
            (Some(_), None) => Err(RecordErrorView::Date { text: p[6] }),
        }
    }
}

/// What an outcome says.
pub open spec fn commit_outcome(r: Result<Commit, RecordError>) -> Result<
    git::CommitView,
    RecordErrorView,
> {
    match r {
        Ok(c) => Ok(c@),
        Err(e) => Err(e@),
    }
}

/// Reads the commit that a record holds.
pub fn parse_commit(record: &str, commit_type: CommitType) -> (r: Result<Commit, RecordError>)
    ensures
        commit_outcome(r) == parsed_commit(record@, commit_type),
{
    let parts = text::split(record, FIELD_SEPARATOR);
    if parts.len() != COMMIT_FIELDS {
        return Err(RecordError::Parts { count: parts.len(), record: record.to_string() });
    }
    let author_date = match read_date(parts[3].as_str()) {
        Some(d) => d,
        None => return Err(RecordError::Date { text: parts[3].clone() }),
    };
    let committer_date = match read_date(parts[6].as_str()) {
        Some(d) => d,
        None => return Err(RecordError::Date { text: parts[6].clone() }),
    };
    Ok(commit_from_parts(&parts, author_date, committer_date, commit_type))
}

/// The commits that the records hold, or what is wrong with the first that holds none.
pub open spec fn parsed_commits(records: Seq<Seq<u8>>, commit_type: CommitType) -> Result<
    Seq<git::CommitView>,
    RecordErrorView,
>
    decreases records.len(),
{
    if records.len() == 0 {
        Ok(Seq::empty())
    } else {
        match parsed_commits(records.drop_last(), commit_type) {
            Err(e) => Err(e),
            Ok(v) => match parsed_commit(decode::lossy(records.last()), commit_type) {
                Err(e) => Err(e),
                Ok(c) => Ok(v.push(c)),
            },
        }
    }
}

/// What an outcome says.
pub open spec fn commits_outcome(r: Result<Vec<Commit>, RecordError>) -> Result<
    Seq<git::CommitView>,
    RecordErrorView,
> {
    match r {
        Ok(v) => Ok(git::commit_views(v@)),
        Err(e) => Err(e@),
    }
}

proof fn parsed_commits_fail_early(
    records: Seq<Seq<u8>>,
    commit_type: CommitType,
    n: int,
    e: RecordErrorView,
)
    requires
        0 <= n <= records.len(),
        parsed_commits(records.take(n), commit_type) == Err::<Seq<git::CommitView>, RecordErrorView>(
            e,
        ),
    ensures
        parsed_commits(records, commit_type) == Err::<Seq<git::CommitView>, RecordErrorView>(e),
    decreases records.len() - n,
{
    if n < records.len() {
        assert(records.take(n + 1).drop_last() =~= records.take(n));
        parsed_commits_fail_early(records, commit_type, n + 1, e);
    } else {
        assert(records.take(n) =~= records);
    }
}

/// Reads the commits of an output in which a NUL ends each record.
fn load_records(output: &[u8], commit_type: CommitType) -> (r: Result<Vec<Commit>, RecordError>)
    ensures
        commits_outcome(r) == parsed_commits(decode::records(output@, 0), commit_type),
{
    let records = decode::split_records(output, 0);
    let ghost all = decode::records(output@, 0);
    let mut commits: Vec<Commit> = Vec::new();
    let mut i: usize = 0;
    assert(all.take(0) =~= Seq::<Seq<u8>>::empty());
    assert(git::commit_views(commits@) =~= Seq::<git::CommitView>::empty());
    while i < records.len()
        invariant
            i <= records@.len(),
            all == decode::records(output@, 0),
            decode::byte_lists(records@) == all,
            parsed_commits(all.take(i as int), commit_type) == Ok::<
                Seq<git::CommitView>,
                RecordErrorView,
            >(git::commit_views(commits@)),
        decreases records@.len() - i,
    {
        let record = decode::decode_lossy(&records[i]);
        proof {
            assert(all[i as int] == records@[i as int]@);
            assert(all.take(i + 1).drop_last() =~= all.take(i as int));
            assert(all.take(i + 1).last() == records@[i as int]@);
        }
        match parse_commit(record.as_str(), commit_type) {
            Ok(c) => {
                assert(git::commit_views(commits@.push(c)) =~= git::commit_views(commits@).push(
                    c@,
                ));
                commits.push(c);
            },
            Err(e) => {
                proof {
                    parsed_commits_fail_early(all, commit_type, i + 1, e@);
                }
                return Err(e);
            },
        }
        i = i + 1;
    }
    assert(all.take(i as int) =~= all);
    Ok(commits)
}

/// Reads what `git log` prints when it is asked as `log_arguments` says.
pub fn load_all_commits(output: &[u8]) -> (r: Result<Vec<Commit>, RecordError>)
    ensures
        commits_outcome(r) == parsed_commits(decode::records(output@, 0), CommitType::Commit),
{
    load_records(output, CommitType::Commit)
}

/// Reads what `git stash list` prints when it is asked as `stash_arguments` says.
pub fn load_all_stashes(output: &[u8]) -> (r: Result<Vec<Commit>, RecordError>)
    ensures
        commits_outcome(r) == parsed_commits(decode::records(output@, 0), CommitType::Stash),
{
    load_records(output, CommitType::Stash)
}

/// The commit that each stash was made from.
pub open spec fn stash_bases(stashes: Seq<git::CommitView>) -> Seq<Seq<char>> {
    Seq::new(stashes.len(), |i: int| stashes[i].parents[0])
}

/// How `git log` is asked for the commits of all branches and tags, of what is checked out and of
/// what the stashes were made from.
pub open spec fn log_command(
    sort: SortCommit,
    head: git::HeadView,
    stashes: Seq<git::CommitView>,
    max_count: Option<usize>,
) -> Seq<Seq<char>> {
    seq![
        "log"@,
        match sort {
            SortCommit::Chronological => "--date-order"@,
            SortCommit::Topological => "--topo-order"@,
        },
        "--pretty="@ + commit_format(),
        "--date=iso-strict"@,
        "-z"@,
        "--branches"@,
        "--remotes"@,
        "--tags"@,
    ] + stash_bases(stashes) + if head is Unborn {
        seq![]
    } else {
        seq!["HEAD"@]
    } + match max_count {
        Some(n) => seq!["--max-count"@, numerals::decimal(n as nat)],
        None => seq![],
    }
}

pub fn log_arguments(
    sort: SortCommit,
    head: &Head,
    stashes: &[Commit],
    max_count: Option<usize>,
) -> (r: Vec<String>)
    requires
        forall|i: int| 0 <= i < stashes@.len() ==> (#[trigger] stashes@[i]).parent_commit_hashes@.len() > 0,
    ensures
        text::texts(r@) == log_command(sort, head@, git::commit_views(stashes@), max_count),
{
    let flag = match sort {
        SortCommit::Chronological => "--date-order",
        SortCommit::Topological => "--topo-order",
    };
    let format = text::concat("--pretty=", load_commits_format().as_str());
    let mut r = text::words(
        &[
            "log",
            flag,
            format.as_str(),
            "--date=iso-strict",
            "-z",
            "--branches",
            "--remotes",
            "--tags",
        ],
    );
    let ghost front = text::texts(r@);
    assert(front =~= seq![
        "log"@,
        flag@,
        format@,
        "--date=iso-strict"@,
        "-z"@,
        "--branches"@,
        "--remotes"@,
        "--tags"@,
    ]);
    let ghost bases = stash_bases(git::commit_views(stashes@));
    let mut i: usize = 0;
    assert(front + bases.take(0) =~= front);
    while i < stashes.len()
        invariant
            i <= stashes@.len(),
            bases == stash_bases(git::commit_views(stashes@)),
            text::texts(r@) == front + bases.take(i as int),
            forall|i: int| 0 <= i < stashes@.len() ==> (#[trigger] stashes@[i]).parent_commit_hashes@.len() > 0,
        decreases stashes@.len() - i,
    {
        let base = stashes[i].parent_commit_hashes[0].as_str().to_string();
        proof {
            text::texts_push(r@, base);
            assert(bases[i as int] == base@);
            assert(front + bases.take(i + 1) =~= (front + bases.take(i as int)).push(base@));
        }
        r.push(base);
        i = i + 1;
    }
    assert(bases.take(i as int) =~= bases);
    let ghost so_far = text::texts(r@);
    let named = match head {
        Head::Unborn => false,
        _ => true,
    };
    if named {
        let word = "HEAD".to_string();
        proof {
            text::texts_push(r@, word);
        }
        r.push(word);
        assert(text::texts(r@) =~= so_far + seq!["HEAD"@]);
    } else {
        assert(text::texts(r@) =~= so_far + Seq::<Seq<char>>::empty());
    }
    let ghost so_far = text::texts(r@);
    match max_count {
        Some(n) => {
            let number = numerals::to_decimal(n);
            let mut more = text::words(&["--max-count", number.as_str()]);
            assert(text::texts(more@) =~= seq!["--max-count"@, number@]);
            proof {
                text::texts_add(r@, more@);
            }
            r.append(&mut more);
        },
        None => {
            assert(so_far =~= so_far + Seq::<Seq<char>>::empty());
        },
    }
    r
}

/// How `git stash list` is asked for the stashes as commits.
pub open spec fn stash_command() -> Seq<Seq<char>> {
    seq!["stash"@, "list"@, "--pretty="@ + commit_format(), "--date=iso-strict"@, "-z"@]
}

pub fn stash_arguments() -> (r: Vec<String>)
    ensures
        text::texts(r@) == stash_command(),
{
    let format = text::concat("--pretty=", load_commits_format().as_str());
    let r = text::words(&["stash", "list", format.as_str(), "--date=iso-strict", "-z"]);
    assert(text::texts(r@) =~= stash_command());
    r
}

// ---------------------------------------------------------------------------------------------
// Laws

/// A record that is joined from ten fields is read as the commit with these fields: its hash, its
/// author's name and address, its author's date, the same of its committer, its subject, its body and
/// its parents.
pub proof fn records_hold_commits(
    hash: Seq<char>,
    author: (Seq<char>, Seq<char>, Seq<char>),
    committer: (Seq<char>, Seq<char>, Seq<char>),
    subject: Seq<char>,
    body: Seq<char>,
    parents: Seq<Seq<char>>,
    commit_type: CommitType,
)
    requires
        ({
            let f = seq![
                hash,
                author.0,
                author.1,
                author.2,
                committer.0,
                committer.1,
                committer.2,
                subject,
                body,
                text::joined(parents, seq![' ']),
            ];
            forall|i: int| 0 <= i < f.len() ==> !(#[trigger] f[i]).contains('\x1f')
        }),
        forall|i: int|
            0 <= i < parents.len() ==> (#[trigger] parents[i]).len() > 0 && !parents[i].contains(
                ' ',
            ),
        rfc3339(author.2) is Some,
        rfc3339(committer.2) is Some,
    ensures
        parsed_commit(
            text::joined(
                seq![
                    hash,
                    author.0,
                    author.1,
                    author.2,
                    committer.0,
                    committer.1,
                    committer.2,
                    subject,
                    body,
                    text::joined(parents, seq![' ']),
                ],
                seq!['\x1f'],
            ),
            commit_type,
        ) matches Ok(c) && {
            &&& c.hash == hash
            &&& c.author_name == author.0
            &&& c.author_email == author.1
            &&& Some(c.author_date) == rfc3339(author.2)
            &&& c.committer_name == committer.0
            &&& c.committer_email == committer.1
            &&& Some(c.committer_date) == rfc3339(committer.2)
            &&& c.subject == subject
            &&& c.body == body
            &&& c.parents == parents
            &&& c.commit_type == commit_type
        },
{
    let line = text::joined(parents, seq![' ']);
    let f = seq![
        hash,
        author.0,
        author.1,
        author.2,
        committer.0,
        committer.1,
        committer.2,
        subject,
        body,
        line,
    ];
    text::joined_parts_come_apart(f, '\x1f');
    if parents.len() > 0 {
        text::joined_parts_come_apart(parents, ' ');
        text::joined_holds(parents, seq![' '], 0);
        assert(parents[0].len() > 0);
        assert(line.len() > 0);
    } else {
        assert(parents =~= Seq::<Seq<char>>::empty());
    }
}

/// Git is asked to write the fields of a commit in the order in which they are read: the hash, the
/// author's name, address and date, those of the committer, the subject, the body and the parents.
pub proof fn fields_are_asked_for()
    ensures
        commit_format() == "%H%x1f%an%x1f%ae%x1f%ad%x1f%cn%x1f%ce%x1f%cd%x1f%s%x1f%b%x1f%P"@,
{
    reveal_strlit("%H");
    reveal_strlit("%an");
    reveal_strlit("%ae");
    reveal_strlit("%ad");
    reveal_strlit("%cn");
    reveal_strlit("%ce");
    reveal_strlit("%cd");
    reveal_strlit("%s");
    reveal_strlit("%b");
    reveal_strlit("%P");
    reveal_strlit("%x1f");
    reveal_strlit("%H%x1f%an%x1f%ae%x1f%ad%x1f%cn%x1f%ce%x1f%cd%x1f%s%x1f%b%x1f%P");
    let f = seq!["%H"@, "%an"@, "%ae"@, "%ad"@, "%cn"@, "%ce"@, "%cd"@, "%s"@, "%b"@, "%P"@];
    let sep = "%x1f"@;
    reveal_with_fuel(text::joined, 11);
    assert(text::joined(f, sep) =~= f[0] + sep + f[1] + sep + f[2] + sep + f[3] + sep + f[4] + sep
        + f[5] + sep + f[6] + sep + f[7] + sep + f[8] + sep + f[9]);
    assert(commit_format()
        =~= "%H%x1f%an%x1f%ae%x1f%ad%x1f%cn%x1f%ce%x1f%cd%x1f%s%x1f%b%x1f%P"@);
}

/// Each record is read, in their order, as a commit of the type that is asked for.
pub proof fn every_record_is_read(records: Seq<Seq<u8>>, commit_type: CommitType)
    requires
        forall|i: int|
            0 <= i < records.len() ==> parsed_commit(
                decode::lossy(#[trigger] records[i]),
                commit_type,
            ) is Ok,
    ensures
        parsed_commits(records, commit_type) matches Ok(v) && {
            &&& v.len() == records.len()
            &&& forall|i: int|
                0 <= i < records.len() ==> parsed_commit(
                    decode::lossy(#[trigger] records[i]),
                    commit_type,
                ) == Ok::<git::CommitView, RecordErrorView>(v[i])
            &&& forall|i: int| 0 <= i < v.len() ==> (#[trigger] v[i]).commit_type == commit_type
        },
    decreases records.len(),
{
    if records.len() > 0 {
        let front = records.drop_last();
        assert forall|i: int| 0 <= i < front.len() implies parsed_commit(
            decode::lossy(#[trigger] front[i]),
            commit_type,
        ) is Ok by {
            assert(parsed_commit(decode::lossy(records[i]), commit_type) is Ok);
        }
        every_record_is_read(front, commit_type);
        assert(parsed_commit(decode::lossy(records[records.len() - 1]), commit_type) is Ok);
        let v = parsed_commits(records, commit_type)->Ok_0;
        assert forall|i: int| 0 <= i < records.len() implies parsed_commit(
            decode::lossy(#[trigger] records[i]),
            commit_type,
        ) == Ok::<git::CommitView, RecordErrorView>(v[i]) by {
            if i < front.len() {
                assert(front[i] == records[i]);
            }
        }
    }
}

/// The log is asked for what all branches, all remote branches and all tags reach, for what is checked
/// out where something is, and for what each stash was made from, in the order that is set and not
/// more than the number that is set.
pub proof fn all_history_is_asked_for(
    sort: SortCommit,
    head: git::HeadView,
    stashes: Seq<git::CommitView>,
    max_count: Option<usize>,
)
    ensures
        ({
            let command = log_command(sort, head, stashes, max_count);
            &&& command[0] == "log"@
            &&& command.contains("--branches"@)
            &&& command.contains("--remotes"@)
            &&& command.contains("--tags"@)
            &&& command.contains("-z"@)
            &&& command.contains("--date=iso-strict"@)
            &&& command.contains(
                "--pretty="@
                    + "%H%x1f%an%x1f%ae%x1f%ad%x1f%cn%x1f%ce%x1f%cd%x1f%s%x1f%b%x1f%P"@,
            )
            &&& sort == SortCommit::Chronological ==> command.contains("--date-order"@)
            &&& sort == SortCommit::Topological ==> command.contains("--topo-order"@)
            &&& !(head is Unborn) ==> command.contains("HEAD"@)
            &&& forall|i: int|
                0 <= i < stashes.len() ==> command.contains((#[trigger] stashes[i]).parents[0])
            &&& max_count matches Some(n) ==> command.len() >= 2 && command[command.len() - 2]
                == "--max-count"@ && command.last() == numerals::decimal(n as nat)
            &&& command.len() == 8 + stashes.len() + (if head is Unborn {
                0int
            } else {
                1
            }) + (if max_count is Some {
                2int
            } else {
                0
            })
        }),
{
    fields_are_asked_for();
    let command = log_command(sort, head, stashes, max_count);
    assert(command[1] == match sort {
        SortCommit::Chronological => "--date-order"@,
        SortCommit::Topological => "--topo-order"@,
    });
    assert(command[2] == "--pretty="@ + commit_format());
    assert(command[3] == "--date=iso-strict"@);
    assert(command[4] == "-z"@);
    assert(command[5] == "--branches"@);
    assert(command[6] == "--remotes"@);
    assert(command[7] == "--tags"@);
    assert forall|i: int| 0 <= i < stashes.len() implies command.contains(
        (#[trigger] stashes[i]).parents[0],
    ) by {
        assert(command[8 + i] == stashes[i].parents[0]);
    }
    if !(head is Unborn) {
        assert(command[8 + stashes.len() as int] == "HEAD"@);
    }
}

/// Git is asked for the stashes in the form in which commits are read.
pub proof fn stashes_are_asked_for_as_commits()
    ensures
        stash_command() == seq![
            "stash"@,
            "list"@,
            "--pretty="@ + "%H%x1f%an%x1f%ae%x1f%ad%x1f%cn%x1f%ce%x1f%cd%x1f%s%x1f%b%x1f%P"@,
            "--date=iso-strict"@,
            "-z"@,
        ],
{
    fields_are_asked_for();
}

} // verus!
