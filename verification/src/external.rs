//! Other programs: the commands of the user's, the clipboard and the assistant.

use vstd::prelude::*;
use vstd::string::*;
use crate::config::ClipboardConfig;
use crate::decode;
use crate::git::commands;
use crate::git::commands::Output;
use crate::numerals;
use crate::text;

verus! {

pub const USER_COMMAND_MARKER_PREFIX: &'static str = "{{";

pub const USER_COMMAND_TARGET_HASH_MARKER: &'static str = "{{target_hash}}";

pub const USER_COMMAND_FIRST_PARENT_HASH_MARKER: &'static str = "{{first_parent_hash}}";

pub const USER_COMMAND_PARENT_HASHES_MARKER: &'static str = "{{parent_hashes}}";

pub const USER_COMMAND_REFS_MARKER: &'static str = "{{refs}}";

pub const USER_COMMAND_BRANCHES_MARKER: &'static str = "{{branches}}";

pub const USER_COMMAND_REMOTE_BRANCHES_MARKER: &'static str = "{{remote_branches}}";

pub const USER_COMMAND_TAGS_MARKER: &'static str = "{{tags}}";

pub const USER_COMMAND_AREA_WIDTH_MARKER: &'static str = "{{area_width}}";

pub const USER_COMMAND_AREA_HEIGHT_MARKER: &'static str = "{{area_height}}";

/// What a command of the user's can be told of the selected commit.
#[derive(Debug)]
pub struct ExternalCommandParameters<'a> {
    pub command: &'a [String],
    pub target_hash: &'a str,
    pub parent_hashes: Vec<&'a str>,
    pub all_refs: Vec<&'a str>,
    pub branches: Vec<&'a str>,
    pub remote_branches: Vec<&'a str>,
    pub tags: Vec<&'a str>,
    pub area_width: u16,
    pub area_height: u16,
}

pub ghost struct ParametersView {
    pub command: Seq<Seq<char>>,
    pub target_hash: Seq<char>,
    pub parent_hashes: Seq<Seq<char>>,
    pub all_refs: Seq<Seq<char>>,
    pub branches: Seq<Seq<char>>,
    pub remote_branches: Seq<Seq<char>>,
    pub tags: Seq<Seq<char>>,
    pub area_width: u16,
    pub area_height: u16,
}

impl<'a> View for ExternalCommandParameters<'a> {
    type V = ParametersView;

    open spec fn view(&self) -> ParametersView {
        ParametersView {
            command: text::texts(self.command@),
            target_hash: self.target_hash@,
            parent_hashes: text::slices(self.parent_hashes@),
            all_refs: text::slices(self.all_refs@),
            branches: text::slices(self.branches@),
            remote_branches: text::slices(self.remote_branches@),
            tags: text::slices(self.tags@),
            area_width: self.area_width,
            area_height: self.area_height,
        }
    }
}

/// An argument with each marker in it replaced by what it stands for.
pub open spec fn filled(s: Seq<char>, p: ParametersView) -> Seq<char> {
    let s = text::replaced(s, USER_COMMAND_TARGET_HASH_MARKER@, p.target_hash);
    let s = text::replaced(
        s,
        USER_COMMAND_FIRST_PARENT_HASH_MARKER@,
        if p.parent_hashes.len() > 0 {
            p.parent_hashes[0]
        } else {
            Seq::empty()
        },
    );
    let s = text::replaced(
        s,
        USER_COMMAND_PARENT_HASHES_MARKER@,
        text::joined(p.parent_hashes, " "@),
    );
    let s = text::replaced(s, USER_COMMAND_REFS_MARKER@, text::joined(p.all_refs, " "@));
    let s = text::replaced(s, USER_COMMAND_BRANCHES_MARKER@, text::joined(p.branches, " "@));
    let s = text::replaced(
        s,
        USER_COMMAND_REMOTE_BRANCHES_MARKER@,
        text::joined(p.remote_branches, " "@),
    );
    let s = text::replaced(s, USER_COMMAND_TAGS_MARKER@, text::joined(p.tags, " "@));
    let s = text::replaced(
        s,
        USER_COMMAND_AREA_WIDTH_MARKER@,
        numerals::decimal(p.area_width as nat),
    );
    text::replaced(s, USER_COMMAND_AREA_HEIGHT_MARKER@, numerals::decimal(p.area_height as nat))
}

/// What an argument becomes: a marker on its own that stands for a list becomes the items of the
/// list, each an argument; in another argument the markers are replaced.
pub open spec fn expanded(arg: Seq<char>, p: ParametersView) -> Seq<Seq<char>> {
    if !text::holds(arg, USER_COMMAND_MARKER_PREFIX@) {
        seq![arg]
    } else if arg == USER_COMMAND_BRANCHES_MARKER@ {
        p.branches
    } else if arg == USER_COMMAND_REMOTE_BRANCHES_MARKER@ {
        p.remote_branches
    } else if arg == USER_COMMAND_TAGS_MARKER@ {
        p.tags
    } else if arg == USER_COMMAND_REFS_MARKER@ {
        p.all_refs
    } else if arg == USER_COMMAND_PARENT_HASHES_MARKER@ {
        p.parent_hashes
    } else {
        seq![filled(arg, p)]
    }
}

/// The command with its first `n` arguments expanded.
pub open spec fn user_command(p: ParametersView, n: int) -> Seq<Seq<char>>
    decreases n,
{
    if n <= 0 {
        Seq::empty()
    } else {
        user_command(p, n - 1) + expanded(p.command[n - 1], p)
    }
}

fn join_slices(v: &Vec<&str>) -> (r: String)
    ensures
        r@ == text::joined(text::slices(v@), " "@),
{
    let words = text::words(v);
    text::join(&words, " ")
}

/// Replaces the markers in an argument by what they stand for.
pub fn replace_command_arg(s: &str, params: &ExternalCommandParameters) -> (r: String)
    ensures
        r@ == filled(s@, params@),
{
    proof {
        reveal_strlit("{{target_hash}}");
        reveal_strlit("{{first_parent_hash}}");
        reveal_strlit("{{parent_hashes}}");
        reveal_strlit("{{refs}}");
        reveal_strlit("{{branches}}");
        reveal_strlit("{{remote_branches}}");
        reveal_strlit("{{tags}}");
        reveal_strlit("{{area_width}}");
        reveal_strlit("{{area_height}}");
    }
    let first_parent_hash = if params.parent_hashes.len() > 0 {
        assert(text::slices(params.parent_hashes@)[0] == params.parent_hashes@[0]@);
        params.parent_hashes[0].to_string()
    } else {
        String::new()
    };
    let parent_hashes = join_slices(&params.parent_hashes);
    let all_refs = join_slices(&params.all_refs);
    let branches = join_slices(&params.branches);
    let remote_branches = join_slices(&params.remote_branches);
    let tags = join_slices(&params.tags);
    let area_width = numerals::to_decimal(params.area_width as usize);
    let area_height = numerals::to_decimal(params.area_height as usize);

    let s = text::replace(s, USER_COMMAND_TARGET_HASH_MARKER, params.target_hash);
    let s = text::replace(
        s.as_str(),
        USER_COMMAND_FIRST_PARENT_HASH_MARKER,
        first_parent_hash.as_str(),
    );
    let s = text::replace(s.as_str(), USER_COMMAND_PARENT_HASHES_MARKER, parent_hashes.as_str());
    let s = text::replace(s.as_str(), USER_COMMAND_REFS_MARKER, all_refs.as_str());
    let s = text::replace(s.as_str(), USER_COMMAND_BRANCHES_MARKER, branches.as_str());
    let s = text::replace(
        s.as_str(),
        USER_COMMAND_REMOTE_BRANCHES_MARKER,
        remote_branches.as_str(),
    );
    let s = text::replace(s.as_str(), USER_COMMAND_TAGS_MARKER, tags.as_str());
    let s = text::replace(s.as_str(), USER_COMMAND_AREA_WIDTH_MARKER, area_width.as_str());
    text::replace(s.as_str(), USER_COMMAND_AREA_HEIGHT_MARKER, area_height.as_str())
}

fn expand(arg: &str, params: &ExternalCommandParameters) -> (r: Vec<String>)
    ensures
        text::texts(r@) == expanded(arg@, params@),
{
    if !text::contains(arg, USER_COMMAND_MARKER_PREFIX) {
        let r = text::words(&[arg]);
        assert(text::texts(r@) =~= seq![arg@]);
        r
    } else if text::same(arg, USER_COMMAND_BRANCHES_MARKER) {
        text::words(&params.branches)
    } else if text::same(arg, USER_COMMAND_REMOTE_BRANCHES_MARKER) {
        text::words(&params.remote_branches)
    } else if text::same(arg, USER_COMMAND_TAGS_MARKER) {
        text::words(&params.tags)
    } else if text::same(arg, USER_COMMAND_REFS_MARKER) {
        text::words(&params.all_refs)
    } else if text::same(arg, USER_COMMAND_PARENT_HASHES_MARKER) {
        text::words(&params.parent_hashes)
    } else {
        let s = replace_command_arg(arg, params);
        let r = text::words(&[s.as_str()]);
        assert(text::texts(r@) =~= seq![s@]);
        r
    }
}

/// The command that is run for the user: the program and its arguments.
pub fn build_user_command(params: &ExternalCommandParameters) -> (r: Vec<String>)
    ensures
        text::texts(r@) == user_command(params@, params@.command.len() as int),
{
    let mut command: Vec<String> = Vec::new();
    let mut i: usize = 0;
    assert(text::texts(command@) =~= Seq::<Seq<char>>::empty());
    while i < params.command.len()
        invariant
            i <= params.command@.len(),
            text::texts(command@) == user_command(params@, i as int),
        decreases params.command@.len() - i,
    {
        assert(params@.command[i as int] == params.command@[i as int]@);
        let mut more = expand(params.command[i].as_str(), params);
        proof {
            text::texts_add(command@, more@);
        }
        command.append(&mut more);
        i = i + 1;
    }
    command
}

/// A command without markers is run as it stands.
pub proof fn commands_without_markers_stay(p: ParametersView, n: int)
    requires
        0 <= n <= p.command.len(),
        forall|i: int|
            0 <= i < p.command.len() ==> !text::holds(
                #[trigger] p.command[i],
                USER_COMMAND_MARKER_PREFIX@,
            ),
    ensures
        user_command(p, n) == p.command.take(n),
    decreases n,
{
    if n > 0 {
        commands_without_markers_stay(p, n - 1);
        assert(!text::holds(p.command[n - 1], USER_COMMAND_MARKER_PREFIX@));
        assert(user_command(p, n) =~= p.command.take(n));
    } else {
        assert(user_command(p, n) =~= p.command.take(0));
    }
}

/// What came of a command of the user's whose output is shown. `status` is its exit status in
/// words.
pub fn exec_user_command(output: &Output, status: &str) -> (r: Result<String, String>)
    ensures
        commands::text_outcome(r) == if output.succeeded() {
            Ok(decode::lossy(output.stdout@))
        } else {
            Err(
                "Command exited with non-zero status: "@ + status@ + ", stderr: "@ + decode::lossy(
                    output.stderr@,
                ),
            )
        },
{
    if !output.success() {
        let mut msg = "Command exited with non-zero status: ".to_string();
        msg.append(status);
        msg.append(", stderr: ");
        msg.append(decode::decode_lossy(&output.stderr).as_str());
        return Err(msg);
    }
    Ok(decode::decode_lossy(&output.stdout))
}

/// What came of a command of the user's that took over the terminal.
pub fn exec_user_command_suspend(code: Option<i32>, status: &str) -> (r: Result<(), String>)
    ensures
        commands::unit_outcome(r) == if code == Some(0i32) {
            Ok(())
        } else {
            Err("Command exited with non-zero status: "@ + status@)
        },
{
    let success = match code {
        Some(c) => c == 0,
        None => false,
    };
    if !success {
        return Err(text::concat("Command exited with non-zero status: ", status));
    }
    Ok(())
}

/// How a text gets into the clipboard: by the clipboard of the system, or by a program that is
/// given it.
#[derive(Debug, PartialEq, Eq)]
pub enum ClipboardPlan {
    System,
    Program { commands: Vec<String> },
}

/// Decides how a text gets into the clipboard.
pub fn copy_to_clipboard(config: &ClipboardConfig) -> (r: Result<ClipboardPlan, String>)
    ensures
        match (config, r) {
            (ClipboardConfig::Auto, Ok(ClipboardPlan::System)) => true,
            (ClipboardConfig::Custom { commands }, Ok(ClipboardPlan::Program { commands: c })) =>
            c@.len() > 0 && text::texts(c@) == text::texts(commands@),
            (ClipboardConfig::Custom { commands }, Err(e)) => commands@.len() == 0 && e@
                == "No clipboard command specified"@,
            _ => false,
        },
{
    match config {
        ClipboardConfig::Auto => Ok(ClipboardPlan::System),
        ClipboardConfig::Custom { commands } => {
            if commands.len() == 0 {
                return Err("No clipboard command specified".to_string());
            }
            let commands = text::clone_texts(commands);
            assert(text::texts(commands@).len() == commands@.len());
            Ok(ClipboardPlan::Program { commands })
        },
    }
}

/// Where the program that fills the clipboard failed.
#[derive(Debug, Clone, Copy, PartialEq, Eq, Structural)]
pub enum ClipboardStage {
    Run,
    Write,
    Wait,
}

/// Says where the program that fills the clipboard failed, and why.
pub fn clipboard_failure(stage: ClipboardStage, program: &str, error: &str) -> (r: String)
    ensures
        r@ == match stage {
            ClipboardStage::Run => "Failed to run "@ + program@ + ": "@ + error@,
            ClipboardStage::Write => "Failed to write to "@ + program@ + ": "@ + error@,
            ClipboardStage::Wait => program@ + " failed: "@ + error@,
        },
{
    match stage {
        ClipboardStage::Run => {
            let mut r = "Failed to run ".to_string();
            r.append(program);
            r.append(": ");
            r.append(error);
            r
        },
        ClipboardStage::Write => {
            let mut r = "Failed to write to ".to_string();
            r.append(program);
            r.append(": ");
            r.append(error);
            r
        },
        ClipboardStage::Wait => {
            let mut r = program.to_string();
            r.append(" failed: ");
            r.append(error);
            r
        },
    }
}

/// What is said where the assistant does not know the user.
pub const NOT_AUTHENTICATED: &'static str =
    "Codex CLI is not authenticated. Run `codex login` and try again.";

/// Whether a message says that the assistant does not know the user.
pub open spec fn says_unknown(message: Seq<char>) -> bool {
    let lower = text::ascii_lowered(message);
    ||| text::holds(lower, "not logged in"@)
    ||| text::holds(lower, "not authenticated"@)
    ||| text::holds(lower, "login required"@)
    ||| text::holds(lower, "unauthorized"@)
}

pub fn is_codex_auth_error(message: &str) -> (r: bool)
    ensures
        r == says_unknown(message@),
{
    let lower = text::to_ascii_lowercase(message);
    text::contains(lower.as_str(), "not logged in") || text::contains(
        lower.as_str(),
        "not authenticated",
    ) || text::contains(lower.as_str(), "login required") || text::contains(
        lower.as_str(),
        "unauthorized",
    )
}

pub fn codex_login_arguments() -> (r: Vec<String>)
    ensures
        text::texts(r@) == seq!["login"@, "status"@],
{
    let r = text::words(&["login", "status"]);
    assert(text::texts(r@) =~= seq!["login"@, "status"@]);
    r
}

/// Whether the assistant knows the user, by what it says on its two streams.
pub open spec fn login_state(succeeded: bool, stdout: Seq<char>, stderr: Seq<char>) -> Result<
    (),
    Seq<char>,
> {
    if succeeded {
        if text::holds(stdout, "Logged in"@) || text::holds(stderr, "Logged in"@) {
            Ok(())
        } else {
            Err(NOT_AUTHENTICATED@)
        }
    } else {
        let complaint = text::trimmed(stderr);
        if says_unknown(complaint) || complaint.len() == 0 {
            Err(NOT_AUTHENTICATED@)
        } else {
            Err("Failed to check Codex login status: "@ + complaint)
        }
    }
}

/// Decides whether the assistant knows the user, by what it says on its two streams.
pub fn check_login(success: bool, stdout: &str, stderr: &str) -> (r: Result<(), String>)
    ensures
        commands::unit_outcome(r) == login_state(success, stdout@, stderr@),
{
    if !success {
        let complaint = text::trim(stderr);
        if is_codex_auth_error(complaint.as_str()) || text::byte_len(complaint.as_str()) == 0 {
            return Err(NOT_AUTHENTICATED.to_string());
        }
        return Err(text::concat("Failed to check Codex login status: ", complaint.as_str()));
    }
    if text::contains(stdout, "Logged in") || text::contains(stderr, "Logged in") {
        Ok(())
    } else {
        Err(NOT_AUTHENTICATED.to_string())
    }
}

/// Whether the assistant knows the user.
pub fn ensure_codex_authenticated(output: &Output) -> (r: Result<(), String>)
    ensures
        commands::unit_outcome(r) == login_state(
            output.succeeded(),
            decode::lossy(output.stdout@),
            decode::lossy(output.stderr@),
        ),
{
    let stdout = decode::decode_lossy(&output.stdout);
    let stderr = decode::decode_lossy(&output.stderr);
    check_login(output.success(), stdout.as_str(), stderr.as_str())
}

/// What the assistant is told to write.
pub const COMMIT_MESSAGE_PROMPT: &'static str =
    "Generate a git commit message for the staged diff provided on stdin.\nReturn only the commit message text.\nUse a short imperative subject line.\nInclude a blank line and a body only if the change benefits from extra context.\nDo not use code fences, bullets, labels, or commentary.";

/// The name of the file into which the assistant writes, by the process and the time.
pub fn codex_output_name(process: usize, millis: usize) -> (r: String)
    ensures
        r@ == "lil-big-helper-codex-commit-"@ + numerals::decimal(process as nat) + "-"@
            + numerals::decimal(millis as nat) + ".txt"@,
{
    let mut r = "lil-big-helper-codex-commit-".to_string();
    r.append(numerals::to_decimal(process).as_str());
    r.append("-");
    r.append(numerals::to_decimal(millis).as_str());
    r.append(".txt");
    r
}

/// How the assistant is asked for a commit message.
pub open spec fn codex_command(repo_path: Seq<char>, output_path: Seq<char>) -> Seq<Seq<char>> {
    seq![
        "exec"@,
        "--color"@,
        "never"@,
        "-C"@,
        repo_path,
        "-o"@,
        output_path,
        COMMIT_MESSAGE_PROMPT@,
    ]
}

/// Decides how the assistant is asked for a commit message. It is not asked where it does not know
/// the user, nor where nothing is staged.
pub fn generate_commit_message_with_codex(
    login: Result<(), String>,
    repo_path: &str,
    staged_diff: &str,
    output_path: &str,
) -> (r: Result<Vec<String>, String>)
    ensures
        match r {
            Ok(arguments) => login is Ok && text::trimmed(staged_diff@).len() > 0 && text::texts(
                arguments@,
            ) == codex_command(repo_path@, output_path@),
            Err(e) => match login {
                Err(l) => e == l,
                Ok(_) => text::trimmed(staged_diff@).len() == 0 && e@
                    == "No staged diff available to generate a commit message"@,
            },
        },
{
    match login {
        Err(e) => return Err(e),
        Ok(_) => {},
    }
    let diff = text::trim(staged_diff);
    if text::byte_len(diff.as_str()) == 0 {
        return Err("No staged diff available to generate a commit message".to_string());
    }
    let arguments = text::words(
        &["exec", "--color", "never", "-C", repo_path, "-o", output_path, COMMIT_MESSAGE_PROMPT],
    );
    assert(text::texts(arguments@) =~= codex_command(repo_path@, output_path@));
    Ok(arguments)
}

/// What is said where the assistant failed, by its complaint and its exit status in words.
pub open spec fn codex_failure(complaint: Seq<char>, status: Seq<char>) -> Seq<char> {
    if says_unknown(complaint) {
        NOT_AUTHENTICATED@
    } else if complaint.len() == 0 {
        "codex exited with non-zero status: "@ + status
    } else {
        "codex failed: "@ + complaint
    }
}

/// Says why the assistant failed.
pub fn describe_codex_failure(complaint: &str, status: &str) -> (r: String)
    ensures
        r@ == codex_failure(complaint@, status@),
{
    if is_codex_auth_error(complaint) {
        return NOT_AUTHENTICATED.to_string();
    }
    if text::byte_len(complaint) == 0 {
        text::concat("codex exited with non-zero status: ", status)
    } else {
        text::concat("codex failed: ", complaint)
    }
}

/// The commit message in what the assistant wrote.
pub open spec fn message_in(written: Result<Seq<char>, Seq<char>>) -> Result<Seq<char>, Seq<char>> {
    match written {
        Err(e) => Err("Failed to read codex commit message output: "@ + e),
        Ok(s) => if text::trimmed(s).len() == 0 {
            Err("Codex returned an empty commit message"@)
        } else {
            Ok(text::trimmed(s))
        },
    }
}

/// Takes the commit message out of what the assistant wrote.
pub fn read_commit_message(written: Result<String, String>) -> (r: Result<String, String>)
    ensures
        commands::text_outcome(r) == message_in(commands::text_outcome(written)),
{
    match written {
        Err(e) => Err(text::concat("Failed to read codex commit message output: ", e.as_str())),
        Ok(s) => {
            let message = text::trim(s.as_str());
            if text::byte_len(message.as_str()) == 0 {
                Err("Codex returned an empty commit message".to_string())
            } else {
                Ok(message)
            }
        },
    }
}

/// What came of asking the assistant. Where it failed, what it wrote does not count.
pub fn commit_message_outcome(output: &Output, status: &str, written: Result<String, String>) -> (r:
    Result<String, String>)
    ensures
        commands::text_outcome(r) == if output.succeeded() {
            message_in(commands::text_outcome(written))
        } else {
            Err(codex_failure(output.complained(), status@))
        },
{
    if !output.success() {
        let complaint = decode::trimmed_output(&output.stderr);
        return Err(describe_codex_failure(complaint.as_str(), status));
    }
    read_commit_message(written)
}

// ---------------------------------------------------------------------------------------------
// Laws

/// The markers with what stands for each.
spec fn marks(p: ParametersView) -> Seq<(Seq<char>, Seq<char>)> {
    seq![
        ("{{target_hash}}"@, p.target_hash),
        (
            "{{first_parent_hash}}"@,
            if p.parent_hashes.len() > 0 {
                p.parent_hashes[0]
            } else {
                Seq::empty()
            },
        ),
        ("{{parent_hashes}}"@, text::joined(p.parent_hashes, " "@)),
        ("{{refs}}"@, text::joined(p.all_refs, " "@)),
        ("{{branches}}"@, text::joined(p.branches, " "@)),
        ("{{remote_branches}}"@, text::joined(p.remote_branches, " "@)),
        ("{{tags}}"@, text::joined(p.tags, " "@)),
        ("{{area_width}}"@, numerals::decimal(p.area_width as nat)),
        ("{{area_height}}"@, numerals::decimal(p.area_height as nat)),
    ]
}

spec fn filled_upto(s: Seq<char>, p: ParametersView, k: int) -> Seq<char>
    decreases k,
{
    if k <= 0 {
        s
    } else {
        text::replaced(filled_upto(s, p, k - 1), marks(p)[k - 1].0, marks(p)[k - 1].1)
    }
}

/// Whether a text looks like a marker.
spec fn is_marker(m: Seq<char>) -> bool {
    &&& m.len() >= 8
    &&& m[0] == '{'
    &&& m[1] == '{'
    &&& forall|i: int| 2 <= i < m.len() ==> m[i] != '{'
}

proof fn markers_are_markers(p: ParametersView)
    ensures
        forall|i: int| 0 <= i < 9 ==> is_marker(#[trigger] marks(p)[i].0),
        forall|i: int, j: int|
            0 <= i < j < 9 ==> (#[trigger] marks(p)[i]).0[2] != (#[trigger] marks(p)[j]).0[2]
                || marks(p)[i].0[4] != marks(p)[j].0[4] || marks(p)[i].0[7] != marks(p)[j].0[7],
{
    reveal_strlit("{{target_hash}}");
    reveal_strlit("{{first_parent_hash}}");
    reveal_strlit("{{parent_hashes}}");
    reveal_strlit("{{refs}}");
    reveal_strlit("{{branches}}");
    reveal_strlit("{{remote_branches}}");
    reveal_strlit("{{tags}}");
    reveal_strlit("{{area_width}}");
    reveal_strlit("{{area_height}}");
}

proof fn markers_differ(
    front: Seq<char>,
    m: Seq<char>,
    rest: Seq<char>,
    other: Seq<char>,
)
    requires
        !front.contains('{'),
        !rest.contains('{'),
        is_marker(m),
        is_marker(other),
        m[2] != other[2] || m[4] != other[4] || m[7] != other[7],
    ensures
        !text::holds(front + m + rest, other),
{
    let s = front + m + rest;
    if text::holds(s, other) {
        let i = choose|i: int| #[trigger] text::holds_at(s, other, i);
        let part = s.subrange(i, i + other.len());
        assert(part[0] == s[i] && part[1] == s[i + 1]);
        assert(part[2] == s[i + 2] && part[4] == s[i + 4] && part[7] == s[i + 7]);
        if i < front.len() {
            assert(front[i] == '{');
        } else if i > front.len() {
            if i < front.len() + m.len() {
                assert(s[i] == m[i - front.len()]);
                if i + 1 < front.len() + m.len() {
                    assert(s[i + 1] == m[i + 1 - front.len()]);
                } else {
                    assert(rest[i + 1 - front.len() - m.len()] == '{');
                }
            } else {
                assert(rest[i - front.len() - m.len()] == '{');
            }
        }
        assert(i == front.len());
        assert(s[i + 2] == m[2] && s[i + 4] == m[4] && s[i + 7] == m[7]);
    }
}

proof fn plain_texts_have_no_marker(s: Seq<char>, m: Seq<char>)
    requires
        !s.contains('{'),
        is_marker(m),
    ensures
        !text::holds(s, m),
{
    if text::holds(s, m) {
        let i = choose|i: int| #[trigger] text::holds_at(s, m, i);
        assert(s.subrange(i, i + m.len())[0] == s[i]);
    }
}

proof fn one_marker_is_filled(
    front: Seq<char>,
    rest: Seq<char>,
    p: ParametersView,
    j: int,
    k: int,
)
    requires
        !front.contains('{'),
        !rest.contains('{'),
        0 <= j < 9,
        0 <= k <= 9,
        !marks(p)[j].1.contains('{'),
    ensures
        filled_upto(front + marks(p)[j].0 + rest, p, k) == if k <= j {
            front + marks(p)[j].0 + rest
        } else {
            front + marks(p)[j].1 + rest
        },
    decreases k,
{
    let m = marks(p)[j].0;
    let v = marks(p)[j].1;
    markers_are_markers(p);
    if k > 0 {
        one_marker_is_filled(front, rest, p, j, k - 1);
        let o = marks(p)[k - 1].0;
        assert(is_marker(o) && is_marker(m));
        if k - 1 < j {
            assert(marks(p)[k - 1].0[2] != marks(p)[j].0[2] || marks(p)[k - 1].0[4] != marks(
                p,
            )[j].0[4] || marks(p)[k - 1].0[7] != marks(p)[j].0[7]);
            markers_differ(front, m, rest, o);
            text::other_texts_stay(front + m + rest, o, marks(p)[k - 1].1);
        } else if k - 1 == j {
            assert forall|i: int| 0 <= i < front.len() implies !text::holds_at(
                front + m + rest,
                m,
                i,
            ) by {
                if text::holds_at(front + m + rest, m, i) {
                    assert((front + m + rest).subrange(i, i + m.len())[0] == front[i]);
                }
            }
            text::places_are_replaced(front, m, rest, v);
            plain_texts_have_no_marker(rest, m);
            text::other_texts_stay(rest, m, v);
        } else {
            let t = front + v + rest;
            if t.contains('{') {
                let i = choose|i: int| 0 <= i < t.len() && t[i] == '{';
                if i < front.len() {
                    assert(front[i] == '{');
                } else if i < front.len() + v.len() {
                    assert(v[i - front.len()] == '{');
                } else {
                    assert(rest[i - front.len() - v.len()] == '{');
                }
            }
            plain_texts_have_no_marker(t, o);
            text::other_texts_stay(t, o, marks(p)[k - 1].1);
        }
    }
}

/// In an argument each marker gives way to what it stands for: the hash of the commit, that of its
/// first parent or of all its parents, the names of the references, or the size of the area. What
/// stands before and behind the marker stays.
pub proof fn markers_are_filled(front: Seq<char>, rest: Seq<char>, p: ParametersView)
    requires
        !front.contains('{'),
        !rest.contains('{'),
    ensures
        !p.target_hash.contains('{') ==> filled(front + "{{target_hash}}"@ + rest, p) == front
            + p.target_hash + rest,
        p.parent_hashes.len() > 0 && !p.parent_hashes[0].contains('{') ==> filled(
            front + "{{first_parent_hash}}"@ + rest,
            p,
        ) == front + p.parent_hashes[0] + rest,
        p.parent_hashes.len() == 0 ==> filled(front + "{{first_parent_hash}}"@ + rest, p) == front
            + rest,
        !text::joined(p.parent_hashes, " "@).contains('{') ==> filled(
            front + "{{parent_hashes}}"@ + rest,
            p,
        ) == front + text::joined(p.parent_hashes, " "@) + rest,
        !text::joined(p.all_refs, " "@).contains('{') ==> filled(front + "{{refs}}"@ + rest, p)
            == front + text::joined(p.all_refs, " "@) + rest,
        !text::joined(p.branches, " "@).contains('{') ==> filled(front + "{{branches}}"@ + rest, p)
            == front + text::joined(p.branches, " "@) + rest,
        !text::joined(p.remote_branches, " "@).contains('{') ==> filled(
            front + "{{remote_branches}}"@ + rest,
            p,
        ) == front + text::joined(p.remote_branches, " "@) + rest,
        !text::joined(p.tags, " "@).contains('{') ==> filled(front + "{{tags}}"@ + rest, p) == front
            + text::joined(p.tags, " "@) + rest,
        !numerals::decimal(p.area_width as nat).contains('{') ==> filled(
            front + "{{area_width}}"@ + rest,
            p,
        ) == front + numerals::decimal(p.area_width as nat) + rest,
        !numerals::decimal(p.area_height as nat).contains('{') ==> filled(
            front + "{{area_height}}"@ + rest,
            p,
        ) == front + numerals::decimal(p.area_height as nat) + rest,
{
    assert forall|s: Seq<char>| #[trigger] filled(s, p) == filled_upto(s, p, 9) by {
        reveal_with_fuel(filled_upto, 10);
    }
    assert forall|j: int|
        0 <= j < 9 && !(#[trigger] marks(p)[j]).1.contains('{') implies filled_upto(
        front + marks(p)[j].0 + rest,
        p,
        9,
    ) == front + marks(p)[j].1 + rest by {
        one_marker_is_filled(front, rest, p, j, 9);
    }
    let none = Seq::<char>::empty();
    assert(front + none + rest =~= front + rest);
    assert(!none.contains('{'));
    assert(marks(p)[0] == ("{{target_hash}}"@, p.target_hash));
    assert(marks(p)[1].0 == "{{first_parent_hash}}"@);
    assert(marks(p)[2].0 == "{{parent_hashes}}"@);
    assert(marks(p)[3].0 == "{{refs}}"@);
    assert(marks(p)[4].0 == "{{branches}}"@);
    assert(marks(p)[5].0 == "{{remote_branches}}"@);
    assert(marks(p)[6].0 == "{{tags}}"@);
    assert(marks(p)[7].0 == "{{area_width}}"@);
    assert(marks(p)[8].0 == "{{area_height}}"@);
}

proof fn commands_go_on(p: ParametersView, a: Seq<Seq<char>>, b: Seq<Seq<char>>, n: int)
    requires
        p.command == a + b,
        0 <= n <= p.command.len(),
    ensures
        n <= a.len() ==> user_command(p, n) == user_command(
            (ParametersView { command: a, ..p }),
            n,
        ),
        n >= a.len() ==> user_command(p, n) == user_command(
            (ParametersView { command: a, ..p }),
            a.len() as int,
        ) + user_command((ParametersView { command: b, ..p }), n - a.len()),
    decreases n,
{
    let pa = ParametersView { command: a, ..p };
    let pb = ParametersView { command: b, ..p };
    let front = user_command(pa, a.len() as int);
    let none = Seq::<Seq<char>>::empty();
    if n <= a.len() {
        if n > 0 {
            commands_go_on(p, a, b, n - 1);
            assert(p.command[n - 1] == a[n - 1]);
            assert(expanded(p.command[n - 1], p) == expanded(a[n - 1], pa));
        }
        if n == a.len() {
            assert(user_command(pb, 0) == none);
            assert(front + none =~= front);
        }
    } else {
        let k = n - a.len();
        let here = expanded(b[k - 1], pb);
        let back = user_command(pb, k - 1);
        commands_go_on(p, a, b, n - 1);
        assert(p.command[n - 1] == b[k - 1]);
        assert(expanded(p.command[n - 1], p) == here);
        assert(user_command(p, n) == user_command(p, n - 1) + here);
        assert(user_command(pb, k) == back + here);
        assert((front + back) + here =~= front + (back + here));
    }
}

/// Each argument of a command is treated by itself. A marker for several names that is an argument
/// of its own becomes an argument for each name, and an argument without a marker stays as it is.
pub proof fn arguments_are_expanded(p: ParametersView, a: Seq<Seq<char>>, arg: Seq<char>, b: Seq<Seq<char>>)
    requires
        p.command == a + seq![arg] + b,
    ensures
        ({
            let of = |c: Seq<Seq<char>>| user_command((ParametersView { command: c, ..p }), c.len() as int);
            let all = user_command(p, p.command.len() as int);
            &&& arg == "{{branches}}"@ ==> all == of(a) + p.branches + of(b)
            &&& arg == "{{remote_branches}}"@ ==> all == of(a) + p.remote_branches + of(b)
            &&& arg == "{{tags}}"@ ==> all == of(a) + p.tags + of(b)
            &&& arg == "{{refs}}"@ ==> all == of(a) + p.all_refs + of(b)
            &&& arg == "{{parent_hashes}}"@ ==> all == of(a) + p.parent_hashes + of(b)
            &&& !arg.contains('{') ==> all == of(a) + seq![arg] + of(b)
            &&& text::holds(arg, "{{"@) && arg != "{{branches}}"@ && arg != "{{remote_branches}}"@
                && arg != "{{tags}}"@ && arg != "{{refs}}"@ && arg != "{{parent_hashes}}"@ ==> all
                == of(a) + seq![filled(arg, p)] + of(b)
        }),
{
    let one = seq![arg];
    let pm = ParametersView { command: one, ..p };
    let pab = ParametersView { command: a + one, ..p };
    commands_go_on(p, a + one, b, p.command.len() as int);
    commands_go_on(pab, a, one, (a + one).len() as int);
    assert(user_command(pm, 0) == Seq::<Seq<char>>::empty());
    assert(one[0] == arg);
    assert(user_command(pm, 1) =~= expanded(arg, pm));
    assert(expanded(arg, pm) == expanded(arg, p));
    if b.len() == 0 {
        assert(user_command((ParametersView { command: b, ..p }), 0) == Seq::<Seq<char>>::empty());
        assert(a + one + b =~= a + one);
    }
    if a.len() == 0 {
        assert(user_command((ParametersView { command: a, ..p }), 0) == Seq::<Seq<char>>::empty());
    }
    reveal_strlit("{{");
    reveal_strlit("{{branches}}");
    reveal_strlit("{{remote_branches}}");
    reveal_strlit("{{tags}}");
    reveal_strlit("{{refs}}");
    reveal_strlit("{{parent_hashes}}");
    if arg == "{{branches}}"@ || arg == "{{remote_branches}}"@ || arg == "{{tags}}"@ || arg
        == "{{refs}}"@ || arg == "{{parent_hashes}}"@ {
        assert(arg.subrange(0, 2) =~= "{{"@);
        assert(text::holds_at(arg, "{{"@, 0));
    }
    if !arg.contains('{') && text::holds(arg, "{{"@) {
        let i = choose|i: int| #[trigger] text::holds_at(arg, "{{"@, i);
        assert(arg.subrange(i, i + 2)[0] == arg[i]);
    }
    assert("{{branches}}"@[2] != "{{remote_branches}}"@[2]);
    assert("{{branches}}"@[2] != "{{tags}}"@[2]);
    assert("{{branches}}"@[2] != "{{refs}}"@[2]);
    assert("{{branches}}"@[2] != "{{parent_hashes}}"@[2]);
    assert("{{remote_branches}}"@[2] != "{{tags}}"@[2]);
    assert("{{remote_branches}}"@[4] != "{{refs}}"@[4]);
    assert("{{remote_branches}}"@[2] != "{{parent_hashes}}"@[2]);
    assert("{{tags}}"@[2] != "{{refs}}"@[2]);
    assert("{{tags}}"@[2] != "{{parent_hashes}}"@[2]);
    assert("{{refs}}"@[2] != "{{parent_hashes}}"@[2]);
}

/// A message that says in small letters or capitals that the assistant does not know the user is
/// taken to say so.
pub proof fn strangers_are_told(
    front: Seq<char>,
    said: Seq<char>,
    back: Seq<char>,
    status: Seq<char>,
)
    requires
        text::ascii_lowered(said) == "not logged in"@ || text::ascii_lowered(said)
            == "not authenticated"@ || text::ascii_lowered(said) == "login required"@
            || text::ascii_lowered(said) == "unauthorized"@,
    ensures
        says_unknown(front + said + back),
        codex_failure(front + said + back, status) == NOT_AUTHENTICATED@,
{
    let lower = text::ascii_lowered(front + said + back);
    text::middles_are_held(
        text::ascii_lowered(front),
        text::ascii_lowered(said),
        text::ascii_lowered(back),
    );
    assert(lower =~= text::ascii_lowered(front) + text::ascii_lowered(said) + text::ascii_lowered(
        back,
    ));
}

/// The user is known where the check went well and said so, and in no other case.
pub proof fn known_users_are_logged_in(succeeded: bool, stdout: Seq<char>, stderr: Seq<char>)
    ensures
        login_state(succeeded, stdout, stderr) is Ok <==> succeeded && (text::holds(
            stdout,
            "Logged in"@,
        ) || text::holds(stderr, "Logged in"@)),
{
}

/// The message of the assistant comes without the white space around it.
pub proof fn messages_are_read(front: Seq<char>, s: Seq<char>, back: Seq<char>)
    requires
        forall|i: int| 0 <= i < front.len() ==> text::white(#[trigger] front[i]),
        forall|i: int| 0 <= i < back.len() ==> text::white(#[trigger] back[i]),
        s.len() > 0,
        !text::white(s[0]),
        !text::white(s.last()),
    ensures
        message_in(Ok(front + s + back)) == Ok::<Seq<char>, Seq<char>>(s),
{
    text::trimming_takes_white_space(front, s, back);
}

/// The assistant works in the repository and writes where it is told, and is not asked without a
/// login or without anything staged.
pub proof fn assistants_are_asked(
    login: Result<(), String>,
    repo_path: &str,
    staged_diff: &str,
    output_path: &str,
    r: Result<Vec<String>, String>,
    c: char,
)
    requires
        call_ensures(
            generate_commit_message_with_codex,
            (login, repo_path, staged_diff, output_path),
            r,
        ),
    ensures
        login matches Err(e) ==> r == Err::<Vec<String>, String>(e),
        staged_diff@.len() == 0 ==> r is Err,
        login is Ok && staged_diff@.contains(c) && !text::white(c) ==> r is Ok,
        r matches Ok(a) ==> {
            let arguments = text::texts(a@);
            &&& arguments.len() == 8
            &&& arguments[0] == "exec"@
            &&& arguments[3] == "-C"@ && arguments[4] == repo_path@
            &&& arguments[5] == "-o"@ && arguments[6] == output_path@
        },
{
    if staged_diff@.contains(c) && !text::white(c) {
        text::dark_texts_stay(staged_diff@, c);
    }
    if staged_diff@.len() == 0 {
        assert(text::stripped_start(staged_diff@, None) == staged_diff@);
        assert(text::trimmed(staged_diff@) == staged_diff@);
    }
}

/// What is copied goes to the program that was set, and to the system where none was.
pub proof fn copies_go_where_they_are_set(config: &ClipboardConfig, r: Result<ClipboardPlan, String>)
    requires
        call_ensures(copy_to_clipboard, (config,), r),
    ensures
        config is Auto <==> (r matches Ok(ClipboardPlan::System)),
        config matches ClipboardConfig::Custom { commands } ==> commands@.len() > 0 ==> (
        r matches Ok(ClipboardPlan::Program { commands: c }) && text::texts(c@) == text::texts(
            commands@,
        )),
        config matches ClipboardConfig::Custom { commands } ==> commands@.len() == 0 ==> r is Err,
{
    if let (
        ClipboardConfig::Custom { commands },
        Ok(ClipboardPlan::Program { commands: c }),
    ) = (config, r) {
        assert(text::texts(commands@).len() == commands@.len());
        assert(text::texts(c@).len() == c@.len());
    }
}

} // verus!
